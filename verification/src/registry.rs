use vstd::prelude::*;

verus! {

/// One live entry: a transport-level session handle filed under its
/// composite (session, channel) identity.
struct RegistryEntry<V> {
    session_id: u64,
    channel_id: u64,
    handle: V,
}

impl<V> RegistryEntry<V> {
    /// The composite identity this entry is filed under.
    spec fn key(self) -> (u64, u64) {
        (self.session_id, self.channel_id)
    }
}

/// No two entries are filed under the same identity.
spec fn distinct_keys<V>(s: Seq<RegistryEntry<V>>) -> bool {
    forall|i: int, j: int|
        0 <= i < j < s.len() ==> #[trigger] s[i].key() != #[trigger] s[j].key()
}

/// The entries as the map they stand for, read front to back; with distinct
/// keys the reading order does not matter.
spec fn map_of<V>(s: Seq<RegistryEntry<V>>) -> Map<(u64, u64), V>
    decreases s.len(),
{
    if s.len() == 0 {
        Map::empty()
    } else {
        map_of(s.drop_last()).insert(s.last().key(), s.last().handle)
    }
}

proof fn lemma_distinct_drop_last<V>(s: Seq<RegistryEntry<V>>)
    requires
        distinct_keys(s),
        s.len() > 0,
    ensures
        distinct_keys(s.drop_last()),
{
    assert forall|i: int, j: int| 0 <= i < j < s.drop_last().len() implies #[trigger] s.drop_last()[i].key()
        != #[trigger] s.drop_last()[j].key() by {
        assert(s.drop_last()[i] == s[i]);
        assert(s.drop_last()[j] == s[j]);
    }
}

/// An identity under which no entry is filed is not in the map.
proof fn lemma_absent<V>(s: Seq<RegistryEntry<V>>, k: (u64, u64))
    requires
        forall|i: int| 0 <= i < s.len() ==> #[trigger] s[i].key() != k,
    ensures
        !map_of(s).dom().contains(k),
    decreases s.len(),
{
    if s.len() > 0 {
        assert(s.last() == s[s.len() - 1]);
        lemma_absent(s.drop_last(), k);
    }
}

/// With distinct keys, the map holds exactly what each entry says.
proof fn lemma_present<V>(s: Seq<RegistryEntry<V>>, i: int)
    requires
        distinct_keys(s),
        0 <= i < s.len(),
    ensures
        map_of(s).dom().contains(s[i].key()),
        map_of(s)[s[i].key()] == s[i].handle,
    decreases s.len(),
{
    if i < s.len() - 1 {
        lemma_distinct_drop_last(s);
        lemma_present(s.drop_last(), i);
        assert(s.drop_last()[i] == s[i]);
        assert(s[i].key() != s[s.len() - 1].key());
    }
}

/// Overwriting the entry at `i` with one filed under the same identity
/// updates the map at that identity alone.
proof fn lemma_update_at<V>(s: Seq<RegistryEntry<V>>, i: int, e: RegistryEntry<V>)
    requires
        distinct_keys(s),
        0 <= i < s.len(),
        e.key() == s[i].key(),
    ensures
        map_of(s.update(i, e)) == map_of(s).insert(e.key(), e.handle),
    decreases s.len(),
{
    let su = s.update(i, e);
    if i == s.len() - 1 {
        assert(su.drop_last() =~= s.drop_last());
        assert(su.last() == e);
        assert(map_of(su) == map_of(s.drop_last()).insert(e.key(), e.handle));
        assert(map_of(s.drop_last()).insert(e.key(), e.handle) =~= map_of(s).insert(
            e.key(),
            e.handle,
        ));
    } else {
        lemma_distinct_drop_last(s);
        assert(su.drop_last() =~= s.drop_last().update(i, e));
        assert(su.last() == s.last());
        lemma_update_at(s.drop_last(), i, e);
        assert(s.drop_last()[i] == s[i]);
        assert(e.key() != s[s.len() - 1].key());
        assert(map_of(su) == map_of(s.drop_last()).insert(e.key(), e.handle).insert(
            s.last().key(),
            s.last().handle,
        ));
        assert(map_of(s.drop_last()).insert(e.key(), e.handle).insert(
            s.last().key(),
            s.last().handle,
        ) =~= map_of(s).insert(e.key(), e.handle));
    }
}

proof fn lemma_distinct_remove<V>(s: Seq<RegistryEntry<V>>, i: int)
    requires
        distinct_keys(s),
        0 <= i < s.len(),
    ensures
        distinct_keys(s.remove(i)),
{
    assert forall|a: int, b: int| 0 <= a < b < s.remove(i).len() implies #[trigger] s.remove(
        i,
    )[a].key() != #[trigger] s.remove(i)[b].key() by {
        let a0 = if a < i { a } else { a + 1 };
        let b0 = if b < i { b } else { b + 1 };
        assert(s.remove(i)[a] == s[a0]);
        assert(s.remove(i)[b] == s[b0]);
        assert(s[a0].key() != s[b0].key());
    }
}

/// Taking out the entry at `i` removes exactly its identity from the map.
proof fn lemma_remove_at<V>(s: Seq<RegistryEntry<V>>, i: int)
    requires
        distinct_keys(s),
        0 <= i < s.len(),
    ensures
        map_of(s.remove(i)) == map_of(s).remove(s[i].key()),
    decreases s.len(),
{
    let k = s[i].key();
    if i == s.len() - 1 {
        assert(s.remove(i) =~= s.drop_last());
        assert forall|j: int| 0 <= j < s.drop_last().len() implies #[trigger] s.drop_last()[j].key()
            != k by {
            assert(s.drop_last()[j] == s[j]);
        }
        lemma_absent(s.drop_last(), k);
        assert(map_of(s.drop_last()) =~= map_of(s.drop_last()).insert(k, s[i].handle).remove(k));
        assert(s.last() == s[i]);
    } else {
        lemma_distinct_drop_last(s);
        assert(s.remove(i).drop_last() =~= s.drop_last().remove(i));
        assert(s.remove(i).last() == s.last());
        lemma_remove_at(s.drop_last(), i);
        assert(s.drop_last()[i] == s[i]);
        assert(k != s.last().key());
        assert(map_of(s.remove(i)) == map_of(s.drop_last()).remove(k).insert(
            s.last().key(),
            s.last().handle,
        ));
        assert(map_of(s.drop_last()).remove(k).insert(s.last().key(), s.last().handle)
            =~= map_of(s).remove(k));
    }
}

/// With distinct keys, the map holds exactly as many identities as there are
/// entries: nothing is lost and nothing is duplicated.
proof fn lemma_dom_size<V>(s: Seq<RegistryEntry<V>>)
    requires
        distinct_keys(s),
    ensures
        map_of(s).dom().finite(),
        map_of(s).dom().len() == s.len(),
    decreases s.len(),
{
    if s.len() == 0 {
        assert(map_of(s).dom() =~= Set::<(u64, u64)>::empty());
    } else {
        lemma_distinct_drop_last(s);
        lemma_dom_size(s.drop_last());
        assert forall|j: int| 0 <= j < s.drop_last().len() implies #[trigger] s.drop_last()[j].key()
            != s.last().key() by {
            assert(s.drop_last()[j] == s[j]);
            assert(s.last() == s[s.len() - 1]);
        }
        lemma_absent(s.drop_last(), s.last().key());
        assert(map_of(s).dom() =~= map_of(s.drop_last()).dom().insert(s.last().key()));
    }
}

/// Shared mapping from (session, channel) identity to a live transport-level
/// session handle. The structure itself is sequential; concurrent
/// connections share one registry through a single lock around it, and no
/// operation does more under that lock than touch a single entry.
pub struct ClientRegistry<V> {
    entries: Vec<RegistryEntry<V>>,
}

impl<V> View for ClientRegistry<V> {
    type V = Map<(u64, u64), V>;

    closed spec fn view(&self) -> Map<(u64, u64), V> {
        map_of(self.entries@)
    }
}

impl<V> ClientRegistry<V> {
    /// Holds as long as no identity is filed twice; established by `new` and
    /// preserved by every operation.
    pub closed spec fn well_formed(self) -> bool {
        distinct_keys(self.entries@)
    }

    /// An empty registry.
    pub fn new() -> (r: Self)
        ensures
            r.well_formed(),
            r@ == Map::<(u64, u64), V>::empty(),
    {
        ClientRegistry { entries: Vec::new() }
    }

    /// How many identities are filed: one per entry, since no identity is
    /// ever filed twice.
    pub fn len(&self) -> (n: usize)
        requires
            self.well_formed(),
        ensures
            n == self@.dom().len(),
    {
        proof {
            lemma_dom_size(self.entries@);
        }
        self.entries.len()
    }

    /// The index of the entry filed under the identity, if any.
    fn find_index(&self, session_id: u64, channel_id: u64) -> (r: Option<usize>)
        ensures
            match r {
                Some(i) => i < self.entries@.len() && self.entries@[i as int].key() == (
                    session_id,
                    channel_id,
                ),
                None => forall|i: int|
                    0 <= i < self.entries@.len() ==> #[trigger] self.entries@[i].key() != (
                        session_id,
                        channel_id,
                    ),
            },
    {
        let mut i: usize = 0;
        while i < self.entries.len()
            invariant
                i <= self.entries@.len(),
                forall|j: int|
                    0 <= j < i ==> #[trigger] self.entries@[j].key() != (session_id, channel_id),
            decreases self.entries@.len() - i,
        {
            let e = &self.entries[i];
            if e.session_id == session_id && e.channel_id == channel_id {
                return Some(i);
            }
            i = i + 1;
        }
        None
    }

    /// The handle filed under the identity, if any.
    pub fn lookup(&self, session_id: u64, channel_id: u64) -> (r: Option<&V>)
        requires
            self.well_formed(),
        ensures
            match r {
                Some(v) => self@.dom().contains((session_id, channel_id)) && *v == self@[(
                    session_id,
                    channel_id,
                )],
                None => !self@.dom().contains((session_id, channel_id)),
            },
    {
        match self.find_index(session_id, channel_id) {
            Some(i) => {
                proof {
                    lemma_present(self.entries@, i as int);
                }
                Some(&self.entries[i].handle)
            },
            None => {
                proof {
                    lemma_absent(self.entries@, (session_id, channel_id));
                }
                None
            },
        }
    }

    /// Files a handle under the identity; an entry already filed there is
    /// replaced, not treated as an error, to tolerate channel reuse.
    pub fn insert(&mut self, session_id: u64, channel_id: u64, handle: V)
        requires
            old(self).well_formed(),
        ensures
            final(self).well_formed(),
            final(self)@ == old(self)@.insert((session_id, channel_id), handle),
    {
        let entry = RegistryEntry { session_id, channel_id, handle };
        match self.find_index(session_id, channel_id) {
            Some(i) => {
                proof {
                    lemma_update_at(self.entries@, i as int, entry);
                }
                self.entries[i] = entry;
                assert(self.entries@ == old(self).entries@.update(i as int, entry));
                assert forall|a: int, b: int| 0 <= a < b < self.entries@.len() implies #[trigger] self.entries@[a].key()
                    != #[trigger] self.entries@[b].key() by {
                    assert(old(self).entries@[a].key() != old(self).entries@[b].key());
                }
            },
            None => {
                self.entries.push(entry);
                proof {
                    assert(self.entries@.drop_last() =~= old(self).entries@);
                    assert(self.entries@.last() == entry);
                    assert forall|a: int, b: int| 0 <= a < b < self.entries@.len() implies #[trigger] self.entries@[a].key()
                        != #[trigger] self.entries@[b].key() by {
                        if b < self.entries@.len() - 1 {
                            assert(old(self).entries@[a].key() != old(self).entries@[b].key());
                        } else {
                            assert(old(self).entries@[a].key() != (session_id, channel_id));
                        }
                    }
                }
            },
        }
    }

    /// The index of some entry belonging to the session, if any.
    fn find_session_index(&self, session_id: u64) -> (r: Option<usize>)
        ensures
            match r {
                Some(i) => i < self.entries@.len() && self.entries@[i as int].session_id
                    == session_id,
                None => forall|i: int|
                    0 <= i < self.entries@.len() ==> #[trigger] self.entries@[i].session_id
                        != session_id,
            },
    {
        let mut i: usize = 0;
        while i < self.entries.len()
            invariant
                i <= self.entries@.len(),
                forall|j: int| 0 <= j < i ==> #[trigger] self.entries@[j].session_id != session_id,
            decreases self.entries@.len() - i,
        {
            if self.entries[i].session_id == session_id {
                return Some(i);
            }
            i = i + 1;
        }
        None
    }

    /// Unfiles every identity belonging to the session; entries of other
    /// sessions are untouched.
    pub fn remove_session(&mut self, session_id: u64)
        requires
            old(self).well_formed(),
        ensures
            final(self).well_formed(),
            forall|cid: u64| !final(self)@.dom().contains((session_id, cid)),
            forall|k: (u64, u64)|
                k.0 != session_id ==> final(self)@.dom().contains(k) == old(
                    self,
                )@.dom().contains(k),
            forall|k: (u64, u64)|
                k.0 != session_id && old(self)@.dom().contains(k) ==> final(self)@[k] == old(
                    self,
                )@[k],
    {
        let ghost orig: Map<(u64, u64), V> = self@;
        loop
            invariant
                self.well_formed(),
                forall|k: (u64, u64)|
                    k.0 != session_id ==> self@.dom().contains(k) == orig.dom().contains(k),
                forall|k: (u64, u64)|
                    k.0 != session_id && orig.dom().contains(k) ==> self@[k] == orig[k],
            ensures
                self.well_formed(),
                forall|cid: u64| !self@.dom().contains((session_id, cid)),
                forall|k: (u64, u64)|
                    k.0 != session_id ==> self@.dom().contains(k) == orig.dom().contains(k),
                forall|k: (u64, u64)|
                    k.0 != session_id && orig.dom().contains(k) ==> self@[k] == orig[k],
            decreases self.entries@.len(),
        {
            match self.find_session_index(session_id) {
                Some(i) => {
                    proof {
                        lemma_remove_at(self.entries@, i as int);
                        lemma_distinct_remove(self.entries@, i as int);
                    }
                    self.entries.remove(i);
                },
                None => {
                    proof {
                        assert forall|cid: u64| !self@.dom().contains((session_id, cid)) by {
                            assert forall|j: int|
                                0 <= j < self.entries@.len() implies #[trigger] self.entries@[j].key()
                                != (session_id, cid) by {
                                assert(self.entries@[j].session_id != session_id);
                            }
                            lemma_absent(self.entries@, (session_id, cid));
                        }
                    }
                    break;
                },
            }
        }
    }

    /// Unfiles the identity. Removing an identity that is not filed is a
    /// no-op, not an error.
    pub fn remove(&mut self, session_id: u64, channel_id: u64)
        requires
            old(self).well_formed(),
        ensures
            final(self).well_formed(),
            final(self)@ == old(self)@.remove((session_id, channel_id)),
    {
        match self.find_index(session_id, channel_id) {
            Some(i) => {
                proof {
                    lemma_remove_at(self.entries@, i as int);
                    lemma_distinct_remove(self.entries@, i as int);
                }
                self.entries.remove(i);
            },
            None => {
                proof {
                    lemma_absent(self.entries@, (session_id, channel_id));
                    assert(self@.remove((session_id, channel_id)) =~= self@);
                }
            },
        }
    }
}

/// Removing an identity that is not filed is a no-op: the registry contents
/// are unchanged.
pub proof fn lemma_remove_absent_is_noop<V>(m: Map<(u64, u64), V>, key: (u64, u64))
    requires
        !m.dom().contains(key),
    ensures
        m.remove(key) == m,
{
    assert(m.remove(key) =~= m);
}

/// After an identity is removed, looking it up finds nothing.
pub proof fn lemma_lookup_after_remove<V>(m: Map<(u64, u64), V>, key: (u64, u64))
    ensures
        !m.remove(key).dom().contains(key),
{
}

/// Filing a handle replaces what was filed under the same identity and
/// touches no other identity: no entry is lost or duplicated by an insert.
pub proof fn lemma_insert_replaces<V>(m: Map<(u64, u64), V>, key: (u64, u64), v: V)
    ensures
        m.insert(key, v)[key] == v,
        m.insert(key, v).dom() == m.dom().insert(key),
        forall|k2: (u64, u64)|
            k2 != key ==> m.insert(key, v).dom().contains(k2) == m.dom().contains(k2),
        forall|k2: (u64, u64)| k2 != key && m.dom().contains(k2) ==> m.insert(key, v)[k2] == m[k2],
{
    assert(m.insert(key, v).dom() =~= m.dom().insert(key));
}

} // verus!
