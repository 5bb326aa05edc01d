use vstd::prelude::*;

use crate::fingerprint::fingerprint_key_blob;
use crate::fingerprint::fingerprint_of;
use crate::fingerprint::key_blob_parses;
use crate::record::AttemptRecord;
use crate::record::AuthMethod;
use crate::record::Decision;
use crate::record::StorageError;
use crate::registry::ClientRegistry;

verus! {

/// Per-connection state, created once per accepted connection. It implements
/// the capture-then-deny contract: each authentication callback yields the
/// one attempt record to persist, and the decision — always `Deny` — is
/// produced only from the outcome of that persistence call, so the record is
/// handed to storage before the transport learns the decision.
#[derive(Clone, Debug)]
pub struct ConnectionSession {
    /// Identity under which this connection's channels are filed in the
    /// client registry.
    pub session_id: u64,
    /// Remote address of the connecting peer; never empty.
    pub client_address: String,
    /// The externally advertised port, configured once at startup.
    pub listen_port: u16,
}

impl ConnectionSession {
    pub open spec fn well_formed(self) -> bool {
        self.client_address@.len() > 0
    }

    /// What a record captured by this session must hold: this connection's
    /// address and port, the callback's method, and the offered credentials
    /// exactly as given.
    pub open spec fn is_attempt_for(
        self,
        r: AttemptRecord,
        method: AuthMethod,
        username: Seq<char>,
        secret: Seq<char>,
    ) -> bool {
        &&& r.client_address@ == self.client_address@
        &&& r.listen_port == self.listen_port
        &&& r.method == method
        &&& r.username@ == username
        &&& r.secret@ == secret
    }

    /// Captures a password attempt: the one record to persist, with the
    /// cleartext password as the secret. The caller persists it, then asks
    /// `finish_auth` for the decision.
    pub fn on_password_auth(&self, username: String, password: String) -> (r: AttemptRecord)
        requires
            self.well_formed(),
        ensures
            self.is_attempt_for(r, AuthMethod::Password, username@, password@),
            r.well_formed(),
    {
        AttemptRecord {
            client_address: self.client_address.clone(),
            listen_port: self.listen_port,
            method: AuthMethod::Password,
            username,
            secret: password,
        }
    }

    /// Captures a public-key attempt: the secret is the key's rendered
    /// fingerprint, never the raw key material. Yields no record only when
    /// the offered bytes are not a parseable key — the transport normally
    /// hands over only keys it already decoded.
    pub fn on_publickey_auth(&self, username: String, key_blob: &[u8]) -> (r: Option<
        AttemptRecord,
    >)
        requires
            self.well_formed(),
        ensures
            (r is Some) == key_blob_parses(key_blob@),
            r matches Some(rec) ==> self.is_attempt_for(
                rec,
                AuthMethod::PublicKey,
                username@,
                fingerprint_of(key_blob@),
            ) && rec.well_formed(),
    {
        match fingerprint_key_blob(key_blob) {
            Some(fp) => Some(
                AttemptRecord {
                    client_address: self.client_address.clone(),
                    listen_port: self.listen_port,
                    method: AuthMethod::PublicKey,
                    username,
                    secret: fp,
                },
            ),
            None => None,
        }
    }

    /// Captures an attempt with the `none` method: an empty secret, since no
    /// credential material was offered.
    pub fn on_none_auth(&self, username: String) -> (r: AttemptRecord)
        requires
            self.well_formed(),
        ensures
            self.is_attempt_for(r, AuthMethod::NoAuth, username@, Seq::<char>::empty()),
            r.well_formed(),
    {
        AttemptRecord {
            client_address: self.client_address.clone(),
            listen_port: self.listen_port,
            method: AuthMethod::NoAuth,
            username,
            secret: String::new(),
        }
    }

    /// Denies a keyboard-interactive attempt outright: no record is captured
    /// and no challenge round trip is engaged, whatever the submethods or a
    /// prior response held. Multi-round challenge capture is a deliberate
    /// scope boundary, not an oversight to paper over.
    pub fn on_interactive_auth(
        &self,
        _username: &str,
        _submethods: &str,
        _response: Option<&str>,
    ) -> (d: Decision)
        ensures
            d == Decision::Deny,
    {
        Decision::Deny
    }

    /// The decision for an attempt whose record has been handed to storage:
    /// always `Deny`, whether the write succeeded or failed. A storage
    /// failure is the caller's to log; it never reaches the attacker and
    /// never escapes the callback.
    pub fn finish_auth(&self, persist_result: &Result<(), StorageError>) -> (d: Decision)
        ensures
            d == Decision::Deny,
    {
        match persist_result {
            Ok(_) => Decision::Deny,
            Err(_) => Decision::Deny,
        }
    }

    /// Releases every registry entry filed under this session's identity;
    /// entries of other sessions are untouched. Cleanup only — nothing is
    /// persisted.
    pub fn on_session_close<V>(&self, registry: &mut ClientRegistry<V>)
        requires
            old(registry).well_formed(),
        ensures
            final(registry).well_formed(),
            forall|cid: u64| !final(registry)@.dom().contains((self.session_id, cid)),
            forall|k: (u64, u64)|
                k.0 != self.session_id ==> final(registry)@.dom().contains(k) == old(
                    registry,
                )@.dom().contains(k),
            forall|k: (u64, u64)|
                k.0 != self.session_id && old(registry)@.dom().contains(k) ==> final(registry)@[k]
                    == old(registry)@[k],
    {
        registry.remove_session(self.session_id);
    }
}

} // verus!
