use vstd::prelude::*;

verus! {

/// The rendered SHA-256 fingerprint of a wire-format public key. What it is
/// for given bytes only the key library can say; a record's `secret` is
/// stated to equal it, never the raw key material.
pub uninterp spec fn fingerprint_of(blob: Seq<u8>) -> Seq<char>;

/// Whether the bytes decode as a wire-format public key.
pub uninterp spec fn key_blob_parses(blob: Seq<u8>) -> bool;

/// Relies on `russh_keys::key::parse_public_key`, which decodes a key from
/// its wire bytes or fails on malformed input, and on
/// `ssh_key::PublicKey::fingerprint` (re-exported by `russh_keys`), whose
/// SHA-256 rendering depends on the key bytes alone.
#[verifier::external_body]
pub(crate) fn fingerprint_key_blob(blob: &[u8]) -> (r: Option<String>)
    ensures
        r matches Some(f) ==> f@ == fingerprint_of(blob@),
        (r is Some) == key_blob_parses(blob@),
{
    match russh_keys::key::parse_public_key(blob) {
        Ok(key) => Some(key.fingerprint(russh_keys::HashAlg::Sha256).to_string()),
        Err(_) => None,
    }
}

} // verus!
