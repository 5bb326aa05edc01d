use vstd::prelude::*;

verus! {

/// The closed set of authentication methods that may appear in an attempt
/// record. Any protocol-level method outside this set never reaches storage:
/// the session either maps it to a member or denies it without a record.
#[derive(Clone, Copy, PartialEq, Eq, Structural, Debug)]
pub enum AuthMethod {
    Password,
    PublicKey,
    NoAuth,
}

impl AuthMethod {
    /// The name under which the persistence schema stores this method.
    pub open spec fn spec_name(self) -> Seq<char> {
        match self {
            AuthMethod::Password => "password"@,
            AuthMethod::PublicKey => "publickey"@,
            AuthMethod::NoAuth => "none"@,
        }
    }

    /// Spells the method the way the persistence schema does.
    pub fn name(&self) -> (r: String)
        ensures
            r@ == self.spec_name(),
    {
        match self {
            AuthMethod::Password => "password".to_string(),
            AuthMethod::PublicKey => "publickey".to_string(),
            AuthMethod::NoAuth => "none".to_string(),
        }
    }
}

/// The decision handed back to the transport for an authentication attempt.
/// The set is closed; the honeypot only ever produces `Deny`, with no hint of
/// further methods to proceed with.
#[derive(Clone, Copy, PartialEq, Eq, Structural, Debug)]
pub enum Decision {
    Accept,
    Deny,
}

/// Why a persistence call failed. Failures are logged and swallowed by the
/// callers; they never change an authentication decision.
#[derive(Clone, Copy, PartialEq, Eq, Structural, Debug)]
pub enum StorageError {
    /// The storage backend could not be reached at all.
    Unreachable,
    /// The backend was reached but rejected the write.
    WriteRejected,
}

/// The immutable fact of one authentication attempt. The capture timestamp is
/// assigned by the persistence layer at write time, not by the caller, so it
/// is not a field here.
#[derive(Clone, Debug)]
pub struct AttemptRecord {
    /// Remote address of the connecting peer; never empty.
    pub client_address: String,
    /// The externally advertised port, configured once at startup.
    pub listen_port: u16,
    pub method: AuthMethod,
    /// Attacker-supplied identity, stored as offered.
    pub username: String,
    /// Cleartext password, key fingerprint, or empty for `NoAuth`.
    pub secret: String,
}

impl AttemptRecord {
    /// A record is well formed when its client address is non-empty and its
    /// secret agrees with its method: `NoAuth` carries no credential material.
    pub open spec fn well_formed(self) -> bool {
        &&& self.client_address@.len() > 0
        &&& (self.method is NoAuth ==> self.secret@ == Seq::<char>::empty())
    }
}

/// The immutable fact of one accepted connection, recorded once per
/// connection before any authentication attempt is processed.
#[derive(Clone, Debug)]
pub struct ConnectionEvent {
    /// Remote address of the connecting peer; never empty.
    pub client_address: String,
    /// The externally advertised port, configured once at startup.
    pub listen_port: u16,
}

impl ConnectionEvent {
    pub open spec fn well_formed(self) -> bool {
        self.client_address@.len() > 0
    }
}

} // verus!
