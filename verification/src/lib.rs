//! Core of a credential-capturing deception service: every connection is
//! registered, every authentication attempt is captured for durable storage,
//! and every attempt is denied. The transport protocol and the storage engine
//! are external collaborators; this crate holds the decision logic they drive.

pub mod coordinator;
pub mod fingerprint;
pub mod record;
pub mod registry;
pub mod session;

pub use record::AttemptRecord;
pub use record::AuthMethod;
pub use record::ConnectionEvent;
pub use record::Decision;
pub use coordinator::AddressError;
pub use coordinator::ServerCoordinator;
pub use fingerprint::fingerprint_of;
pub use fingerprint::key_blob_parses;
pub use record::StorageError;
pub use registry::ClientRegistry;
pub use session::ConnectionSession;
