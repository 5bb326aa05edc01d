use vstd::prelude::*;

use crate::record::ConnectionEvent;
use crate::session::ConnectionSession;

verus! {

/// Why a connection attempt was refused a session.
#[derive(Clone, Copy, PartialEq, Eq, Structural, Debug)]
pub enum AddressError {
    /// The transport supplied no remote address at all.
    Missing,
    /// The transport supplied an empty remote address.
    Empty,
}

/// The process-wide coordinator: it holds the configured externally
/// advertised port and manufactures one session per accepted connection,
/// together with the connection event that must be handed to storage before
/// the session is given back to the transport.
pub struct ServerCoordinator {
    /// The externally advertised port, configured once at startup; it is
    /// recorded in every event and attempt, decoupled from the bind port.
    pub external_port: u16,
    /// Identity the next session will be filed under in the registry.
    pub next_session_id: u64,
}

impl ServerCoordinator {
    pub fn new(external_port: u16) -> (r: Self)
        ensures
            r.external_port == external_port,
            r.next_session_id == 0,
    {
        ServerCoordinator { external_port, next_session_id: 0 }
    }

    /// Registers an accepted connection. With a non-empty remote address it
    /// yields the new session and its connection event; the caller persists
    /// the event — logging and swallowing a storage failure — before the
    /// session is handed to the transport, so no session is ever observable
    /// without its event having been attempted. A missing or empty address
    /// is a precondition violation fatal to this connection attempt alone:
    /// no session is created and the coordinator is unchanged.
    pub fn on_new_connection(&mut self, remote_address: Option<String>) -> (r: Result<
        (ConnectionSession, ConnectionEvent),
        AddressError,
    >)
        requires
            old(self).next_session_id < u64::MAX,
        ensures
            final(self).external_port == old(self).external_port,
            match r {
                Ok(p) => {
                    &&& remote_address matches Some(addr) && addr@.len() > 0 && p.0.client_address@
                        == addr@ && p.1.client_address@ == addr@
                    &&& p.0.listen_port == old(self).external_port
                    &&& p.1.listen_port == old(self).external_port
                    &&& p.0.session_id == old(self).next_session_id
                    &&& p.0.well_formed()
                    &&& p.1.well_formed()
                    &&& final(self).next_session_id == old(self).next_session_id + 1
                },
                Err(AddressError::Missing) => remote_address is None && *final(self) == *old(self),
                Err(AddressError::Empty) => remote_address matches Some(addr) && addr@.len() == 0
                    && *final(self) == *old(self),
            },
    {
        match remote_address {
            None => Err(AddressError::Missing),
            Some(addr) => {
                if addr.as_str().is_empty() {
                    Err(AddressError::Empty)
                } else {
                    let session_id = self.next_session_id;
                    self.next_session_id = self.next_session_id + 1;
                    let event = ConnectionEvent {
                        client_address: addr.clone(),
                        listen_port: self.external_port,
                    };
                    let session = ConnectionSession {
                        session_id,
                        client_address: addr,
                        listen_port: self.external_port,
                    };
                    Ok((session, event))
                }
            },
        }
    }
}

} // verus!
