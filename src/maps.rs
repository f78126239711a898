//! The tables shared by the data path and the control plane, and the
//! connection-tracking step that both data-path directions run.
use vstd::prelude::*;
use std::collections::HashMap;
use crate::tcp_state::{handle_tcp_conn_close, next_state, TcpFlags};
use crate::types::{BackendKey, BackendList, ClientKey, TCPBackend, TCPState, make_key};

verus! {

broadcast use vstd::std_specs::hash::group_hash_axioms;

/// The three shared tables, keyed by `key_id` of an address and port:
/// virtual address to backend list, virtual address to round-robin
/// cursor, and client to tracked flow. These tables are unbounded: an
/// insert never fails and never evicts another entry, so the
/// least-recently-used eviction of a full kernel flow table is not part of
/// this model. A flow leaves its table only on a reset or on closing.
pub struct Maps {
    pub backends: HashMap<u64, BackendList>,
    pub gateway_indexes: HashMap<u64, u16>,
    pub tcp_connections: HashMap<u64, TCPBackend>,
}

/// What a non-reset segment leaves of a tracked flow's table entry: it is
/// removed once the state reads `Closed`, rewritten when the state moved,
/// and kept otherwise. A reset removes it.
pub open spec fn track(
    conns: Map<u64, TCPBackend>,
    id: u64,
    e: TCPBackend,
    f: TcpFlags,
) -> Map<u64, TCPBackend> {
    if f.rst {
        conns.remove(id)
    } else {
        let ns = next_state(f.fin, f.ack, e.state);
        let after = match ns {
            Some(s) => s,
            None => e.state,
        };
        if after == TCPState::Closed {
            conns.remove(id)
        } else if ns.is_some() {
            conns.insert(
                id,
                TCPBackend { backend: e.backend, backend_key: e.backend_key, state: after },
            )
        } else {
            conns
        }
    }
}

impl Maps {
    /// Every backend list is well formed.
    pub open spec fn wf(&self) -> bool {
        forall|k: u64| #[trigger]
            self.backends@.contains_key(k) ==> self.backends@[k].wf()
    }

    /// Tables with no entries.
    pub fn new() -> (r: Maps)
        ensures
            r.wf(),
            r.backends@ == Map::<u64, BackendList>::empty(),
            r.gateway_indexes@ == Map::<u64, u16>::empty(),
            r.tcp_connections@ == Map::<u64, TCPBackend>::empty(),
    {
        Maps {
            backends: HashMap::new(),
            gateway_indexes: HashMap::new(),
            tcp_connections: HashMap::new(),
        }
    }

    /// The flow tracked for a client, if any.
    pub fn connection(&self, key: ClientKey) -> (r: Option<TCPBackend>)
        ensures
            r == (if self.tcp_connections@.contains_key(key.id()) {
                Some(self.tcp_connections@[key.id()])
            } else {
                None
            }),
    {
        match self.tcp_connections.get(&make_key(key.ip, key.port)) {
            Some(e) => Some(*e),
            None => None,
        }
    }

    /// The round-robin cursor of a virtual address, if any.
    pub fn gateway_index(&self, key: BackendKey) -> (r: Option<u16>)
        ensures
            r == (if self.gateway_indexes@.contains_key(key.id()) {
                Some(self.gateway_indexes@[key.id()])
            } else {
                None
            }),
    {
        match self.gateway_indexes.get(&make_key(key.ip, key.port)) {
            Some(c) => Some(*c),
            None => None,
        }
    }

    /// The number of backends of a virtual address, if it has a list.
    pub fn backends_len(&self, key: BackendKey) -> (r: Option<u16>)
        ensures
            r == (if self.backends@.contains_key(key.id()) {
                Some(self.backends@[key.id()].backends_len)
            } else {
                None
            }),
    {
        match self.backends.get(&make_key(key.ip, key.port)) {
            Some(l) => Some(l.backends_len),
            None => None,
        }
    }

    /// Runs flow tracking for one segment of the tracked flow `e` of client
    /// `id`: see `track`.
    pub fn track_connection(&mut self, id: u64, e: TCPBackend, flags: TcpFlags)
        ensures
            final(self).backends@ == old(self).backends@,
            final(self).gateway_indexes@ == old(self).gateway_indexes@,
            final(self).tcp_connections@ == track(old(self).tcp_connections@, id, e, flags),
    {
        if flags.rst {
            self.tcp_connections.remove(&id);
            return;
        }
        let mut state = e.state;
        let moved = handle_tcp_conn_close(&flags, &mut state);
        if state == TCPState::Closed {
            self.tcp_connections.remove(&id);
        } else if moved {
            self.tcp_connections.insert(
                id,
                TCPBackend { backend: e.backend, backend_key: e.backend_key, state },
            );
        }
    }
}

} // verus!
