//! Keys and values of the tables shared by the data path and the control plane.
use vstd::prelude::*;

verus! {

/// Capacity of the fixed backend array of one virtual address.
pub const BACKENDS_ARRAY_CAPACITY: usize = 128;

/// A real endpoint serving a virtual address.
#[derive(Clone, Copy, Debug, PartialEq, Eq, Structural)]
pub struct Backend {
    pub daddr: u32,
    pub dport: u32,
    pub ifindex: u16,
}

/// Identity of a virtual address: IPv4 address and port, in host order.
#[derive(Clone, Copy, Debug, PartialEq, Eq, Structural)]
pub struct BackendKey {
    pub ip: u32,
    pub port: u32,
}

/// Identity of a remote peer, the client half of a flow, in host order.
#[derive(Clone, Copy, Debug, PartialEq, Eq, Structural)]
pub struct ClientKey {
    pub ip: u32,
    pub port: u32,
}

/// Closing half of the TCP life cycle, as observed on one flow.
#[derive(Clone, Copy, Debug, PartialEq, Eq, Structural)]
pub enum TCPState {
    Established,
    FinWait1,
    FinWait2,
    Closing,
    TimeWait,
    Closed,
}

/// A tracked flow: the backend it is pinned to, the virtual address it
/// was opened against, and its observed TCP state.
#[derive(Clone, Copy, Debug, PartialEq, Eq, Structural)]
pub struct TCPBackend {
    pub backend: Backend,
    pub backend_key: BackendKey,
    pub state: TCPState,
}

/// The backends of one virtual address: a fixed-capacity array whose first
/// `backends_len` slots are in use.
#[derive(Debug)]
pub struct BackendList {
    pub backends: Vec<Backend>,
    pub backends_len: u16,
}

/// Table key of an address and port: the address in the high 32 bits.
pub open spec fn key_id(ip: u32, port: u32) -> u64 {
    ((ip as u64) << 32u64) | (port as u64)
}

/// Computes the table key of an address and port.
pub fn make_key(ip: u32, port: u32) -> (r: u64)
    ensures
        r == key_id(ip, port),
{
    ((ip as u64) << 32u64) | (port as u64)
}

impl BackendKey {
    pub open spec fn id(self) -> u64 {
        key_id(self.ip, self.port)
    }
}

impl ClientKey {
    pub open spec fn id(self) -> u64 {
        key_id(self.ip, self.port)
    }
}

impl Backend {
    /// The unused slot value.
    pub fn zero() -> (r: Backend)
        ensures
            r == (Backend { daddr: 0, dport: 0, ifindex: 0 }),
    {
        Backend { daddr: 0, dport: 0, ifindex: 0 }
    }
}

impl BackendList {
    /// The array has its full capacity and the used prefix fits in it.
    pub open spec fn wf(&self) -> bool {
        &&& self.backends@.len() == BACKENDS_ARRAY_CAPACITY
        &&& self.backends_len as int <= BACKENDS_ARRAY_CAPACITY
    }

    /// The backends in use, in order.
    pub open spec fn used(&self) -> Seq<Backend> {
        self.backends@.take(self.backends_len as int)
    }

    /// An empty list: every slot unused.
    pub fn new() -> (r: BackendList)
        ensures
            r.wf(),
            r.backends_len == 0,
            forall|i: int| 0 <= i < r.backends@.len() ==> r.backends@[i] == Backend::zero_spec(),
    {
        let mut backends: Vec<Backend> = Vec::new();
        while backends.len() < BACKENDS_ARRAY_CAPACITY
            invariant
                backends@.len() <= BACKENDS_ARRAY_CAPACITY,
                forall|i: int| 0 <= i < backends@.len() ==> backends@[i] == Backend::zero_spec(),
            decreases BACKENDS_ARRAY_CAPACITY - backends@.len(),
        {
            backends.push(Backend::zero());
        }
        BackendList { backends, backends_len: 0 }
    }

    /// Whether another backend fits.
    pub fn is_full(&self) -> (r: bool)
        requires
            self.wf(),
        ensures
            r == (self.backends_len as int == BACKENDS_ARRAY_CAPACITY),
    {
        self.backends_len as usize == BACKENDS_ARRAY_CAPACITY
    }

    /// Appends a backend after the used prefix.
    pub fn push(&mut self, b: Backend)
        requires
            old(self).wf(),
            (old(self).backends_len as int) < BACKENDS_ARRAY_CAPACITY,
        ensures
            final(self).wf(),
            final(self).backends_len == old(self).backends_len + 1,
            final(self).backends@ == old(self).backends@.update(old(self).backends_len as int, b),
            final(self).used() == old(self).used().push(b),
    {
        let n = self.backends_len;
        self.backends.set(n as usize, b);
        self.backends_len = n + 1;
        assert(self.used() =~= old(self).used().push(b));
    }
}

impl Backend {
    pub open spec fn zero_spec() -> Backend {
        Backend { daddr: 0, dport: 0, ifindex: 0 }
    }
}

} // verus!
