//! Control plane: the `Update` and `Delete` requests that maintain the
//! virtual-address-to-backends table read by the data path.
use vstd::prelude::*;
use vstd::string::StringExecFns;
use crate::maps::Maps;
use crate::types::{Backend, BackendKey, BackendList, make_key};

verus! {

broadcast use vstd::std_specs::hash::group_hash_axioms;

/// A virtual address and port, as carried by requests.
#[derive(Clone, Copy, Debug, PartialEq, Eq, Structural)]
pub struct Vip {
    pub ip: u32,
    pub port: u32,
}

/// A backend endpoint, as carried by requests.
#[derive(Clone, Copy, Debug, PartialEq, Eq, Structural)]
pub struct Target {
    pub daddr: u32,
    pub dport: u32,
    pub ifindex: u32,
}

/// An `Update` request: a backend to add to a virtual address.
#[derive(Clone, Copy, Debug, PartialEq, Eq, Structural)]
pub struct Targets {
    pub vip: Option<Vip>,
    pub target: Option<Target>,
}

/// The text returned by a successful request.
#[derive(Debug)]
pub struct Confirmation {
    pub confirmation: String,
}

/// A refused request.
#[derive(Debug)]
pub enum Status {
    /// The request lacks its virtual address or its target.
    InvalidArgument(String),
    /// The virtual address already has as many backends as its list holds.
    ResourceExhausted(String),
}

/// The decimal digit `d`.
pub open spec fn digit_char(d: nat) -> char {
    if d == 0 { '0' } else if d == 1 { '1' } else if d == 2 { '2' } else if d == 3 { '3' }
    else if d == 4 { '4' } else if d == 5 { '5' } else if d == 6 { '6' } else if d == 7 { '7' }
    else if d == 8 { '8' } else { '9' }
}

/// Decimal notation of `n`, without leading zeros.
pub open spec fn decimal_text(n: nat) -> Seq<char>
    decreases n,
{
    if n < 10 {
        seq![digit_char(n)]
    } else {
        decimal_text(n / 10).push(digit_char(n % 10))
    }
}

/// Dotted-quad notation of an IPv4 address, most significant byte first.
pub open spec fn dotted_quad(ip: u32) -> Seq<char> {
    decimal_text(((ip >> 24u32) & 0xffu32) as nat) + seq!['.'] + decimal_text(
        ((ip >> 16u32) & 0xffu32) as nat,
    ) + seq!['.'] + decimal_text(((ip >> 8u32) & 0xffu32) as nat) + seq!['.'] + decimal_text(
        (ip & 0xffu32) as nat,
    )
}

/// A confirmation naming a virtual address and what became of it.
pub open spec fn confirmation_text(vip: Vip, outcome: Seq<char>) -> Seq<char> {
    "success, vip "@ + dotted_quad(vip.ip) + seq![':'] + decimal_text(vip.port as nat) + outcome
}

/// The backends a virtual address has in use, none if it has no list.
pub open spec fn used_backends(backends: Map<u64, BackendList>, id: u64) -> Seq<Backend> {
    if backends.contains_key(id) {
        backends[id].used()
    } else {
        Seq::empty()
    }
}

/// The one-character text of decimal digit `d`.
fn digit_str(d: u32) -> (r: &'static str)
    requires
        d < 10,
    ensures
        r@ == seq![digit_char(d as nat)],
{
    proof {
        reveal_strlit("0");
        reveal_strlit("1");
        reveal_strlit("2");
        reveal_strlit("3");
        reveal_strlit("4");
        reveal_strlit("5");
        reveal_strlit("6");
        reveal_strlit("7");
        reveal_strlit("8");
        reveal_strlit("9");
    }
    let r = if d == 0 { "0" } else if d == 1 { "1" } else if d == 2 { "2" } else if d == 3 { "3" }
    else if d == 4 { "4" } else if d == 5 { "5" } else if d == 6 { "6" } else if d == 7 { "7" }
    else if d == 8 { "8" } else { "9" };
    assert(r@ =~= seq![digit_char(d as nat)]);
    r
}

/// Appends the decimal notation of `n`.
fn push_decimal(s: &mut String, n: u32)
    ensures
        final(s)@ == old(s)@ + decimal_text(n as nat),
    decreases n,
{
    if n >= 10 {
        push_decimal(s, n / 10);
    }
    s.append(digit_str(n % 10));
    assert(s@ =~= old(s)@ + decimal_text(n as nat));
}

/// Builds the confirmation for a virtual address and an outcome.
fn confirm(vip: Vip, outcome: &str) -> (r: Confirmation)
    ensures
        r.confirmation@ == confirmation_text(vip, outcome@),
{
    let mut s = "success, vip ".to_owned();
    push_decimal(&mut s, (vip.ip >> 24u32) & 0xffu32);
    s.append(".");
    push_decimal(&mut s, (vip.ip >> 16u32) & 0xffu32);
    s.append(".");
    push_decimal(&mut s, (vip.ip >> 8u32) & 0xffu32);
    s.append(".");
    push_decimal(&mut s, vip.ip & 0xffu32);
    s.append(":");
    push_decimal(&mut s, vip.port);
    s.append(outcome);
    proof {
        reveal_strlit(".");
        reveal_strlit(":");
        assert(s@ =~= confirmation_text(vip, outcome@));
    }
    Confirmation { confirmation: s }
}

/// The request service. It is the single writer of the backend table; the
/// data path reads the same tables.
pub struct BackendService {
    pub maps: Maps,
}

impl BackendService {
    pub open spec fn wf(&self) -> bool {
        self.maps.wf()
    }

    /// A service over the given tables.
    pub fn new(maps: Maps) -> (r: BackendService)
        requires
            maps.wf(),
        ensures
            r.wf(),
            r.maps.backends@ == maps.backends@,
            r.maps.gateway_indexes@ == maps.gateway_indexes@,
            r.maps.tcp_connections@ == maps.tcp_connections@,
    {
        BackendService { maps }
    }

    /// Adds the request's target to the end of its virtual address's
    /// backend list, creating the list, with its cursor at 0, when the
    /// address has none. Refused, with nothing changed, when the virtual
    /// address or the target is missing, or when the list is full.
    pub fn update(&mut self, request: Targets) -> (r: Result<Confirmation, Status>)
        requires
            old(self).wf(),
        ensures
            final(self).wf(),
            final(self).maps.tcp_connections@ == old(self).maps.tcp_connections@,
            request.vip is None ==> match r {
                Err(Status::InvalidArgument(m)) => m@ == "missing vip ip and port"@,
                _ => false,
            },
            request.vip is Some && request.target is None ==> match r {
                Err(Status::InvalidArgument(m)) => m@ == "missing targets for vip"@,
                _ => false,
            },
            r is Err ==> {
                &&& final(self).maps.backends@ == old(self).maps.backends@
                &&& final(self).maps.gateway_indexes@ == old(self).maps.gateway_indexes@
            },
            request.vip is Some && request.target is Some ==> {
                let vip = request.vip->Some_0;
                let t = request.target->Some_0;
                let id = BackendKey { ip: vip.ip, port: vip.port }.id();
                let b = Backend { daddr: t.daddr, dport: t.dport, ifindex: t.ifindex as u16 };
                let prior = used_backends(old(self).maps.backends@, id);
                if prior.len() == crate::types::BACKENDS_ARRAY_CAPACITY {
                    match r {
                        Err(Status::ResourceExhausted(m)) => m@ == "too many targets for vip"@,
                        _ => false,
                    }
                } else {
                    &&& r is Ok
                    &&& r->Ok_0.confirmation@ == confirmation_text(vip, " was updated"@)
                    &&& final(self).maps.backends@.dom() == old(self).maps.backends@.dom().insert(id)
                    &&& forall|k: u64| k != id ==> #[trigger] final(self).maps.backends@.contains_key(k) ==>
                        final(self).maps.backends@[k] == old(self).maps.backends@[k]
                    &&& used_backends(final(self).maps.backends@, id) == prior.push(b)
                    &&& final(self).maps.gateway_indexes@ == if old(self).maps.backends@.contains_key(id) {
                        old(self).maps.gateway_indexes@
                    } else {
                        old(self).maps.gateway_indexes@.insert(id, 0)
                    }
                }
            },
    {
        let vip = match request.vip {
            Some(vip) => vip,
            None => return Err(Status::InvalidArgument("missing vip ip and port".to_owned())),
        };
        let target = match request.target {
            Some(target) => target,
            None => return Err(Status::InvalidArgument("missing targets for vip".to_owned())),
        };
        let id = make_key(vip.ip, vip.port);
        let bk = Backend { daddr: target.daddr, dport: target.dport, ifindex: target.ifindex as u16 };
        match self.maps.backends.remove(&id) {
            Some(mut list) => {
                if list.is_full() {
                    self.maps.backends.insert(id, list);
                    assert(self.maps.backends@ =~= old(self).maps.backends@);
                    return Err(Status::ResourceExhausted("too many targets for vip".to_owned()));
                }
                list.push(bk);
                self.maps.backends.insert(id, list);
            },
            None => {
                let mut list = BackendList::new();
                list.push(bk);
                self.maps.backends.insert(id, list);
                self.maps.gateway_indexes.insert(id, 0);
            },
        }
        Ok(confirm(vip, " was updated"))
    }

    /// Removes a virtual address's backend list and cursor. Always
    /// succeeds; the confirmation says whether the address had a list.
    pub fn delete(&mut self, request: Vip) -> (r: Result<Confirmation, Status>)
        requires
            old(self).wf(),
        ensures
            final(self).wf(),
            final(self).maps.tcp_connections@ == old(self).maps.tcp_connections@,
            ({
                let id = BackendKey { ip: request.ip, port: request.port }.id();
                &&& final(self).maps.backends@ == old(self).maps.backends@.remove(id)
                &&& final(self).maps.gateway_indexes@ == old(self).maps.gateway_indexes@.remove(id)
                &&& r is Ok
                &&& r->Ok_0.confirmation@ == confirmation_text(
                    request,
                    if old(self).maps.backends@.contains_key(id) {
                        " was deleted"@
                    } else {
                        " did not exist"@
                    },
                )
            }),
    {
        let id = make_key(request.ip, request.port);
        let removed = self.maps.backends.remove(&id);
        self.maps.gateway_indexes.remove(&id);
        match removed {
            Some(_) => Ok(confirm(request, " was deleted")),
            None => Ok(confirm(request, " did not exist")),
        }
    }
}

/// Deleting twice: `delete` always succeeds; the second one leaves the
/// tables as the first left them, and its confirmation says the virtual
/// address did not exist.
pub proof fn lemma_delete_idempotent(
    backends: Map<u64, BackendList>,
    cursors: Map<u64, u16>,
    vip: Vip,
)
    ensures
        ({
            let id = BackendKey { ip: vip.ip, port: vip.port }.id();
            &&& backends.remove(id).remove(id) == backends.remove(id)
            &&& cursors.remove(id).remove(id) == cursors.remove(id)
            &&& !backends.remove(id).contains_key(id)
        }),
{
    let id = BackendKey { ip: vip.ip, port: vip.port }.id();
    assert(backends.remove(id).remove(id) =~= backends.remove(id));
    assert(cursors.remove(id).remove(id) =~= cursors.remove(id));
}

} // verus!
