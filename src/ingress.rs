//! Ingress pipeline: pins each flow to a VIP's backend and rewrites the
//! destination towards it.
use vstd::prelude::*;
use crate::maps::{Maps, track};
use crate::packet::{
    be16, be32, flags_of, frame_len, ptr_at, read_be16, read_be32, read_flags,
    recompute_ip_checksum, set_be16, set_be32, with_ip_checksum, write_be16, write_be32, Verdict,
    ETH_HDR_LEN, IPV4_HDR_LEN, IP_DST, IP_SRC, TCP_CHECK, TCP_DST, TCP_HDR_LEN, TCP_SRC,
};
use crate::types::{
    Backend, BackendKey, BackendList, ClientKey, TCPBackend, TCPState, BACKENDS_ARRAY_CAPACITY,
    make_key,
};

verus! {

broadcast use vstd::std_specs::hash::group_hash_axioms;

/// The client that sent a frame.
pub open spec fn source_of(s: Seq<u8>) -> ClientKey {
    ClientKey { ip: be32(s, IP_SRC as int), port: be16(s, TCP_SRC as int) as u32 }
}

/// The address and port a frame is sent to.
pub open spec fn destination_of(s: Seq<u8>) -> BackendKey {
    BackendKey { ip: be32(s, IP_DST as int), port: be16(s, TCP_DST as int) as u32 }
}

/// The frame rewritten towards a backend: destination address, IPv4
/// checksum recomputed, TCP checksum zeroed, destination port.
pub open spec fn dnat(s: Seq<u8>, b: Backend) -> Seq<u8> {
    let s1 = with_ip_checksum(set_be32(s, IP_DST as int, b.daddr));
    set_be16(
        set_be16(s1, TCP_CHECK as int, 0),
        TCP_DST as int,
        #[verifier::truncate] (b.dport as u16),
    )
}

/// The cursor after `c` in a list of `len` backends, wrapping to 0.
pub open spec fn next_cursor(c: u16, len: u16) -> u16 {
    if c + 1 >= len {
        0
    } else {
        (c + 1) as u16
    }
}

/// The backend a new flow to `vip` gets: the one under the VIP's cursor,
/// when the VIP has a list and a cursor and the cursor is in the used part.
pub open spec fn select_backend(
    backends: Map<u64, BackendList>,
    cursors: Map<u64, u16>,
    vip: BackendKey,
) -> Option<Backend> {
    let id = vip.id();
    if backends.contains_key(id) && cursors.contains_key(id) && cursors[id]
        < backends[id].backends_len && (cursors[id] as int) < BACKENDS_ARRAY_CAPACITY {
        Some(backends[id].backends@[cursors[id] as int])
    } else {
        None
    }
}

/// What ingress makes of frame `s` over the given tables: the verdict, the
/// frame as sent on, and the new cursor and flow tables. The backend table
/// is only read.
pub open spec fn ingress_outcome(
    backends: Map<u64, BackendList>,
    cursors: Map<u64, u16>,
    conns: Map<u64, TCPBackend>,
    s: Seq<u8>,
) -> (Verdict, Seq<u8>, Map<u64, u16>, Map<u64, TCPBackend>) {
    if s.len() < frame_len() {
        (Verdict::Pass, s, cursors, conns)
    } else {
        let cid = source_of(s).id();
        let vip = destination_of(s);
        if conns.contains_key(cid) {
            let e = conns[cid];
            (
                Verdict::Redirect { ifindex: e.backend.ifindex as u32 },
                dnat(s, e.backend),
                cursors,
                track(conns, cid, e, flags_of(s)),
            )
        } else {
            match select_backend(backends, cursors, vip) {
                None => (Verdict::Pass, s, cursors, conns),
                Some(b) => (
                    Verdict::Redirect { ifindex: b.ifindex as u32 },
                    dnat(s, b),
                    cursors.insert(
                        vip.id(),
                        next_cursor(cursors[vip.id()], backends[vip.id()].backends_len),
                    ),
                    conns.insert(
                        cid,
                        TCPBackend { backend: b, backend_key: vip, state: TCPState::Established },
                    ),
                ),
            }
        }
    }
}

/// Rewrites the frame towards a backend.
fn rewrite_destination(packet: &mut Vec<u8>, b: Backend)
    requires
        old(packet)@.len() >= frame_len(),
    ensures
        final(packet)@ == dnat(old(packet)@, b),
{
    write_be32(packet, IP_DST, b.daddr);
    recompute_ip_checksum(packet);
    write_be16(packet, TCP_CHECK, 0);
    write_be16(packet, TCP_DST, #[verifier::truncate] (b.dport as u16));
}

/// Handles a TCP frame arriving for a virtual address.
///
/// A frame too short for its headers passes untouched. A frame of a
/// tracked client goes to the backend its flow is pinned to, and its
/// segment advances the flow's tracking. A frame of a new client takes the
/// backend under the VIP's cursor, moves the cursor on, and starts tracking
/// the flow as `Established`; a VIP with no list, no cursor or no backend
/// under the cursor lets the frame pass with nothing changed. The returned
/// redirect names the backend's interface.
pub fn handle_tcp_ingress(packet: &mut Vec<u8>, maps: &mut Maps) -> (r: Verdict)
    requires
        old(maps).wf(),
    ensures
        final(maps).wf(),
        final(maps).backends@ == old(maps).backends@,
        (r, final(packet)@, final(maps).gateway_indexes@, final(maps).tcp_connections@)
            == ingress_outcome(
            old(maps).backends@,
            old(maps).gateway_indexes@,
            old(maps).tcp_connections@,
            old(packet)@,
        ),
{
    match ptr_at(packet, ETH_HDR_LEN, IPV4_HDR_LEN) {
        Ok(_) => {},
        Err(_) => return Verdict::Pass,
    }
    match ptr_at(packet, ETH_HDR_LEN + IPV4_HDR_LEN, TCP_HDR_LEN) {
        Ok(_) => {},
        Err(_) => return Verdict::Pass,
    }
    let client = ClientKey { ip: read_be32(packet, IP_SRC), port: read_be16(packet, TCP_SRC) as u32 };
    let vip = BackendKey { ip: read_be32(packet, IP_DST), port: read_be16(packet, TCP_DST) as u32 };
    let flags = read_flags(packet);
    let cid = make_key(client.ip, client.port);
    let pinned = match maps.tcp_connections.get(&cid) {
        Some(e) => Some(*e),
        None => None,
    };
    match pinned {
        Some(e) => {
            rewrite_destination(packet, e.backend);
            maps.track_connection(cid, e, flags);
            Verdict::Redirect { ifindex: e.backend.ifindex as u32 }
        },
        None => {
            let vid = make_key(vip.ip, vip.port);
            let (len, backend) = match maps.backends.get(&vid) {
                None => return Verdict::Pass,
                Some(list) => {
                    let cursor = match maps.gateway_indexes.get(&vid) {
                        None => return Verdict::Pass,
                        Some(c) => *c,
                    };
                    if list.backends_len <= cursor {
                        return Verdict::Pass;
                    }
                    if cursor as usize >= BACKENDS_ARRAY_CAPACITY {
                        return Verdict::Pass;
                    }
                    (list.backends_len, (cursor, list.backends[cursor as usize]))
                },
            };
            let (cursor, b) = backend;
            let mut next = cursor + 1;
            if next >= len {
                next = 0;
            }
            maps.gateway_indexes.insert(vid, next);
            rewrite_destination(packet, b);
            maps.tcp_connections.insert(
                cid,
                TCPBackend { backend: b, backend_key: vip, state: TCPState::Established },
            );
            Verdict::Redirect { ifindex: b.ifindex as u32 }
        },
    }
}

/// Runs ingress over `frames` in order: the frames as sent on, then the
/// cursor and flow tables after the last one.
pub open spec fn ingress_run(
    backends: Map<u64, BackendList>,
    cursors: Map<u64, u16>,
    conns: Map<u64, TCPBackend>,
    frames: Seq<Seq<u8>>,
) -> (Seq<Seq<u8>>, Map<u64, u16>, Map<u64, TCPBackend>)
    decreases frames.len(),
{
    if frames.len() == 0 {
        (Seq::empty(), cursors, conns)
    } else {
        let prev = ingress_run(backends, cursors, conns, frames.drop_last());
        let o = ingress_outcome(backends, prev.1, prev.2, frames.last());
        (prev.0.push(o.1), o.2, o.3)
    }
}

/// `frames` are `n` new flows to `vip`: whole frames from distinct clients,
/// none of which has a flow in `conns`.
pub open spec fn new_flows_to(
    conns: Map<u64, TCPBackend>,
    vip: BackendKey,
    frames: Seq<Seq<u8>>,
) -> bool {
    &&& forall|i: int| 0 <= i < frames.len() ==> #[trigger] frames[i].len() >= frame_len()
    &&& forall|i: int| 0 <= i < frames.len() ==> destination_of(#[trigger] frames[i]) == vip
    &&& forall|i: int|
        0 <= i < frames.len() ==> !conns.contains_key(#[trigger] source_of(frames[i]).id())
    &&& forall|i: int, j: int|
        0 <= i < j < frames.len() ==> source_of(#[trigger] frames[i]).id() != source_of(
            #[trigger] frames[j],
        ).id()
}

proof fn lemma_round_robin_prefix(
    backends: Map<u64, BackendList>,
    cursors: Map<u64, u16>,
    conns: Map<u64, TCPBackend>,
    vip: BackendKey,
    frames: Seq<Seq<u8>>,
    n: nat,
)
    requires
        backends.contains_key(vip.id()),
        backends[vip.id()].wf(),
        backends[vip.id()].backends_len as int == frames.len(),
        frames.len() > 0,
        cursors.contains_key(vip.id()),
        cursors[vip.id()] == 0,
        new_flows_to(conns, vip, frames),
        n <= frames.len(),
    ensures
        ({
            let run = ingress_run(backends, cursors, conns, frames.take(n as int));
            let id = vip.id();
            &&& run.0.len() == n
            &&& forall|i: int|
                0 <= i < n ==> run.0[i] == dnat(frames[i], backends[id].backends@[i])
            &&& run.1.contains_key(id)
            &&& run.1[id] == if n == frames.len() {
                0
            } else {
                n
            }
            &&& forall|j: int|
                n <= j < frames.len() ==> !run.2.contains_key(#[trigger] source_of(frames[j]).id())
        }),
    decreases n,
{
    let id = vip.id();
    if n == 0 {
        assert(frames.take(0) =~= Seq::<Seq<u8>>::empty());
    } else {
        let m = (n - 1) as nat;
        lemma_round_robin_prefix(backends, cursors, conns, vip, frames, m);
        let pre = frames.take(n as int);
        assert(pre.drop_last() =~= frames.take(m as int));
        assert(pre.last() == frames[m as int]);
        let prev = ingress_run(backends, cursors, conns, frames.take(m as int));
        let f = frames[m as int];
        assert(f.len() >= frame_len());
        assert(destination_of(f) == vip);
        assert(!prev.2.contains_key(source_of(f).id()));
        assert(select_backend(backends, prev.1, vip) == Some(backends[id].backends@[m as int]));
        let run = ingress_run(backends, cursors, conns, pre);
        assert forall|j: int| n <= j < frames.len() implies !run.2.contains_key(
            #[trigger] source_of(frames[j]).id(),
        ) by {
            assert(source_of(frames[m as int]).id() != source_of(frames[j]).id());
        }
    }
}

/// Round robin: over a list of `k > 0` backends whose cursor is at 0, `k`
/// new flows to the virtual address get the backends `0, 1, ..., k - 1` in
/// order, and the cursor is back at 0 afterwards.
pub proof fn lemma_round_robin(
    backends: Map<u64, BackendList>,
    cursors: Map<u64, u16>,
    conns: Map<u64, TCPBackend>,
    vip: BackendKey,
    frames: Seq<Seq<u8>>,
)
    requires
        backends.contains_key(vip.id()),
        backends[vip.id()].wf(),
        backends[vip.id()].backends_len as int == frames.len(),
        frames.len() > 0,
        cursors.contains_key(vip.id()),
        cursors[vip.id()] == 0,
        new_flows_to(conns, vip, frames),
    ensures
        ({
            let run = ingress_run(backends, cursors, conns, frames);
            &&& run.0.len() == frames.len()
            &&& forall|i: int|
                0 <= i < frames.len() ==> run.0[i] == dnat(
                    frames[i],
                    #[trigger] backends[vip.id()].used()[i],
                )
            &&& run.1[vip.id()] == 0
        }),
{
    lemma_round_robin_prefix(backends, cursors, conns, vip, frames, frames.len());
    assert(frames.take(frames.len() as int) =~= frames);
}

/// A flow pinned to a backend stays with it: whatever the backend table
/// holds, a frame of the flow goes to the pinned backend, and the flow's
/// entry, while it lasts, keeps its backend and virtual address.
pub proof fn lemma_pinned_flow_keeps_backend(
    backends: Map<u64, BackendList>,
    other: Map<u64, BackendList>,
    cursors: Map<u64, u16>,
    conns: Map<u64, TCPBackend>,
    s: Seq<u8>,
)
    requires
        s.len() >= frame_len(),
        conns.contains_key(source_of(s).id()),
    ensures
        ({
            let e = conns[source_of(s).id()];
            let o = ingress_outcome(backends, cursors, conns, s);
            &&& o == ingress_outcome(other, cursors, conns, s)
            &&& o.0 == Verdict::Redirect { ifindex: e.backend.ifindex as u32 }
            &&& o.1 == dnat(s, e.backend)
            &&& o.3.contains_key(source_of(s).id()) ==> o.3[source_of(s).id()].backend == e.backend
                && o.3[source_of(s).id()].backend_key == e.backend_key
        }),
{
}

} // verus!
