//! Egress pipeline: rewrites the source of return traffic from a backend
//! back to the virtual address the client dialled.
use vstd::prelude::*;
use crate::maps::{Maps, track};
use crate::packet::{
    be16, be32, flags_of, frame_len, ptr_at, read_be16, read_be32, read_flags,
    recompute_ip_checksum, set_be16, set_be32, with_ip_checksum, write_be16, write_be32, Verdict,
    ETH_HDR_LEN, IPV4_HDR_LEN, IP_DST, IP_SRC, TCP_CHECK, TCP_DST, TCP_HDR_LEN, TCP_SRC,
};
use crate::types::{BackendKey, ClientKey, TCPBackend, make_key};

verus! {

broadcast use vstd::std_specs::hash::group_hash_axioms;

/// The client a return frame is sent to.
pub open spec fn client_of_return(s: Seq<u8>) -> ClientKey {
    ClientKey { ip: be32(s, IP_DST as int), port: be16(s, TCP_DST as int) as u32 }
}

/// The frame rewritten to come from a virtual address: source address,
/// IPv4 checksum recomputed, TCP checksum zeroed, source port.
pub open spec fn snat(s: Seq<u8>, vip: BackendKey) -> Seq<u8> {
    let s1 = with_ip_checksum(set_be32(s, IP_SRC as int, vip.ip));
    set_be16(
        set_be16(s1, TCP_CHECK as int, 0),
        TCP_SRC as int,
        #[verifier::truncate] (vip.port as u16),
    )
}

/// What egress makes of frame `s` over the flow table: the verdict, the
/// frame as sent on, and the new flow table.
pub open spec fn egress_outcome(conns: Map<u64, TCPBackend>, s: Seq<u8>) -> (
    Verdict,
    Seq<u8>,
    Map<u64, TCPBackend>,
) {
    if s.len() < frame_len() {
        (Verdict::Pass, s, conns)
    } else {
        let cid = client_of_return(s).id();
        if conns.contains_key(cid) {
            (
                Verdict::Pipe,
                snat(s, conns[cid].backend_key),
                track(conns, cid, conns[cid], flags_of(s)),
            )
        } else {
            (Verdict::Pipe, s, conns)
        }
    }
}

/// Rewrites the frame to come from a virtual address.
fn rewrite_source(packet: &mut Vec<u8>, vip: BackendKey)
    requires
        old(packet)@.len() >= frame_len(),
    ensures
        final(packet)@ == snat(old(packet)@, vip),
{
    write_be32(packet, IP_SRC, vip.ip);
    recompute_ip_checksum(packet);
    write_be16(packet, TCP_CHECK, 0);
    write_be16(packet, TCP_SRC, #[verifier::truncate] (vip.port as u16));
}

/// Handles a TCP frame leaving towards a client.
///
/// A frame too short for its headers passes untouched. A frame to a
/// client with no tracked flow goes on unchanged. A frame of a tracked flow
/// is rewritten to come from the flow's virtual address, and its segment
/// advances the flow's tracking. Only the flow table changes.
pub fn handle_tcp_egress(packet: &mut Vec<u8>, maps: &mut Maps) -> (r: Verdict)
    ensures
        final(maps).backends@ == old(maps).backends@,
        final(maps).gateway_indexes@ == old(maps).gateway_indexes@,
        (r, final(packet)@, final(maps).tcp_connections@) == egress_outcome(
            old(maps).tcp_connections@,
            old(packet)@,
        ),
{
    match ptr_at(packet, ETH_HDR_LEN, IPV4_HDR_LEN) {
        Ok(_) => {},
        Err(_) => return Verdict::Pass,
    }
    match ptr_at(packet, ETH_HDR_LEN + IPV4_HDR_LEN, TCP_HDR_LEN) {
        Ok(_) => {},
        Err(_) => return Verdict::Pass,
    }
    let client = ClientKey { ip: read_be32(packet, IP_DST), port: read_be16(packet, TCP_DST) as u32 };
    let flags = read_flags(packet);
    let cid = make_key(client.ip, client.port);
    let entry = match maps.tcp_connections.get(&cid) {
        Some(e) => *e,
        None => return Verdict::Pipe,
    };
    rewrite_source(packet, entry.backend_key);
    maps.track_connection(cid, entry, flags);
    Verdict::Pipe
}

} // verus!
