//! Bounds-checked access to an Ethernet + IPv4 + TCP frame held as bytes,
//! and the IPv4 header checksum over it.
use vstd::prelude::*;
use crate::checksum::{csum_fold_helper, csum_of, fold16, lemma_fold_with_checksum};
use crate::tcp_state::TcpFlags;

verus! {

/// Verdict that hands the packet on to the stack unchanged.
pub const TC_ACT_OK: i64 = 0;

/// What the classifier does with a packet.
#[derive(Clone, Copy, Debug, PartialEq, Eq, Structural)]
pub enum Verdict {
    /// Hand the packet to the stack (`TC_ACT_OK`).
    Pass,
    /// Let the packet go on through normal processing (`TC_ACT_PIPE`).
    Pipe,
    /// Deliver the packet through the neighbour of this interface; the
    /// kernel's redirect helper gives the final verdict.
    Redirect { ifindex: u32 },
}

/// Length of the Ethernet header.
pub const ETH_HDR_LEN: usize = 14;
/// Length of an IPv4 header without options.
pub const IPV4_HDR_LEN: usize = 20;
/// Length of a TCP header without options.
pub const TCP_HDR_LEN: usize = 20;

/// Offset of the IPv4 header checksum.
pub const IP_CHECK: usize = 24;
/// Offset of the IPv4 source address.
pub const IP_SRC: usize = 26;
/// Offset of the IPv4 destination address.
pub const IP_DST: usize = 30;
/// Offset of the TCP source port.
pub const TCP_SRC: usize = 34;
/// Offset of the TCP destination port.
pub const TCP_DST: usize = 36;
/// Offset of the TCP flags byte.
pub const TCP_FLAGS: usize = 47;
/// Offset of the TCP checksum.
pub const TCP_CHECK: usize = 50;

/// Length a frame needs for both headers to be read.
pub open spec fn frame_len() -> int {
    ETH_HDR_LEN + IPV4_HDR_LEN + TCP_HDR_LEN
}

/// Big-endian 16-bit value at `i`.
pub open spec fn be16(s: Seq<u8>, i: int) -> u16 {
    ((s[i] as u16) << 8u16) | (s[i + 1] as u16)
}

/// Big-endian 32-bit value at `i`.
pub open spec fn be32(s: Seq<u8>, i: int) -> u32 {
    ((s[i] as u32) << 24u32) | ((s[i + 1] as u32) << 16u32) | ((s[i + 2] as u32) << 8u32) | (
    s[i + 3] as u32)
}

/// `s` with the big-endian 16-bit value `v` written at `i`.
pub open spec fn set_be16(s: Seq<u8>, i: int, v: u16) -> Seq<u8> {
    s.update(i, #[verifier::truncate] ((v >> 8u16) as u8)).update(i + 1, #[verifier::truncate] (v as u8))
}

/// `s` with the big-endian 32-bit value `v` written at `i`.
pub open spec fn set_be32(s: Seq<u8>, i: int, v: u32) -> Seq<u8> {
    s.update(i, #[verifier::truncate] ((v >> 24u32) as u8)).update(i + 1, #[verifier::truncate] ((v >> 16u32) as u8)).update(
        i + 2,
        #[verifier::truncate] ((v >> 8u32) as u8),
    ).update(i + 3, #[verifier::truncate] (v as u8))
}

/// Sum of the `n` big-endian 16-bit words from `off` on.
pub open spec fn word_sum(s: Seq<u8>, off: int, n: nat) -> nat
    decreases n,
{
    if n == 0 {
        0
    } else {
        word_sum(s, off, (n - 1) as nat) + be16(s, off + 2 * (n - 1)) as nat
    }
}

/// Ones-complement sum of the IPv4 header of a frame.
pub open spec fn ip_header_sum(s: Seq<u8>) -> nat {
    word_sum(s, ETH_HDR_LEN as int, 10)
}

/// A header is valid when its ones-complement sum is all ones.
pub open spec fn ip_checksum_valid(s: Seq<u8>) -> bool {
    fold16(ip_header_sum(s)) == 65535
}

/// The frame with its IPv4 checksum zeroed and then recomputed.
pub open spec fn with_ip_checksum(s: Seq<u8>) -> Seq<u8> {
    let z = set_be16(s, IP_CHECK as int, 0);
    set_be16(z, IP_CHECK as int, csum_of(ip_header_sum(z)))
}

/// The TCP flags of a frame.
pub open spec fn flags_of(s: Seq<u8>) -> TcpFlags {
    let b = s[TCP_FLAGS as int];
    TcpFlags { fin: b & 1u8 != 0, ack: b & 16u8 != 0, rst: b & 4u8 != 0 }
}

proof fn lemma_be16_set_be16(s: Seq<u8>, i: int, v: u16, j: int)
    requires
        0 <= i,
        i + 2 <= s.len(),
        0 <= j,
        j + 2 <= s.len(),
        j == i || j + 2 <= i || i + 2 <= j,
    ensures
        be16(set_be16(s, i, v), j) == if j == i {
            v
        } else {
            be16(s, j)
        },
{
    if j == i {
        assert((((#[verifier::truncate] ((v >> 8u16) as u8)) as u16) << 8u16) | ((
        #[verifier::truncate] (v as u8)) as u16) == v) by (bit_vector);
    }
}

/// Writing the word at `off + 2 * j` changes the word sum by the difference.
proof fn lemma_word_sum_set(s: Seq<u8>, off: int, n: nat, j: int, v: u16)
    requires
        0 <= off,
        off + 2 * n <= s.len(),
        0 <= j < n,
    ensures
        word_sum(set_be16(s, off + 2 * j, v), off, n) + be16(s, off + 2 * j) == word_sum(
            s,
            off,
            n,
        ) + v,
    decreases n,
{
    let t = set_be16(s, off + 2 * j, v);
    let k = n - 1;
    lemma_be16_set_be16(s, off + 2 * j, v, off + 2 * k);
    if j < k {
        lemma_word_sum_set(s, off, (n - 1) as nat, j, v);
    } else {
        lemma_word_sum_unchanged(s, off, (n - 1) as nat, off + 2 * j, v);
    }
}

proof fn lemma_word_sum_unchanged(s: Seq<u8>, off: int, n: nat, i: int, v: u16)
    requires
        0 <= off,
        off + 2 * n <= i,
        i + 2 <= s.len(),
    ensures
        word_sum(set_be16(s, i, v), off, n) == word_sum(s, off, n),
    decreases n,
{
    if n > 0 {
        lemma_be16_set_be16(s, i, v, off + 2 * (n - 1));
        lemma_word_sum_unchanged(s, off, (n - 1) as nat, i, v);
    }
}

/// Zeroing the IPv4 checksum field, summing the header and storing the
/// folded complement always leaves a header whose ones-complement sum is
/// all ones: a header with a valid checksum gets a valid one back, and so
/// does any other.
pub proof fn lemma_recomputed_checksum_verifies(s: Seq<u8>)
    requires
        s.len() >= ETH_HDR_LEN + IPV4_HDR_LEN,
    ensures
        ip_checksum_valid(with_ip_checksum(s)),
{
    let off = ETH_HDR_LEN as int;
    let z = set_be16(s, IP_CHECK as int, 0);
    let x = ip_header_sum(z);
    let c = csum_of(x);
    let t = set_be16(z, IP_CHECK as int, c);
    lemma_be16_set_be16(s, IP_CHECK as int, 0, IP_CHECK as int);
    lemma_word_sum_set(z, off, 10, 5, c);
    assert(fold16(x) <= 65535);
    assert(c as nat == 65535 - fold16(x));
    lemma_fold_with_checksum(x);
    assert(ip_header_sum(t) == x + c);
}

/// Gives the offset of a `len`-byte header at `offset`, if the packet holds
/// it whole; otherwise fails with the pass verdict.
pub fn ptr_at(packet: &Vec<u8>, offset: usize, len: usize) -> (r: Result<usize, i64>)
    ensures
        offset + len <= packet@.len() ==> r == Ok::<usize, i64>(offset),
        offset + len > packet@.len() ==> r == Err::<usize, i64>(TC_ACT_OK),
{
    if offset <= packet.len() && len <= packet.len() - offset {
        Ok(offset)
    } else {
        Err(TC_ACT_OK)
    }
}

/// Reads a big-endian 16-bit value.
pub fn read_be16(packet: &Vec<u8>, i: usize) -> (r: u16)
    requires
        i + 2 <= packet@.len(),
    ensures
        r == be16(packet@, i as int),
{
    // the length, a usize, bounds the indices below
    let _len = packet.len();
    ((packet[i] as u16) << 8u16) | (packet[i + 1] as u16)
}

/// Reads a big-endian 32-bit value.
pub fn read_be32(packet: &Vec<u8>, i: usize) -> (r: u32)
    requires
        i + 4 <= packet@.len(),
    ensures
        r == be32(packet@, i as int),
{
    // the length, a usize, bounds the indices below
    let _len = packet.len();
    ((packet[i] as u32) << 24u32) | ((packet[i + 1] as u32) << 16u32) | ((packet[i + 2] as u32)
        << 8u32) | (packet[i + 3] as u32)
}

/// Writes a big-endian 16-bit value.
pub fn write_be16(packet: &mut Vec<u8>, i: usize, v: u16)
    requires
        i + 2 <= old(packet)@.len(),
    ensures
        final(packet)@ == set_be16(old(packet)@, i as int, v),
{
    // the length, a usize, bounds the indices below
    let _len = packet.len();
    packet.set(i, #[verifier::truncate] ((v >> 8u16) as u8));
    packet.set(i + 1, #[verifier::truncate] (v as u8));
}

/// Writes a big-endian 32-bit value.
pub fn write_be32(packet: &mut Vec<u8>, i: usize, v: u32)
    requires
        i + 4 <= old(packet)@.len(),
    ensures
        final(packet)@ == set_be32(old(packet)@, i as int, v),
{
    // the length, a usize, bounds the indices below
    let _len = packet.len();
    packet.set(i, #[verifier::truncate] ((v >> 24u32) as u8));
    packet.set(i + 1, #[verifier::truncate] ((v >> 16u32) as u8));
    packet.set(i + 2, #[verifier::truncate] ((v >> 8u32) as u8));
    packet.set(i + 3, #[verifier::truncate] (v as u8));
}

/// Reads the TCP flags of a frame.
pub fn read_flags(packet: &Vec<u8>) -> (r: TcpFlags)
    requires
        packet@.len() >= frame_len(),
    ensures
        r == flags_of(packet@),
{
    let b = packet[TCP_FLAGS];
    TcpFlags { fin: b & 1u8 != 0, ack: b & 16u8 != 0, rst: b & 4u8 != 0 }
}

/// Sums the ten 16-bit words of the IPv4 header.
pub fn ip_header_word_sum(packet: &Vec<u8>) -> (r: u64)
    requires
        packet@.len() >= ETH_HDR_LEN + IPV4_HDR_LEN,
    ensures
        r as nat == ip_header_sum(packet@),
{
    let mut sum: u64 = 0;
    let mut k: usize = 0;
    while k < 10
        invariant
            k <= 10,
            packet@.len() >= ETH_HDR_LEN + IPV4_HDR_LEN,
            sum as nat == word_sum(packet@, ETH_HDR_LEN as int, k as nat),
            sum <= k * 65535,
        decreases 10 - k,
    {
        let w = read_be16(packet, ETH_HDR_LEN + 2 * k);
        sum = sum + w as u64;
        k = k + 1;
    }
    sum
}

/// Zeroes the IPv4 header checksum, sums the header and stores the folded
/// complement in the checksum field.
pub fn recompute_ip_checksum(packet: &mut Vec<u8>)
    requires
        old(packet)@.len() >= ETH_HDR_LEN + IPV4_HDR_LEN,
    ensures
        final(packet)@ == with_ip_checksum(old(packet)@),
{
    write_be16(packet, IP_CHECK, 0);
    let full = ip_header_word_sum(packet);
    let c = csum_fold_helper(full);
    write_be16(packet, IP_CHECK, c);
}

} // verus!
