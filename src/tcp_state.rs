//! The closing half of the TCP state machine, advanced once per observed
//! segment.
use vstd::prelude::*;
use crate::types::TCPState;

verus! {

/// The control flags of a TCP segment that flow tracking reads.
#[derive(Clone, Copy, Debug, PartialEq, Eq, Structural)]
pub struct TcpFlags {
    pub fin: bool,
    pub ack: bool,
    pub rst: bool,
}

/// The state a segment with these flags moves `s` to, if it moves it.
/// FIN together with ACK is looked at before FIN alone, FIN alone before
/// ACK alone.
pub open spec fn next_state(fin: bool, ack: bool, s: TCPState) -> Option<TCPState> {
    match s {
        TCPState::Established => if fin { Some(TCPState::FinWait1) } else { None },
        TCPState::FinWait1 => if fin && ack {
            Some(TCPState::TimeWait)
        } else if fin {
            Some(TCPState::Closing)
        } else if ack {
            Some(TCPState::FinWait2)
        } else {
            None
        },
        TCPState::FinWait2 => if ack { Some(TCPState::TimeWait) } else { None },
        TCPState::Closing => if ack { Some(TCPState::TimeWait) } else { None },
        TCPState::TimeWait => if ack { Some(TCPState::Closed) } else { None },
        TCPState::Closed => None,
    }
}

/// The state after a segment: the next state if it moves, else unchanged.
pub open spec fn step(f: TcpFlags, s: TCPState) -> TCPState {
    match next_state(f.fin, f.ack, s) {
        Some(t) => t,
        None => s,
    }
}

/// The state after the first `n` segments of `segs`, starting from `s`.
pub open spec fn state_at(segs: Seq<TcpFlags>, s: TCPState, n: nat) -> TCPState
    decreases n,
{
    if n == 0 {
        s
    } else {
        step(segs[n - 1], state_at(segs, s, (n - 1) as nat))
    }
}

/// The `i`-th segment (from 1) moves the flow into `Closed`.
pub open spec fn enters_closed(segs: Seq<TcpFlags>, s: TCPState, i: nat) -> bool {
    &&& 1 <= i <= segs.len()
    &&& state_at(segs, s, i) == TCPState::Closed
    &&& state_at(segs, s, (i - 1) as nat) != TCPState::Closed
}

/// A four-way close as seen on one flow: a FIN, an ACK, a FIN with its ACK,
/// and the last ACK.
pub open spec fn four_way_close(segs: Seq<TcpFlags>) -> bool {
    &&& segs.len() == 4
    &&& segs[0].fin
    &&& segs[1].ack
    &&& segs[2].fin && segs[2].ack
    &&& segs[3].ack
}

/// `Closed` is never left.
pub proof fn lemma_closed_stays_closed(segs: Seq<TcpFlags>, s: TCPState, n: nat, m: nat)
    requires
        n <= m,
        state_at(segs, s, n) == TCPState::Closed,
    ensures
        state_at(segs, s, m) == TCPState::Closed,
    decreases m - n,
{
    if n < m {
        lemma_closed_stays_closed(segs, s, n, (m - 1) as nat);
    }
}

/// Whatever the segments, a flow enters `Closed` at most once.
pub proof fn lemma_closed_entered_at_most_once(segs: Seq<TcpFlags>, s: TCPState, i: nat, j: nat)
    requires
        enters_closed(segs, s, i),
        enters_closed(segs, s, j),
    ensures
        i == j,
{
    if i < j {
        lemma_closed_stays_closed(segs, s, i, (j - 1) as nat);
    } else if j < i {
        lemma_closed_stays_closed(segs, s, j, (i - 1) as nat);
    }
}

/// A four-way close from `Established` reaches `Closed`, and enters it
/// exactly once.
pub proof fn lemma_four_way_close_closes_once(segs: Seq<TcpFlags>)
    requires
        four_way_close(segs),
    ensures
        state_at(segs, TCPState::Established, 4) == TCPState::Closed,
        exists|i: nat| enters_closed(segs, TCPState::Established, i),
        forall|i: nat, j: nat|
            enters_closed(segs, TCPState::Established, i) && enters_closed(
                segs,
                TCPState::Established,
                j,
            ) ==> i == j,
{
    let e = TCPState::Established;
    assert(state_at(segs, e, 0) == e);
    assert(state_at(segs, e, 1) == TCPState::FinWait1);
    if segs[1].fin {
        assert(state_at(segs, e, 2) == TCPState::TimeWait);
        assert(state_at(segs, e, 3) == TCPState::Closed);
        assert(enters_closed(segs, e, 3));
        lemma_closed_stays_closed(segs, e, 3, 4);
    } else {
        assert(state_at(segs, e, 2) == TCPState::FinWait2);
        assert(state_at(segs, e, 3) == TCPState::TimeWait);
        assert(state_at(segs, e, 4) == TCPState::Closed);
        assert(enters_closed(segs, e, 4));
    }
    assert forall|i: nat, j: nat|
        enters_closed(segs, e, i) && enters_closed(segs, e, j) implies i == j by {
        lemma_closed_entered_at_most_once(segs, e, i, j);
    }
}

/// Advances `state` by the segment's flags. Returns whether it moved; it
/// moves through at most one transition, and a state that moves changes.
pub fn handle_tcp_conn_close(hdr: &TcpFlags, state: &mut TCPState) -> (moved: bool)
    ensures
        moved == next_state(hdr.fin, hdr.ack, *old(state)).is_some(),
        moved ==> Some(*final(state)) == next_state(hdr.fin, hdr.ack, *old(state)),
        moved ==> *final(state) != *old(state),
        !moved ==> *final(state) == *old(state),
{
    let fin = hdr.fin;
    let ack = hdr.ack;
    match *state {
        TCPState::Established => {
            if fin {
                *state = TCPState::FinWait1;
                return true;
            }
        },
        TCPState::FinWait1 => {
            if fin && ack {
                *state = TCPState::TimeWait;
                return true;
            }
            if fin {
                *state = TCPState::Closing;
                return true;
            }
            if ack {
                *state = TCPState::FinWait2;
                return true;
            }
        },
        TCPState::FinWait2 => {
            if ack {
                *state = TCPState::TimeWait;
                return true;
            }
        },
        TCPState::Closing => {
            if ack {
                *state = TCPState::TimeWait;
                return true;
            }
        },
        TCPState::TimeWait => {
            if ack {
                *state = TCPState::Closed;
                return true;
            }
        },
        TCPState::Closed => {},
    }
    false
}

} // verus!
