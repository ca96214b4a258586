//! The life of one target: a Discover is sent, retransmitted up to three
//! times as time passes, and the worker ends with the first Offer, with the
//! last deadline, or with a fault of the receiver.

use vstd::prelude::*;
use vstd::slice::slice_subrange;
use crate::address::HardwareAddress;
use crate::bytes::be16_value;
use crate::dhcp_forge::{build_discover_frame, discover_frame, DHCP_DISCOVER_BUFFER_LENGTH};
use crate::dhcp_parser::{is_dhcp_offer, is_offer};

verus! {

/// Seconds a receiver waits for any frame before it reports a timeout.
pub const NO_PACKET_TIMEOUT: u64 = 5;

/// Seconds after which the first retransmission is due.
pub const WAIT_RETRY_1: u64 = 3;

/// Seconds after which the second retransmission is due.
pub const WAIT_RETRY_2: u64 = 9;

/// Seconds after which the third retransmission is due.
pub const WAIT_RETRY_3: u64 = 15;

/// Seconds after which a worker that has retransmitted three times gives up.
pub const WAIT_OFFER: u64 = 21;

/// Number of retransmissions a worker makes before it gives up.
pub const MAX_RETRY: u8 = 3;

/// Length of an Ethernet header.
pub const ETHERNET_HEADER_LENGTH: usize = 14;

/// EtherType of IPv4.
pub const ETHERTYPE_IPV4: u16 = 0x0800;

/// How a worker ended.
#[derive(Clone, Copy, Debug, PartialEq, Eq, Structural)]
pub enum Outcome {
    /// An Offer for the target arrived.
    Success,
    /// No Offer arrived before the last deadline.
    Failure,
    /// The receiver timed out or failed; the target was not tried to the end.
    Fault,
}

/// Where a worker stands.
#[derive(Clone, Copy, Debug, PartialEq, Eq, Structural)]
pub enum WorkerState {
    /// The Discover was sent and then retransmitted this many times.
    Sent(u8),
    /// Ended with an Offer.
    Success,
    /// Ended without an Offer.
    Failure,
    /// Ended by a fault of the receiver.
    Fault,
}

/// What the caller does next.
#[derive(Clone, Copy, Debug, PartialEq, Eq, Structural)]
pub enum Action {
    /// Wait for the next frame.
    Poll,
    /// Send the Discover again with this elapsed-seconds field, then wait for
    /// the next frame.
    Transmit(u16),
    /// Report this outcome and stop.
    Report(Outcome),
    /// The worker had ended before; there is nothing to do or to report.
    Halt,
}

/// One target's worker: the target, the transaction id chosen at its start,
/// and where it stands.
#[derive(Clone, Copy, Debug)]
pub struct Worker {
    pub mac: HardwareAddress,
    pub xid: u32,
    pub state: WorkerState,
}

/// The elapsed-seconds field of the transmission made after `retry`
/// retransmissions: 0, 3, 6, 12.
pub open spec fn secs_of(retry: u8) -> u16 {
    if retry == 0 {
        0
    } else if retry == 1 {
        3
    } else if retry == 2 {
        6
    } else {
        12
    }
}

/// The time in seconds at which a worker that has retransmitted `retry`
/// times acts next: 3, 9, 15 for the retransmissions, 21 for giving up.
pub open spec fn deadline_of(retry: u8) -> u64 {
    if retry == 0 {
        WAIT_RETRY_1
    } else if retry == 1 {
        WAIT_RETRY_2
    } else if retry == 2 {
        WAIT_RETRY_3
    } else {
        WAIT_OFFER
    }
}

/// True of the states in which a worker has ended.
pub open spec fn is_terminal(state: WorkerState) -> bool {
    !(state is Sent)
}

/// The state after a poll that ended `elapsed` seconds after the worker's
/// start, `offer` telling whether the frame it brought is an Offer for the
/// target.
pub open spec fn next_state(state: WorkerState, offer: bool, elapsed: u64) -> WorkerState {
    match state {
        WorkerState::Sent(retry) => if offer {
            WorkerState::Success
        } else if elapsed < deadline_of(retry) {
            state
        } else if retry >= MAX_RETRY {
            WorkerState::Failure
        } else {
            WorkerState::Sent((retry + 1) as u8)
        },
        _ => state,
    }
}

/// What the caller does after that poll.
pub open spec fn next_action(state: WorkerState, offer: bool, elapsed: u64) -> Action {
    match state {
        WorkerState::Sent(retry) => if offer {
            Action::Report(Outcome::Success)
        } else if elapsed < deadline_of(retry) {
            Action::Poll
        } else if retry >= MAX_RETRY {
            Action::Report(Outcome::Failure)
        } else {
            Action::Transmit(secs_of((retry + 1) as u8))
        },
        _ => Action::Halt,
    }
}

/// True when `frame` is an Ethernet frame addressed to `mac` that carries
/// IPv4 and, in it, a DHCP Offer.
pub open spec fn is_offer_for(frame: Seq<u8>, mac: HardwareAddress) -> bool {
    &&& frame.len() >= ETHERNET_HEADER_LENGTH
    &&& frame.subrange(0, 6) == mac.octets()
    &&& be16_value(frame[12], frame[13]) == ETHERTYPE_IPV4
    &&& is_offer(frame.skip(ETHERNET_HEADER_LENGTH as int))
}

/// Tells whether `frame` is an Offer for `mac`. A frame too short for an
/// Ethernet header is none.
pub fn frame_is_offer_for(frame: &[u8], mac: HardwareAddress) -> (r: bool)
    ensures
        r == is_offer_for(frame@, mac),
{
    if frame.len() < ETHERNET_HEADER_LENGTH {
        return false;
    }
    let check_mac = mac.matches_prefix(frame);
    let ethertype: u16 = frame[12] as u16 * 256 + frame[13] as u16;
    let check_type = ethertype == ETHERTYPE_IPV4;
    let payload = slice_subrange(frame, ETHERNET_HEADER_LENGTH, frame.len());
    assert(payload@ == frame@.skip(ETHERNET_HEADER_LENGTH as int));
    let check_payload = is_dhcp_offer(payload);
    check_mac && check_type && check_payload
}

/// The elapsed-seconds field of the transmission made after `retry`
/// retransmissions.
pub fn retry_secs(retry: u8) -> (r: u16)
    ensures
        r == secs_of(retry),
{
    if retry == 0 {
        0
    } else if retry == 1 {
        3
    } else if retry == 2 {
        6
    } else {
        12
    }
}

/// The time in seconds at which a worker that has retransmitted `retry`
/// times acts next.
pub fn retry_deadline(retry: u8) -> (r: u64)
    ensures
        r == deadline_of(retry),
{
    if retry == 0 {
        WAIT_RETRY_1
    } else if retry == 1 {
        WAIT_RETRY_2
    } else if retry == 2 {
        WAIT_RETRY_3
    } else {
        WAIT_OFFER
    }
}

/// Decides what follows a poll that ended `elapsed` seconds after the
/// worker's start: the new state and what the caller does next.
pub fn step(state: WorkerState, offer: bool, elapsed: u64) -> (r: (WorkerState, Action))
    ensures
        r.0 == next_state(state, offer, elapsed),
        r.1 == next_action(state, offer, elapsed),
{
    match state {
        WorkerState::Sent(retry) => {
            if offer {
                (WorkerState::Success, Action::Report(Outcome::Success))
            } else if elapsed < retry_deadline(retry) {
                (state, Action::Poll)
            } else if retry >= MAX_RETRY {
                (WorkerState::Failure, Action::Report(Outcome::Failure))
            } else {
                (WorkerState::Sent(retry + 1), Action::Transmit(retry_secs(retry + 1)))
            }
        },
        _ => (state, Action::Halt),
    }
}

/// One poll of the receiver as the worker sees it: whether the frame it
/// brought is an Offer for the target, and the seconds since the worker's
/// start at which it ended.
pub struct Poll {
    pub offer: bool,
    pub elapsed: u64,
}

/// Where a worker stands after `polls`, in that order.
pub open spec fn state_after(polls: Seq<Poll>) -> WorkerState
    decreases polls.len(),
{
    if polls.len() == 0 {
        WorkerState::Sent(0)
    } else {
        next_state(state_after(polls.drop_last()), polls.last().offer, polls.last().elapsed)
    }
}

/// The elapsed-seconds fields of all transmissions a worker has made after
/// `polls`: that of the first Discover, then those of the retransmissions.
pub open spec fn secs_sent(polls: Seq<Poll>) -> Seq<u16>
    decreases polls.len(),
{
    if polls.len() == 0 {
        seq![0u16]
    } else {
        let before = secs_sent(polls.drop_last());
        match next_action(
            state_after(polls.drop_last()),
            polls.last().offer,
            polls.last().elapsed,
        ) {
            Action::Transmit(secs) => before.push(secs),
            _ => before,
        }
    }
}

/// Whatever the receiver brings and whenever: a worker transmits four times
/// at most, with the elapsed-seconds fields 0, 3, 6, 12 in this order; while
/// it runs it has transmitted once more than it counts retransmissions; it
/// ends in failure only after all four transmissions and a poll without an
/// Offer at 21 seconds or later; and it ends in success only after a poll
/// that brought an Offer.
pub proof fn lemma_transmissions(polls: Seq<Poll>)
    ensures
        1 <= secs_sent(polls).len() <= 4,
        secs_sent(polls) == seq![0u16, 3u16, 6u16, 12u16].take(secs_sent(polls).len() as int),
        state_after(polls) matches WorkerState::Sent(retry) ==> secs_sent(polls).len() == retry
            + 1,
        state_after(polls) == WorkerState::Failure ==> secs_sent(polls).len() == 4 && exists|
            k: int,
        |
            0 <= k < polls.len() && !(#[trigger] polls[k]).offer && polls[k].elapsed >= WAIT_OFFER,
        state_after(polls) == WorkerState::Success ==> exists|k: int|
            0 <= k < polls.len() && (#[trigger] polls[k]).offer,
        state_after(polls) != WorkerState::Fault,
    decreases polls.len(),
{
    let all = seq![0u16, 3u16, 6u16, 12u16];
    if polls.len() == 0 {
        assert(secs_sent(polls) =~= all.take(1));
    } else {
        let earlier = polls.drop_last();
        let last = polls.last();
        lemma_transmissions(earlier);
        let before = secs_sent(earlier);
        let state = state_after(earlier);
        assert forall|k: int| 0 <= k < earlier.len() implies earlier[k] == polls[k] by {}
        match next_action(state, last.offer, last.elapsed) {
            Action::Transmit(secs) => {
                assert(before.push(secs) =~= all.take(before.len() as int + 1));
            },
            _ => {},
        }
        if state_after(polls) == WorkerState::Failure {
            if state == WorkerState::Failure {
                let k = choose|k: int|
                    0 <= k < earlier.len() && !(#[trigger] earlier[k]).offer && earlier[k].elapsed
                        >= WAIT_OFFER;
                assert(polls[k] == earlier[k]);
            } else {
                assert(polls[polls.len() - 1] == last);
            }
        }
        if state_after(polls) == WorkerState::Success {
            if state == WorkerState::Success {
                let k = choose|k: int| 0 <= k < earlier.len() && (#[trigger] earlier[k]).offer;
                assert(polls[k] == earlier[k]);
            } else {
                assert(polls[polls.len() - 1] == last);
            }
        }
    }
}

/// Draws a transaction id with `rand::random`, which asks the thread's
/// generator of random numbers for a `u32`. Nothing is claimed of the value
/// drawn: two calls may differ, and every value may come.
#[verifier::external_body]
fn random_xid() -> (xid: u32) {
    rand::random()
}

impl Worker {
    /// A worker never counts more than three retransmissions.
    pub open spec fn well_formed(&self) -> bool {
        self.state matches WorkerState::Sent(retry) ==> retry <= MAX_RETRY
    }

    /// Starts a worker for `mac` with the transaction id `xid`, and gives the
    /// first Discover, which the caller sends at once.
    pub fn start_with(mac: HardwareAddress, xid: u32) -> (r: (Worker, Vec<u8>))
        ensures
            r.0.mac == mac,
            r.0.xid == xid,
            r.0.state == WorkerState::Sent(0),
            r.0.well_formed(),
            r.1@ == discover_frame(mac, xid, 0),
            r.1@.len() == DHCP_DISCOVER_BUFFER_LENGTH,
    {
        let worker = Worker { mac, xid, state: WorkerState::Sent(0) };
        let frame = build_discover_frame(mac, xid, 0);
        (worker, frame)
    }

    /// Starts a worker for `mac` with a transaction id drawn at random, and
    /// gives the first Discover, which carries that id.
    pub fn start(mac: HardwareAddress) -> (r: (Worker, Vec<u8>))
        ensures
            r.0.mac == mac,
            r.0.state == WorkerState::Sent(0),
            r.0.well_formed(),
            r.1@ == discover_frame(mac, r.0.xid, 0),
            r.1@.len() == DHCP_DISCOVER_BUFFER_LENGTH,
    {
        let xid = random_xid();
        Worker::start_with(mac, xid)
    }

    /// The Discover of this worker with the elapsed-seconds field `secs`:
    /// always for the same target and with the same transaction id.
    pub fn frame(&self, secs: u16) -> (frame: Vec<u8>)
        ensures
            frame@ == discover_frame(self.mac, self.xid, secs),
            frame@.len() == DHCP_DISCOVER_BUFFER_LENGTH,
    {
        build_discover_frame(self.mac, self.xid, secs)
    }

    /// True when the worker has ended.
    pub fn is_finished(&self) -> (r: bool)
        ensures
            r == is_terminal(self.state),
    {
        match self.state {
            WorkerState::Sent(_) => false,
            _ => true,
        }
    }

    /// Takes in a frame that a poll brought `elapsed` seconds after the
    /// worker's start, and says what to do next. Target and transaction id
    /// stay as they are.
    pub fn on_frame(&mut self, frame: &[u8], elapsed: u64) -> (action: Action)
        ensures
            old(self).well_formed() ==> final(self).well_formed(),
            final(self).mac == old(self).mac,
            final(self).xid == old(self).xid,
            final(self).state == next_state(
                old(self).state,
                is_offer_for(frame@, old(self).mac),
                elapsed,
            ),
            action == next_action(old(self).state, is_offer_for(frame@, old(self).mac), elapsed),
    {
        let offer = frame_is_offer_for(frame, self.mac);
        let (state, action) = step(self.state, offer, elapsed);
        self.state = state;
        action
    }

    /// Takes in a timeout or another failure of the receiver: a worker that
    /// was still running ends with a fault, reported apart from a failure.
    pub fn on_fault(&mut self) -> (action: Action)
        ensures
            final(self).mac == old(self).mac,
            final(self).xid == old(self).xid,
            old(self).well_formed() ==> final(self).well_formed(),
            is_terminal(old(self).state) ==> final(self).state == old(self).state && action
                == Action::Halt,
            !is_terminal(old(self).state) ==> final(self).state == WorkerState::Fault && action
                == Action::Report(Outcome::Fault),
    {
        match self.state {
            WorkerState::Sent(_) => {
                self.state = WorkerState::Fault;
                Action::Report(Outcome::Fault)
            },
            _ => Action::Halt,
        }
    }
}

} // verus!
