//! Bus-address self-enumeration, as a state machine.
//!
//! A node that finds its bus address taken asks every node for its address
//! and then waits for the answers before it picks a free one. Only the
//! states and their transitions stand here; collecting the answers and
//! choosing an address are left open.

use vstd::prelude::*;
use super::interface::Instant;

verus! {

/// How long a node waits for the answers to an enumeration request, in
/// milliseconds.
pub const CAN_RESERVE_DELAY_MS: u64 = 100;

/// What drives the enumeration state machine.
#[derive(Debug, Clone, Copy, PartialEq, Eq)]
pub enum CanControlEvent {
    /// A poll at the given time.
    Poll { now: Instant },
    /// A request to enumerate, at the given time.
    RequestEnumeration { now: Instant },
}

/// State of bus-address enumeration.
#[derive(Debug, Clone, Copy, PartialEq, Eq)]
pub enum CanControlState {
    /// Nothing in progress.
    Idle,
    /// Enumeration was requested and starts at the next poll.
    StartingEnumeration { started_at: Instant },
    /// Answers are being collected; bit `n` of `responses` marks bus
    /// address `n` as taken. Address zero is reserved, so it starts taken.
    Enumerating { started_at: Instant, responses: u128 },
}

/// Whether the wait for answers that started at `started_at` is over.
pub open spec fn enumeration_over(started_at: Instant, now: Instant) -> bool {
    now.millis >= started_at.millis && now.millis - started_at.millis >= CAN_RESERVE_DELAY_MS
}

/// The state that follows `state` on `event`.
pub open spec fn next_state(state: CanControlState, event: CanControlEvent) -> CanControlState {
    match (state, event) {
        (CanControlState::Idle, CanControlEvent::RequestEnumeration { now }) => {
            CanControlState::StartingEnumeration { started_at: now }
        },
        (CanControlState::StartingEnumeration { started_at }, CanControlEvent::Poll { now: _ }) => {
            CanControlState::Enumerating { started_at, responses: 1 }
        },
        (CanControlState::Enumerating { started_at, responses: _ }, CanControlEvent::Poll { now }) => {
            if enumeration_over(started_at, now) {
                CanControlState::Idle
            } else {
                state
            }
        },
        _ => state,
    }
}

impl Default for CanControlState {
    fn default() -> (r: CanControlState)
        ensures
            r == CanControlState::Idle,
    {
        CanControlState::Idle
    }
}

impl CanControlState {
    /// The state that follows on `event`.
    pub fn consume(self, event: CanControlEvent) -> (r: CanControlState)
        ensures
            r == next_state(self, event),
    {
        match (self, event) {
            (CanControlState::Idle, CanControlEvent::RequestEnumeration { now }) => {
                CanControlState::StartingEnumeration { started_at: now }
            },
            (CanControlState::StartingEnumeration { started_at }, CanControlEvent::Poll { now: _ }) => {
                CanControlState::Enumerating { started_at, responses: 1 }
            },
            (CanControlState::Enumerating { started_at, responses }, CanControlEvent::Poll { now }) => {
                if now.millis >= started_at.millis && now.millis - started_at.millis
                    >= CAN_RESERVE_DELAY_MS {
                    CanControlState::Idle
                } else {
                    CanControlState::Enumerating { started_at, responses }
                }
            },
            (s, _) => s,
        }
    }
}

} // verus!
