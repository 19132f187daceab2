//! Subscriber decision logic: one step of the consumption loop, from the
//! current error-counter state and an incoming event to the next state and
//! the action the runner must take. Decode failures never terminate the loop;
//! a run of consecutive transient receive errors terminates it at a fixed
//! threshold.

use vstd::prelude::*;

verus! {

use crate::types::ZkProof;
use crate::codec::{decode_envelope, spec_decode_envelope, DecodeError};

/// How many consecutive transient receive errors the subscriber tolerates
/// before it escalates to its caller.
pub const MAX_CONSECUTIVE_ERRORS: u32 = 10;

/// The fixed delay, in milliseconds, the runner waits after a transient
/// receive error before the next receive attempt.
pub const ERROR_BACKOFF_MS: u64 = 1000;

/// The subscriber's loop state: how many receive errors came in a row.
pub struct SubscriberState {
    pub consecutive_errors: u32,
}

impl SubscriberState {
    /// The error counter never passes the threshold.
    pub open spec fn wf(self) -> bool {
        self.consecutive_errors <= MAX_CONSECUTIVE_ERRORS
    }

    /// A fresh subscriber: no errors seen.
    pub fn new() -> (s: SubscriberState)
        ensures
            s.consecutive_errors == 0,
            s.wf(),
    {
        SubscriberState { consecutive_errors: 0 }
    }
}

/// One incoming event of the consumption loop.
pub enum ReceiveEvent {
    /// A record arrived; its payload bytes.
    Record(Vec<u8>),
    /// The receive failed with a transient error.
    TransientError,
}

/// What the runner must do after one step.
pub enum SubscriberAction {
    /// Hand the decoded envelope to the sink.
    Deliver(ZkProof),
    /// The record's bytes did not decode: log it and continue.
    Skip(DecodeError),
    /// Wait the fixed backoff delay, then receive again.
    Backoff,
    /// The error threshold is reached: terminate the loop with a fatal error.
    Fatal,
}

/// The error counter after one more transient error.
pub open spec fn spec_error_step(n: u32) -> u32 {
    if n < MAX_CONSECUTIVE_ERRORS {
        (n + 1) as u32
    } else {
        n
    }
}

/// The error counter after `k` consecutive transient errors.
pub open spec fn spec_errors_after(n: u32, k: nat) -> u32
    decreases k,
{
    if k == 0 {
        n
    } else {
        spec_error_step(spec_errors_after(n, (k - 1) as nat))
    }
}

/// One step of the subscriber loop. A record resets the error counter and is
/// decoded: a well-formed envelope is delivered, a malformed one is skipped.
/// A transient error raises the counter; the step asks for a backoff until
/// the counter reaches the threshold, at which point it is fatal.
pub fn subscriber_step(state: &mut SubscriberState, event: ReceiveEvent) -> (action:
    SubscriberAction)
    requires
        old(state).wf(),
    ensures
        final(state).wf(),
        match event {
            ReceiveEvent::Record(payload) => {
                &&& final(state).consecutive_errors == 0
                &&& match spec_decode_envelope(payload@) {
                    Ok(v) => action matches SubscriberAction::Deliver(p) && p@ == v,
                    Err(e) => action == SubscriberAction::Skip(e),
                }
            },
            ReceiveEvent::TransientError => {
                &&& final(state).consecutive_errors == spec_error_step(
                    old(state).consecutive_errors,
                )
                &&& (action is Fatal <==> final(state).consecutive_errors
                    == MAX_CONSECUTIVE_ERRORS)
                &&& (action is Backoff <==> final(state).consecutive_errors
                    < MAX_CONSECUTIVE_ERRORS)
            },
        },
{
    match event {
        ReceiveEvent::Record(payload) => {
            state.consecutive_errors = 0;
            match decode_envelope(payload.as_slice()) {
                Ok(p) => SubscriberAction::Deliver(p),
                Err(e) => SubscriberAction::Skip(e),
            }
        },
        ReceiveEvent::TransientError => {
            if state.consecutive_errors < MAX_CONSECUTIVE_ERRORS {
                state.consecutive_errors = state.consecutive_errors + 1;
            }
            if state.consecutive_errors >= MAX_CONSECUTIVE_ERRORS {
                SubscriberAction::Fatal
            } else {
                SubscriberAction::Backoff
            }
        },
    }
}

/// Law: the subscriber tolerates a degraded connection for a bounded time.
/// From a fresh state, a run of `k` consecutive transient errors leaves the
/// counter at `min(k, threshold)`; the step becomes fatal exactly when the
/// run reaches the threshold, and any successful receive in between resets
/// the counter to zero (the `Record` case of `subscriber_step`).
pub proof fn lemma_errors_terminate_at_threshold(k: nat)
    ensures
        spec_errors_after(0, k) == if k < MAX_CONSECUTIVE_ERRORS {
            k as u32
        } else {
            MAX_CONSECUTIVE_ERRORS
        },
        spec_errors_after(0, k) == MAX_CONSECUTIVE_ERRORS <==> k >= MAX_CONSECUTIVE_ERRORS,
    decreases k,
{
    if k > 0 {
        lemma_errors_terminate_at_threshold((k - 1) as nat);
    }
}

} // verus!
