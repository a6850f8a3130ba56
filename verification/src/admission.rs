//! Which attempts may go upstream, and with which key.

use vstd::prelude::*;

use crate::effect::{
    effects_view, gateway_overloaded_response, no_key_reply, no_key_response, overloaded_reply,
    Effect, Reply,
};
use crate::metrics::MetricsView;
use crate::pool::{
    active_slots, first_free, ring, slot_free, slot_released, slot_taken, KeyAcquireError,
    KeyLease, KeySlot,
};
use crate::state::AppState;
use crate::stats::sum_up_to;

verus! {

/// How long an attempt that cannot go yet waits before it is tried again.
pub const ADMISSION_STEP_MS: u64 = 25;

/// Why an attempt may not go.
#[derive(PartialEq, Eq, Structural, Clone, Copy, Debug)]
pub enum GatewayAcquireError {
    Overloaded,
    NoKeys,
}

/// Whether some key can take a request.
pub open spec fn some_free(slots: Seq<KeySlot>, now_ms: u64) -> bool {
    exists|i: int| 0 <= i < slots.len() && slot_free(#[trigger] slots[i], now_ms)
}

/// Why an attempt may not go; nothing where it may. The gateway's own limit comes first; keys
/// that are all busy count as overload, keys that all cool down as no keys.
pub open spec fn refusal(state: AppState, now_ms: u64) -> Option<GatewayAcquireError> {
    if state.upstream_in_flight >= state.controls.max_upstream_in_flight {
        Some(GatewayAcquireError::Overloaded)
    } else if some_free(state.pool.slots@, now_ms) {
        None
    } else if active_slots(state.pool.slots@, now_ms) == 0 {
        Some(GatewayAcquireError::NoKeys)
    } else {
        Some(GatewayAcquireError::Overloaded)
    }
}

/// Whether a state follows another by an attempt with the key at `idx`.
pub open spec fn admitted(before: AppState, after: AppState, idx: int) -> bool {
    &&& after.upstream_in_flight == before.upstream_in_flight + 1
    &&& after.pool.slots@ == before.pool.slots@.update(idx, slot_taken(before.pool.slots@[idx]))
    &&& after.pool.cursor == ring(idx, 1, before.pool.slots@.len() as int)
    &&& after.metrics@ == (MetricsView {
        upstream_attempts: sum_up_to(before.metrics@.upstream_attempts, 1),
        ..before.metrics@
    })
    &&& same_but_load(before, after)
}

/// Whether two states differ at most in what attempts change.
pub open spec fn same_but_load(before: AppState, after: AppState) -> bool {
    &&& after.pool.slots@.len() == before.pool.slots@.len()
    &&& after.router == before.router
    &&& after.model_stats == before.model_stats
    &&& after.available_models == before.available_models
    &&& after.racing_models == before.racing_models
    &&& after.racing_max_parallel == before.racing_max_parallel
    &&& after.racing_timeout_ms == before.racing_timeout_ms
    &&& after.racing_cursor == before.racing_cursor
    &&& after.model_params == before.model_params
    &&& after.model_compat == before.model_compat
    &&& after.controls == before.controls
}

/// What is known of the key of an attempt.
pub open spec fn leased(state: AppState, lease: KeyLease, now_ms: u64) -> bool {
    &&& first_free(state.pool.slots@, state.pool.cursor as int, now_ms, lease.idx as int)
    &&& lease.key@ == state.pool.slots@[lease.idx as int].key@
    &&& lease.label == state.pool.slots@[lease.idx as int].label
}

/// Lets an attempt go, with the next key in turn that can take it.
pub fn try_acquire_gateway_permits(state: &mut AppState, now_ms: u64) -> (r: Result<
    KeyLease,
    GatewayAcquireError,
>)
    requires
        old(state).wf(),
    ensures
        final(state).wf(),
        match r {
            Ok(lease) => {
                &&& refusal(*old(state), now_ms) is None
                &&& leased(*old(state), lease, now_ms)
                &&& admitted(*old(state), *final(state), lease.idx as int)
            },
            Err(e) => refusal(*old(state), now_ms) == Some(e) && *final(state) == *old(state),
        },
{
    if !state.try_acquire_upstream() {
        return Err(GatewayAcquireError::Overloaded);
    }
    match state.pool.next_key_with_permit(now_ms) {
        Ok(lease) => {
            assert(slot_free(old(state).pool.slots@[lease.idx as int], now_ms));
            state.metrics.upstream_attempts = state.metrics.upstream_attempts.saturating_add(1);
            Ok(lease)
        },
        Err(e) => {
            state.release_upstream();
            match e {
                KeyAcquireError::AllBusy => Err(GatewayAcquireError::Overloaded),
                KeyAcquireError::NoKeys => Err(GatewayAcquireError::NoKeys),
                KeyAcquireError::AllCoolingDown => Err(GatewayAcquireError::NoKeys),
            }
        },
    }
}

/// Whether a state follows another by the end of an attempt with the key at `idx`.
pub open spec fn given_back(before: AppState, after: AppState, idx: usize) -> bool {
    &&& after.upstream_in_flight == (if before.upstream_in_flight > 0 {
        before.upstream_in_flight - 1
    } else {
        0
    })
    &&& after.pool.slots@ == (if idx < before.pool.slots@.len() {
        before.pool.slots@.update(idx as int, slot_released(before.pool.slots@[idx as int]))
    } else {
        before.pool.slots@
    })
    &&& after.pool.cursor == before.pool.cursor
    &&& after.metrics == before.metrics
    &&& same_but_load(before, after)
}

/// Ends an attempt: its place at the gateway and in its key's window is free again.
pub fn release_gateway_permits(state: &mut AppState, idx: usize)
    requires
        old(state).wf(),
    ensures
        final(state).wf(),
        given_back(*old(state), *final(state), idx),
{
    state.release_upstream();
    state.pool.release(idx);
}

/// What an attempt that wants to go has to do.
pub enum Admission {
    /// Go, with this key.
    Go(KeyLease),
    /// Wait for so many milliseconds, then ask again.
    Wait(u64),
    /// Answer the client.
    Reject(Reply),
}

/// Whether an attempt that was refused is given up: there are no keys at all, or it has waited
/// long enough.
pub open spec fn gives_up(state: AppState, e: GatewayAcquireError, waited_ms: u64) -> bool {
    (e == GatewayAcquireError::NoKeys && state.pool.slots@.len() == 0) || waited_ms
        >= state.controls.admission_wait_ms
}

/// Lets an attempt that has waited for `waited_ms` milliseconds go, wait on, or end.
pub fn acquire_gateway_permits(state: &mut AppState, waited_ms: u64, now_ms: u64) -> (r: (
    Admission,
    Vec<Effect<String>>,
))
    requires
        old(state).wf(),
    ensures
        final(state).wf(),
        match r.0 {
            Admission::Go(lease) => {
                &&& refusal(*old(state), now_ms) is None
                &&& leased(*old(state), lease, now_ms)
                &&& admitted(*old(state), *final(state), lease.idx as int)
                &&& effects_view(r.1@) == Seq::<Effect<Seq<char>>>::empty()
            },
            Admission::Wait(ms) => {
                &&& refusal(*old(state), now_ms) matches Some(e) && !gives_up(
                    *old(state),
                    e,
                    waited_ms,
                )
                &&& ms == ADMISSION_STEP_MS
                &&& *final(state) == *old(state)
                &&& effects_view(r.1@) == Seq::<Effect<Seq<char>>>::empty()
            },
            Admission::Reject(reply) => {
                &&& refusal(*old(state), now_ms) matches Some(e) && gives_up(
                    *old(state),
                    e,
                    waited_ms,
                ) && (if e == GatewayAcquireError::NoKeys {
                    reply@ == no_key_reply() && effects_view(r.1@) == seq![
                        Effect::<Seq<char>>::NoKey,
                    ]
                } else {
                    reply@ == overloaded_reply() && effects_view(r.1@) == seq![
                        Effect::<Seq<char>>::Overload,
                    ]
                })
                &&& *final(state) == *old(state)
            },
        },
{
    let none: Vec<Effect<String>> = Vec::new();
    assert(effects_view(none@) =~= Seq::empty());
    match try_acquire_gateway_permits(state, now_ms) {
        Ok(lease) => (Admission::Go(lease), none),
        Err(e) => {
            let no_keys: bool = match e {
                GatewayAcquireError::NoKeys => true,
                GatewayAcquireError::Overloaded => false,
            };
            if (no_keys && state.pool.len() == 0) || waited_ms >= state.controls.admission_wait_ms {
                let (reply, effects) = if no_keys {
                    no_key_response()
                } else {
                    gateway_overloaded_response()
                };
                (Admission::Reject(reply), effects)
            } else {
                (Admission::Wait(ADMISSION_STEP_MS), none)
            }
        },
    }
}

/// An attempt that goes stays within the limits: of the gateway, and of the key's window.
pub proof fn law_admission_stays_within_limits(
    before: AppState,
    after: AppState,
    lease: KeyLease,
    now_ms: u64,
)
    requires
        refusal(before, now_ms) is None,
        leased(before, lease, now_ms),
        admitted(before, after, lease.idx as int),
    ensures
        after.upstream_in_flight <= after.controls.max_upstream_in_flight,
        after.pool.slots@[lease.idx as int].in_flight
            <= after.pool.slots@[lease.idx as int].max_in_flight,
        after.pool.slots@[lease.idx as int].cooldown_until_ms <= now_ms,
{
}

/// The end of an attempt undoes its start: the load of the gateway and of every key is what it
/// was.
pub proof fn law_release_undoes_admission(
    before: AppState,
    during: AppState,
    after: AppState,
    lease: KeyLease,
    now_ms: u64,
)
    requires
        leased(before, lease, now_ms),
        admitted(before, during, lease.idx as int),
        given_back(during, after, lease.idx),
    ensures
        after.upstream_in_flight == before.upstream_in_flight,
        after.pool.slots@ == before.pool.slots@,
{
    assert(after.pool.slots@ =~= before.pool.slots@);
}

/// The key at the cursor goes first if it can, and there is only one key that an attempt can
/// get.
pub proof fn law_keys_take_turns(
    slots: Seq<KeySlot>,
    cursor: int,
    now_ms: u64,
    idx: int,
    other: int,
)
    requires
        0 <= cursor < slots.len(),
        first_free(slots, cursor, now_ms, idx),
    ensures
        slot_free(slots[cursor], now_ms) ==> idx == cursor,
        first_free(slots, cursor, now_ms, other) ==> other == idx,
{
    let n = slots.len() as int;
    let a = choose|step: int|
        {
            &&& 0 <= step < n
            &&& idx == #[trigger] ring(cursor, step, n)
            &&& forall|k: int| 0 <= k < step ==> !slot_free(slots[#[trigger] ring(cursor, k, n)], now_ms)
        };
    if slot_free(slots[cursor], now_ms) && a > 0 {
        assert(ring(cursor, 0, n) == cursor);
    }
    if first_free(slots, cursor, now_ms, other) {
        let b = choose|step: int|
            {
                &&& 0 <= step < n
                &&& other == #[trigger] ring(cursor, step, n)
                &&& forall|k: int|
                    0 <= k < step ==> !slot_free(slots[#[trigger] ring(cursor, k, n)], now_ms)
            };
        if a < b {
            assert(!slot_free(slots[ring(cursor, a, n)], now_ms));
        }
        if b < a {
            assert(!slot_free(slots[ring(cursor, b, n)], now_ms));
        }
    }
}

} // verus!
