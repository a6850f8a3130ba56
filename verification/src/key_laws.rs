//! What holds of the keys: which one is handed out, when one rests, and who is turned away.

use vstd::prelude::*;

use crate::admission::{
    admitted, given_back, gives_up, leased, refusal, GatewayAcquireError, ADMISSION_STEP_MS,
};
use crate::effect::Effect;
use crate::metrics::{counted, MetricsView};
use crate::pool::{
    active_slots, first_active, ring, slot_active, slot_cooling, slot_free, slot_narrowed,
    slot_released, slot_room, slot_taken, slot_widened, slot_window, total_room, total_window,
    KeyLease, KeySlot,
};
use crate::state::{
    counted_all, keys_after, keys_after_all, known_after, known_after_all, models_after,
    models_after_all, noted, AppState,
};

verus! {

/// Whether a key can take a request: its pause is over and its window has a place.
pub open spec fn takes_request(slot: KeySlot, now_ms: u64) -> bool {
    slot.cooldown_until_ms <= now_ms && slot.in_flight < slot.max_in_flight
}

/// A key that was told to pause rests until just then, and nothing else of it changes.
pub proof fn law_pause_is_as_long_as_asked(slot: KeySlot, secs: u64, now_ms: u64, later_ms: u64)
    requires
        now_ms + secs * 1000 <= u64::MAX,
    ensures
        slot_active(slot_cooling(slot, secs, now_ms), later_ms) <==> later_ms >= now_ms + secs
            * 1000,
        slot_free(slot_cooling(slot, secs, now_ms), later_ms) <==> later_ms >= now_ms + secs * 1000
            && slot.in_flight < slot.max_in_flight,
        slot_cooling(slot, secs, now_ms) == (KeySlot {
            cooldown_until_ms: slot_cooling(slot, secs, now_ms).cooldown_until_ms,
            ..slot
        }),
{
}

/// A success gives a key that was narrowed its place back; the window grows and shrinks by one
/// place at a time, within one place and the configured size; nothing else changes.
pub proof fn law_window_moves_by_one(slot: KeySlot)
    requires
        1 <= slot.max_in_flight <= slot.configured_max_in_flight,
    ensures
        slot.max_in_flight > 1 ==> slot_narrowed(slot).max_in_flight + 1 == slot.max_in_flight,
        slot.max_in_flight > 1 ==> slot_widened(slot_narrowed(slot)) == slot,
        slot.max_in_flight == 1 ==> slot_narrowed(slot) == slot,
        slot.max_in_flight < slot.configured_max_in_flight ==> slot_widened(slot).max_in_flight
            == slot.max_in_flight + 1,
        slot.max_in_flight < slot.configured_max_in_flight ==> slot_narrowed(slot_widened(slot))
            == slot,
        slot.max_in_flight == slot.configured_max_in_flight ==> slot_widened(slot) == slot,
{
}

/// A request that a key takes is one more in flight, and its end is one less; nothing else of
/// the key changes.
pub proof fn law_flights_are_counted(slot: KeySlot)
    requires
        slot.in_flight < slot.max_in_flight,
    ensures
        slot_taken(slot).in_flight == slot.in_flight + 1,
        slot_released(slot_taken(slot)) == slot,
        slot.in_flight > 0 ==> slot_released(slot).in_flight + 1 == slot.in_flight,
        slot.in_flight == 0 ==> slot_released(slot) == slot,
{
}

/// A key takes requests exactly while its pause is over and its window has a place; its window
/// and the room in it count only then.
pub proof fn law_key_takes_requests(slot: KeySlot, now_ms: u64)
    ensures
        slot_active(slot, now_ms) <==> slot.cooldown_until_ms <= now_ms,
        slot_free(slot, now_ms) <==> takes_request(slot, now_ms),
        slot_window(slot, now_ms) == (if slot.cooldown_until_ms <= now_ms {
            slot.max_in_flight as int
        } else {
            0
        }),
        takes_request(slot, now_ms) ==> slot.in_flight + slot_room(slot, now_ms)
            == slot.max_in_flight,
        !takes_request(slot, now_ms) ==> slot_room(slot, now_ms) == 0,
{
}

/// The counts over keys add up: those of two groups are the sums of theirs, and that of one key
/// is its own.
pub proof fn law_key_counts_add_up(a: Seq<KeySlot>, b: Seq<KeySlot>, slot: KeySlot, now_ms: u64)
    ensures
        active_slots(a + b, now_ms) == active_slots(a, now_ms) + active_slots(b, now_ms),
        total_window(a + b, now_ms) == total_window(a, now_ms) + total_window(b, now_ms),
        total_room(a + b, now_ms) == total_room(a, now_ms) + total_room(b, now_ms),
        active_slots(seq![slot], now_ms) == (if slot.cooldown_until_ms <= now_ms {
            1int
        } else {
            0
        }),
        total_window(seq![slot], now_ms) == (if slot.cooldown_until_ms <= now_ms {
            slot.max_in_flight as int
        } else {
            0
        }),
        total_room(seq![slot], now_ms) == (if takes_request(slot, now_ms) {
            slot.max_in_flight - slot.in_flight
        } else {
            0
        }),
    decreases b.len(),
{
    reveal_with_fuel(active_slots, 2);
    reveal_with_fuel(total_window, 2);
    reveal_with_fuel(total_room, 2);
    assert(seq![slot].drop_last() =~= Seq::<KeySlot>::empty());
    if b.len() == 0 {
        assert(a + b =~= a);
    } else {
        law_key_counts_add_up(a, b.drop_last(), slot, now_ms);
        assert((a + b).drop_last() =~= a + b.drop_last());
        assert((a + b).last() == b.last());
    }
}

/// No key is active exactly where every key pauses; and there is room exactly where some key
/// takes a request.
pub proof fn law_key_counts_tell_of_some_key(slots: Seq<KeySlot>, now_ms: u64)
    ensures
        active_slots(slots, now_ms) <= slots.len(),
        active_slots(slots, now_ms) == 0 <==> forall|i: int|
            0 <= i < slots.len() ==> (#[trigger] slots[i]).cooldown_until_ms > now_ms,
        active_slots(slots, now_ms) == slots.len() <==> forall|i: int|
            0 <= i < slots.len() ==> (#[trigger] slots[i]).cooldown_until_ms <= now_ms,
        total_room(slots, now_ms) > 0 <==> exists|i: int|
            0 <= i < slots.len() && takes_request(#[trigger] slots[i], now_ms),
        total_room(slots, now_ms) <= total_window(slots, now_ms),
    decreases slots.len(),
{
    if slots.len() > 0 {
        let rest = slots.drop_last();
        let n = slots.len() - 1;
        law_key_counts_tell_of_some_key(rest, now_ms);
        assert(slots[n] == slots.last());
        assert forall|i: int| 0 <= i < rest.len() implies #[trigger] rest[i] == slots[i] by {}
        if forall|i: int| 0 <= i < slots.len() ==> (#[trigger] slots[i]).cooldown_until_ms > now_ms {
            assert forall|i: int| 0 <= i < rest.len() implies (#[trigger] rest[i]).cooldown_until_ms
                > now_ms by {
                assert(slots[i].cooldown_until_ms > now_ms);
            }
        }
        if forall|i: int| 0 <= i < slots.len() ==> (#[trigger] slots[i]).cooldown_until_ms <= now_ms {
            assert forall|i: int| 0 <= i < rest.len() implies (#[trigger] rest[i]).cooldown_until_ms
                <= now_ms by {
                assert(slots[i].cooldown_until_ms <= now_ms);
            }
        }
        if active_slots(slots, now_ms) == 0 {
            assert forall|i: int| 0 <= i < slots.len() implies (#[trigger] slots[i]).cooldown_until_ms
                > now_ms by {
                if i < n {
                    assert(rest[i].cooldown_until_ms > now_ms);
                }
            }
        }
        if active_slots(slots, now_ms) == slots.len() {
            assert forall|i: int| 0 <= i < slots.len() implies (#[trigger] slots[i]).cooldown_until_ms
                <= now_ms by {
                if i < n {
                    assert(rest[i].cooldown_until_ms <= now_ms);
                }
            }
        }
        if total_room(rest, now_ms) > 0 {
            let i = choose|i: int| 0 <= i < rest.len() && takes_request(#[trigger] rest[i], now_ms);
            assert(takes_request(slots[i], now_ms));
        }
        if takes_request(slots[n], now_ms) {
            assert(total_room(slots, now_ms) > 0);
        }
        if exists|i: int| 0 <= i < slots.len() && takes_request(#[trigger] slots[i], now_ms) {
            let i = choose|i: int|
                0 <= i < slots.len() && takes_request(#[trigger] slots[i], now_ms);
            if i < n {
                assert(takes_request(rest[i], now_ms));
            }
        }
    }
}

/// An attempt goes exactly where the gateway has a place and some key takes a request. It finds
/// no keys exactly where the gateway has a place and every key pauses; anything else is
/// overload.
pub proof fn law_attempts_are_refused_with_reason(state: AppState, now_ms: u64)
    ensures
        ({
            let slots = state.pool.slots@;
            let place = state.upstream_in_flight < state.controls.max_upstream_in_flight;
            let some = exists|i: int|
                0 <= i < slots.len() && takes_request(#[trigger] slots[i], now_ms);
            let resting = forall|i: int|
                0 <= i < slots.len() ==> (#[trigger] slots[i]).cooldown_until_ms > now_ms;
            &&& refusal(state, now_ms) is None <==> place && some
            &&& refusal(state, now_ms) == Some(GatewayAcquireError::NoKeys) <==> place && resting
            &&& refusal(state, now_ms) == Some(GatewayAcquireError::Overloaded) <==> !place || (
            !some && !resting)
        }),
{
    let slots = state.pool.slots@;
    law_key_counts_tell_of_some_key(slots, now_ms);
    if exists|i: int| 0 <= i < slots.len() && takes_request(#[trigger] slots[i], now_ms) {
        let i = choose|i: int| 0 <= i < slots.len() && takes_request(#[trigger] slots[i], now_ms);
        assert(slot_free(slots[i], now_ms));
    }
    if crate::admission::some_free(slots, now_ms) {
        let i = choose|i: int| 0 <= i < slots.len() && slot_free(#[trigger] slots[i], now_ms);
        assert(takes_request(slots[i], now_ms));
    }
}

/// An attempt that was refused waits on, for 25 milliseconds at a time, exactly until its time is
/// up; where there are no keys at all it does not wait.
pub proof fn law_attempts_wait_their_time(
    state: AppState,
    e: GatewayAcquireError,
    waited_ms: u64,
)
    ensures
        waited_ms >= state.controls.admission_wait_ms ==> gives_up(state, e, waited_ms),
        waited_ms < state.controls.admission_wait_ms && state.pool.slots@.len() > 0 ==> !gives_up(
            state,
            e,
            waited_ms,
        ),
        waited_ms < state.controls.admission_wait_ms && e == GatewayAcquireError::Overloaded
            ==> !gives_up(state, e, waited_ms),
        state.pool.slots@.len() == 0 && e == GatewayAcquireError::NoKeys ==> gives_up(
            state,
            e,
            waited_ms,
        ),
        ADMISSION_STEP_MS == 25,
{
}

/// The key that an attempt gets takes requests, and is the nearest such key from the cursor on;
/// the attempt holds that key's text and label, the load grows by one there and at the gateway,
/// the attempt is counted, and the next search starts behind it. Nothing else changes.
pub proof fn law_attempt_gets_the_next_key(
    before: AppState,
    lease: KeyLease,
    now_ms: u64,
    after: AppState,
    other: int,
)
    requires
        leased(before, lease, now_ms),
        admitted(before, after, lease.idx as int),
        before.pool.wf(),
        0 <= other < before.pool.slots@.len(),
    ensures
        ({
            let slots = before.pool.slots@;
            let n = slots.len() as int;
            let idx = lease.idx as int;
            let cursor = before.pool.cursor as int;
            let distance = |i: int|
                if i >= cursor {
                    i - cursor
                } else {
                    i - cursor + n
                };
            &&& 0 <= idx < n
            &&& takes_request(slots[idx], now_ms)
            &&& lease.key@ == slots[idx].key@
            &&& lease.label == slots[idx].label
            &&& takes_request(slots[other], now_ms) ==> distance(idx) <= distance(other)
            &&& after.pool.slots@.len() == n
            &&& after.pool.slots@[idx].in_flight == slots[idx].in_flight + 1
            &&& other != idx ==> after.pool.slots@[other] == slots[other]
            &&& after.upstream_in_flight == before.upstream_in_flight + 1
            &&& before.metrics@.upstream_attempts < u64::MAX ==> after.metrics@ == (MetricsView {
                upstream_attempts: (before.metrics@.upstream_attempts + 1) as u64,
                ..before.metrics@
            })
            &&& after == (AppState {
                pool: after.pool,
                upstream_in_flight: after.upstream_in_flight,
                metrics: after.metrics,
                ..before
            })
            &&& after.pool.cursor == (if idx + 1 < n {
                idx + 1
            } else {
                0
            })
        }),
{
    let slots = before.pool.slots@;
    let n = slots.len() as int;
    let cursor = before.pool.cursor as int;
    let idx = lease.idx as int;
    let step = choose|step: int|
        {
            &&& 0 <= step < n
            &&& idx == #[trigger] ring(cursor, step, n)
            &&& forall|k: int| 0 <= k < step ==> !slot_free(slots[#[trigger] ring(cursor, k, n)], now_ms)
        };
    let d = if other >= cursor {
        other - cursor
    } else {
        other - cursor + n
    };
    assert(ring(cursor, d, n) == other);
    if d < step {
        assert(!slot_free(slots[ring(cursor, d, n)], now_ms));
    }
}

/// The key that upstream is asked with for its models is active, and the nearest such key from
/// the cursor on.
pub proof fn law_next_active_key_is_the_nearest(
    slots: Seq<KeySlot>,
    cursor: int,
    now_ms: u64,
    idx: int,
    other: int,
)
    requires
        0 <= cursor < slots.len(),
        first_active(slots, cursor, now_ms, idx),
        0 <= other < slots.len(),
        slots[other].cooldown_until_ms <= now_ms,
    ensures
        slots[idx].cooldown_until_ms <= now_ms,
        ({
            let n = slots.len() as int;
            let distance = |i: int|
                if i >= cursor {
                    i - cursor
                } else {
                    i - cursor + n
                };
            distance(idx) <= distance(other)
        }),
{
    let n = slots.len() as int;
    let step = choose|k: int|
        {
            &&& 0 <= k < n
            &&& idx == #[trigger] ring(cursor, k, n)
            &&& forall|j: int| 0 <= j < k ==> !slot_active(slots[#[trigger] ring(cursor, j, n)], now_ms)
        };
    let d = if other >= cursor {
        other - cursor
    } else {
        other - cursor + n
    };
    assert(ring(cursor, d, n) == other);
    if d < step {
        assert(!slot_active(slots[ring(cursor, d, n)], now_ms));
    }
}

/// An effect changes only the key that it tells of: a pause lasts as long as it says, a success
/// widens and a refusal narrows. Any other effect leaves all keys as they are.
pub proof fn law_effects_change_their_key_only(
    slots: Seq<KeySlot>,
    e: Effect<Seq<char>>,
    now_ms: u64,
    i: int,
)
    requires
        0 <= i < slots.len(),
    ensures
        keys_after(slots, e, now_ms).len() == slots.len(),
        match e {
            Effect::KeyRateLimited { key, secs } => if key == i {
                &&& now_ms + secs * 1000 <= u64::MAX ==> keys_after(slots, e, now_ms)[i]
                    == (KeySlot { cooldown_until_ms: (now_ms + secs * 1000) as u64, ..slots[i] })
                &&& now_ms + secs * 1000 > u64::MAX ==> keys_after(slots, e, now_ms)[i] == (KeySlot {
                    cooldown_until_ms: u64::MAX,
                    ..slots[i]
                })
            } else {
                keys_after(slots, e, now_ms)[i] == slots[i]
            },
            Effect::KeyThrottled(key) => if key == i && slots[i].max_in_flight > 1 {
                keys_after(slots, e, now_ms)[i] == (KeySlot {
                    max_in_flight: (slots[i].max_in_flight - 1) as usize,
                    ..slots[i]
                })
            } else {
                keys_after(slots, e, now_ms)[i] == slots[i]
            },
            Effect::KeySucceeded(key) => if key == i && slots[i].max_in_flight
                < slots[i].configured_max_in_flight {
                keys_after(slots, e, now_ms)[i] == (KeySlot {
                    max_in_flight: (slots[i].max_in_flight + 1) as usize,
                    ..slots[i]
                })
            } else {
                keys_after(slots, e, now_ms)[i] == slots[i]
            },
            _ => keys_after(slots, e, now_ms) == slots,
        },
{
}

/// The end of an attempt is one request less in flight, at the gateway and on its key; nothing
/// else changes.
pub proof fn law_attempt_gives_its_place_back(
    before: AppState,
    after: AppState,
    idx: usize,
    other: int,
)
    requires
        given_back(before, after, idx),
        0 <= other < before.pool.slots@.len(),
    ensures
        before.upstream_in_flight > 0 ==> after.upstream_in_flight + 1 == before.upstream_in_flight,
        before.upstream_in_flight == 0 ==> after.upstream_in_flight == 0,
        after.pool.slots@.len() == before.pool.slots@.len(),
        other != idx ==> after.pool.slots@[other] == before.pool.slots@[other],
        other == idx && before.pool.slots@[other].in_flight > 0 ==> after.pool.slots@[other] == (
        KeySlot {
            in_flight: (before.pool.slots@[other].in_flight - 1) as usize,
            ..before.pool.slots@[other]
        }),
        after.pool.cursor == before.pool.cursor,
        after == (AppState {
            pool: after.pool,
            upstream_in_flight: after.upstream_in_flight,
            ..before
        }),
{
}

/// An effect changes nothing of the state but the counters, the keys and what is remembered of
/// the models; not the order in which keys are handed out, nor the threshold for models.
pub proof fn law_effects_leave_the_rest(
    before: AppState,
    after: AppState,
    e: Effect<Seq<char>>,
    now_ms: u64,
)
    requires
        noted(before, after, e, now_ms),
    ensures
        after == (AppState {
            pool: after.pool,
            model_stats: after.model_stats,
            metrics: after.metrics,
            ..before
        }),
        after.pool.cursor == before.pool.cursor,
        after.pool.slots@.len() == before.pool.slots@.len(),
        after.model_stats.spike_threshold_us == before.model_stats.spike_threshold_us,
{
}

/// Effects are noted one after the other: noting two rows of them in one go is noting the first,
/// then the second.
pub proof fn law_effects_are_noted_in_order(
    state: AppState,
    a: Seq<Effect<Seq<char>>>,
    b: Seq<Effect<Seq<char>>>,
    e: Effect<Seq<char>>,
    now_ms: u64,
)
    ensures
        ({
            let slots = state.pool.slots@;
            let records = state.model_stats.records();
            let known = state.model_stats.known();
            let m = state.metrics@;
            &&& keys_after_all(slots, a + b, now_ms) == keys_after_all(
                keys_after_all(slots, a, now_ms),
                b,
                now_ms,
            )
            &&& models_after_all(records, a + b) == models_after_all(
                models_after_all(records, a),
                b,
            )
            &&& known_after_all(known, a + b) == known_after_all(known_after_all(known, a), b)
            &&& counted_all(m, a + b) == counted_all(counted_all(m, a), b)
            &&& keys_after_all(slots, seq![e], now_ms) == keys_after(slots, e, now_ms)
            &&& models_after_all(records, seq![e]) == models_after(records, e)
            &&& known_after_all(known, seq![e]) == known_after(known, e)
            &&& counted_all(m, seq![e]) == counted(m, e)
        }),
    decreases b.len(),
{
    reveal_with_fuel(keys_after_all, 2);
    reveal_with_fuel(models_after_all, 2);
    reveal_with_fuel(known_after_all, 2);
    reveal_with_fuel(counted_all, 2);
    assert(seq![e].drop_last() =~= Seq::<Effect<Seq<char>>>::empty());
    if b.len() == 0 {
        assert(a + b =~= a);
    } else {
        law_effects_are_noted_in_order(state, a, b.drop_last(), e, now_ms);
        assert((a + b).drop_last() =~= a + b.drop_last());
        assert((a + b).last() == b.last());
    }
}

} // verus!
