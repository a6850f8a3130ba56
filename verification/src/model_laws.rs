//! What holds of the models: what is remembered of them, whose turn it is, and who races.

use vstd::prelude::*;

use crate::candidates::{
    among, candidates_for, cap_for, fallbacks, law_candidates_are_usable_models, limits_of, load_of,
    parallel_for, rotated, solo_candidates, KeyLoad, RacingLimits,
};
use crate::deadline::{deadline_for, time_before};
use crate::effect::{Effect, ReplyView};
use crate::key_laws::law_key_counts_tell_of_some_key;
use crate::pool::{active_slots, ring, total_room, total_window};
use crate::prepare::{after_turn, offered_model};
use crate::race::{
    cursor_moved, race_plan, race_started, race_width, Lineup, RacePlanView, RaceStartView,
};
use crate::router::{turn_of, usable_step};
use crate::state::{known_after, models_after, AppState};
use crate::stats::{
    in_micros, model_timeout, record_after, record_blocked, record_degraded, record_of, usable,
    ModelRecord,
};
use crate::table::{lemma_merged_names_contain, merged_names, names};
use crate::tally::not_among;

verus! {

// ---------------------------------------------------------------------------------------
// What is remembered
// ---------------------------------------------------------------------------------------

/// A request adds one to what is remembered of its model, with its latency; a success lifts the
/// block and ends a row of failures, a failure makes the row one longer and lifts nothing.
pub proof fn law_requests_are_remembered(r: ModelRecord, latency_ms: u64, ok: bool)
    requires
        r.total < u64::MAX,
        r.success < u64::MAX,
        r.consecutive_failures < u64::MAX,
        r.sample_count < u64::MAX,
        r.latency_sum_ms + latency_ms <= u64::MAX,
    ensures
        record_after(r, latency_ms, ok).total == r.total + 1,
        record_after(r, latency_ms, ok).sample_count == r.sample_count + 1,
        record_after(r, latency_ms, ok).latency_sum_ms == r.latency_sum_ms + latency_ms,
        ok ==> record_after(r, latency_ms, ok).success == r.success + 1,
        ok ==> record_after(r, latency_ms, ok).consecutive_failures == 0,
        ok ==> !record_after(r, latency_ms, ok).blocked,
        !ok ==> record_after(r, latency_ms, ok).success == r.success,
        !ok ==> record_after(r, latency_ms, ok).consecutive_failures == r.consecutive_failures + 1,
        !ok ==> record_after(r, latency_ms, ok).blocked == r.blocked,
{
}

/// A block changes nothing but that the model is blocked.
pub proof fn law_block_keeps_the_counts(r: ModelRecord)
    ensures
        record_blocked(r).blocked,
        record_blocked(r) == (ModelRecord { blocked: true, ..r }),
{
}

/// A model is avoided exactly where it is blocked, or where the latencies of at least three
/// requests add up to more than the threshold, in whole milliseconds, for each of them. One that
/// was never used is not avoided.
pub proof fn law_slow_models_are_avoided(r: ModelRecord, threshold_ms: u64)
    requires
        threshold_ms * 1000 <= u64::MAX,
    ensures
        record_degraded(r, in_micros(threshold_ms)) <==> r.blocked || (r.sample_count >= 3
            && r.latency_sum_ms > threshold_ms * r.sample_count),
        !record_degraded(
            record_of(Map::<Seq<char>, ModelRecord>::empty(), Seq::empty()),
            in_micros(threshold_ms),
        ),
{
    assert((threshold_ms * 1000) * r.sample_count == (threshold_ms * r.sample_count) * 1000)
        by (nonlinear_arith);
}

/// A model gets the default time while few samples are known of it; then twice its average
/// latency, as far as that lies between the minimum and the default. It never gets more than
/// the default.
pub proof fn law_models_get_twice_their_average(
    r: ModelRecord,
    default_ms: u64,
    min_ms: u64,
    sample_floor: u64,
    average: u64,
)
    ensures
        model_timeout(r, default_ms, min_ms, sample_floor) <= default_ms,
        r.sample_count == 0 || r.sample_count < sample_floor ==> model_timeout(
            r,
            default_ms,
            min_ms,
            sample_floor,
        ) == default_ms,
        r.sample_count > 0 && r.sample_count >= sample_floor && average * r.sample_count
            <= r.latency_sum_ms < (average + 1) * r.sample_count ==> {
            let ms = model_timeout(r, default_ms, min_ms, sample_floor);
            &&& 2 * average >= default_ms ==> ms == default_ms
            &&& min_ms <= 2 * average <= default_ms ==> ms == 2 * average
            &&& 2 * average <= min_ms <= default_ms ==> ms == min_ms
            &&& min_ms >= default_ms ==> ms == default_ms
        },
{
    if r.sample_count > 0 && average * r.sample_count <= r.latency_sum_ms < (average + 1)
        * r.sample_count {
        let rest = r.latency_sum_ms - average * r.sample_count;
        assert((average + 1) * r.sample_count == average * r.sample_count + r.sample_count)
            by (nonlinear_arith);
        vstd::arithmetic::div_mod::lemma_fundamental_div_mod_converse(
            r.latency_sum_ms as int,
            r.sample_count as int,
            average as int,
            rest,
        );
    }
}

/// An effect changes what is remembered of the model that it tells of, and of no other: an
/// outcome counts as it is, a timeout counts as a failure after the time that passed, and a
/// rejected shape or a word of upstream blocks the model.
pub proof fn law_effects_change_their_model_only(
    records: Map<Seq<char>, ModelRecord>,
    e: Effect<Seq<char>>,
    other: Seq<char>,
)
    ensures
        match e {
            Effect::ModelOutcome { model, latency_ms, ok, .. } => {
                &&& record_of(models_after(records, e), model) == record_after(
                    record_of(records, model),
                    latency_ms,
                    ok,
                )
                &&& other != model ==> record_of(models_after(records, e), other) == record_of(
                    records,
                    other,
                )
            },
            Effect::ModelQuality { model, latency_ms, ok, .. } => {
                &&& record_of(models_after(records, e), model) == record_after(
                    record_of(records, model),
                    latency_ms,
                    ok,
                )
                &&& other != model ==> record_of(models_after(records, e), other) == record_of(
                    records,
                    other,
                )
            },
            Effect::ModelTimeout { model, elapsed_ms, .. } => {
                &&& record_of(models_after(records, e), model) == record_after(
                    record_of(records, model),
                    elapsed_ms,
                    false,
                )
                &&& other != model ==> record_of(models_after(records, e), other) == record_of(
                    records,
                    other,
                )
            },
            Effect::HardError { model, .. } => {
                &&& record_of(models_after(records, e), model) == (ModelRecord {
                    blocked: true,
                    ..record_of(records, model)
                })
                &&& other != model ==> record_of(models_after(records, e), other) == record_of(
                    records,
                    other,
                )
            },
            Effect::ServerDegraded(model) => {
                &&& record_of(models_after(records, e), model) == (ModelRecord {
                    blocked: true,
                    ..record_of(records, model)
                })
                &&& other != model ==> record_of(models_after(records, e), other) == record_of(
                    records,
                    other,
                )
            },
            _ => models_after(records, e) == records,
        },
{
}

/// Models are known in the order in which they were first told of, each once: an effect that
/// tells of a model adds it at the end if it is new, and moves none.
pub proof fn law_known_models_keep_their_order(known: Seq<Seq<char>>, e: Effect<Seq<char>>, i: int)
    requires
        0 <= i < known.len(),
    ensures
        known_after(known, e)[i] == known[i],
        match e {
            Effect::ModelOutcome { model, .. } => known_after(known, e).contains(model) && (
            known.contains(model) ==> known_after(known, e) == known) && (!known.contains(model)
                ==> known_after(known, e).len() == known.len() + 1 && known_after(known, e).last()
                == model),
            Effect::ModelTimeout { model, .. } => known_after(known, e).contains(model),
            Effect::ModelQuality { model, .. } => known_after(known, e).contains(model),
            Effect::HardError { model, .. } => known_after(known, e).contains(model),
            Effect::ServerDegraded(model) => known_after(known, e).contains(model),
            _ => known_after(known, e) == known,
        },
{
    let after = known_after(known, e);
    if after.len() > known.len() {
        assert(after[known.len() as int] == after.last());
    }
}

// ---------------------------------------------------------------------------------------
// Time
// ---------------------------------------------------------------------------------------

/// A limit above zero sets the deadline just so much later, and a limit of zero none.
pub proof fn law_deadline_is_the_limit_away(max_total_ms: u64, now_ns: u128)
    ensures
        max_total_ms == 0 ==> deadline_for(max_total_ms, now_ns) is None,
        max_total_ms > 0 && now_ns + max_total_ms * 1_000_000 <= u128::MAX ==> (deadline_for(
            max_total_ms,
            now_ns,
        ) matches Some(d) && d == now_ns + max_total_ms * 1_000_000),
{
}

/// An attempt gets all its time where the deadline leaves it; else all the whole milliseconds
/// that are left, and nothing where not one is left.
pub proof fn law_attempt_gets_what_is_left(deadline: u128, now_ns: u128, per_attempt_ms: u64)
    requires
        now_ns <= deadline,
    ensures
        deadline - now_ns < 1_000_000 ==> time_before(Some(deadline), now_ns, per_attempt_ms) is None,
        deadline - now_ns >= 1_000_000 && now_ns + per_attempt_ms * 1_000_000 <= deadline
            ==> time_before(Some(deadline), now_ns, per_attempt_ms) == Some(per_attempt_ms),
        deadline - now_ns >= 1_000_000 && now_ns + per_attempt_ms * 1_000_000 > deadline ==> (
        time_before(Some(deadline), now_ns, per_attempt_ms) matches Some(ms) && now_ns + ms
            * 1_000_000 <= deadline < now_ns + (ms + 1) * 1_000_000),
        time_before(None, now_ns, per_attempt_ms) == Some(per_attempt_ms),
{
    let span = deadline - now_ns;
    let left = span / 1_000_000;
    vstd::arithmetic::div_mod::lemma_fundamental_div_mod(span, 1_000_000);
    vstd::arithmetic::div_mod::lemma_mod_bound(span, 1_000_000);
    assert(left * 1_000_000 <= span < (left + 1) * 1_000_000);
}

/// Past the deadline an attempt gets no time.
pub proof fn law_no_time_after_the_deadline(deadline: u128, now_ns: u128, per_attempt_ms: u64)
    requires
        now_ns > deadline,
    ensures
        time_before(Some(deadline), now_ns, per_attempt_ms) is None,
{
}

// ---------------------------------------------------------------------------------------
// Whose turn it is
// ---------------------------------------------------------------------------------------

/// Whether a model is to be avoided, by the state.
pub open spec fn avoided(state: AppState, model: Seq<char>) -> bool {
    record_degraded(
        record_of(state.model_stats.records(), model),
        state.model_stats.spike_threshold_us,
    )
}

/// The router offers the nearest model from its cursor on that is not to be avoided; the one at
/// the cursor where all are. When the offer is taken, the next search starts behind that model.
pub proof fn law_router_offers_the_nearest(
    before: AppState,
    after: AppState,
    taken: bool,
    other: int,
)
    requires
        before.wf(),
        after_turn(before, after, taken),
        0 <= other < before.routed_names().len(),
    ensures
        ({
            let models = before.routed_names();
            let n = models.len() as int;
            let cursor = before.router->Some_0.cursor as int;
            exists|idx: int|
                {
                    &&& 0 <= idx < n
                    &&& offered_model(before) == Some(#[trigger] models[idx])
                    &&& !avoided(before, models[other]) ==> !avoided(before, models[idx]) && (if idx
                        >= cursor {
                        idx - cursor
                    } else {
                        idx - cursor + n
                    }) <= (if other >= cursor {
                        other - cursor
                    } else {
                        other - cursor + n
                    })
                    &&& avoided(before, models[idx]) ==> idx == cursor
                    &&& after.router->Some_0.cursor == (if !taken {
                        cursor
                    } else if idx + 1 < n {
                        idx + 1
                    } else {
                        0
                    })
                }
        }),
        after.router is Some,
        after.routed_names() == before.routed_names(),
        after == (AppState { router: after.router, ..before }),
{
    let models = before.routed_names();
    let n = models.len() as int;
    let cursor = before.router->Some_0.cursor as int;
    let records = before.model_stats.records();
    let threshold = before.model_stats.spike_threshold_us;
    let d = if other >= cursor {
        other - cursor
    } else {
        other - cursor + n
    };
    assert(ring(cursor, d, n) == other);
    lemma_nearest(models, cursor, records, threshold, 0, d);
    let idx = turn_of(models, cursor, records, threshold);
    assert(models[idx] == models[idx]);
    assert(offered_model(before) == Some(models[idx]));
}

proof fn lemma_nearest(
    models: Seq<Seq<char>>,
    cursor: int,
    records: Map<Seq<char>, ModelRecord>,
    threshold: u64,
    from: int,
    d: int,
)
    requires
        0 <= cursor < models.len(),
        0 <= from <= d < models.len(),
    ensures
        usable_step(models, cursor, records, threshold, from) matches Some(s) ==> {
            &&& from <= s < models.len()
            &&& !record_degraded(
                record_of(records, models[ring(cursor, s, models.len() as int)]),
                threshold,
            )
        },
        !record_degraded(
            record_of(records, models[ring(cursor, d, models.len() as int)]),
            threshold,
        ) ==> (usable_step(models, cursor, records, threshold, from) matches Some(s) && s <= d),
    decreases models.len() - from,
{
    if record_degraded(
        record_of(records, models[ring(cursor, from, models.len() as int)]),
        threshold,
    ) {
        if from < d {
            lemma_nearest(models, cursor, records, threshold, from + 1, d);
        } else if from + 1 < models.len() {
            lemma_nearest(models, cursor, records, threshold, from + 1, from + 1);
        }
    }
}

// ---------------------------------------------------------------------------------------
// Who is tried
// ---------------------------------------------------------------------------------------

/// The choices of models go through a list from front to back: what is chosen of two lists in a
/// row is what is chosen of the first, then of the second; and a single model is chosen by
/// itself.
pub proof fn law_choices_keep_the_order(
    a: Seq<Seq<char>>,
    b: Seq<Seq<char>>,
    m: Seq<char>,
    records: Map<Seq<char>, ModelRecord>,
    threshold: u64,
    fast: Seq<Seq<char>>,
    fallback: Seq<Seq<char>>,
)
    ensures
        usable(a + b, records, threshold) == usable(a, records, threshold) + usable(
            b,
            records,
            threshold,
        ),
        among(a + b, fast) == among(a, fast) + among(b, fast),
        not_among(a + b, fast) == not_among(a, fast) + not_among(b, fast),
        fallbacks(a + b, fast, fallback) == fallbacks(a, fast, fallback) + fallbacks(
            b,
            fast,
            fallback,
        ),
        usable(seq![m], records, threshold) == (if record_degraded(
            record_of(records, m),
            threshold,
        ) {
            Seq::empty()
        } else {
            seq![m]
        }),
        among(seq![m], fast) == (if fast.contains(m) {
            seq![m]
        } else {
            Seq::empty()
        }),
        not_among(seq![m], fast) == (if fast.contains(m) {
            Seq::empty()
        } else {
            seq![m]
        }),
        fallbacks(seq![m], fast, fallback) == (if fast.contains(m) && !fallback.contains(m) {
            Seq::empty()
        } else {
            seq![m]
        }),
    decreases b.len(),
{
    reveal_with_fuel(usable, 2);
    reveal_with_fuel(among, 2);
    reveal_with_fuel(not_among, 2);
    reveal_with_fuel(fallbacks, 2);
    let one = seq![m];
    assert(one.drop_last() =~= Seq::<Seq<char>>::empty());
    assert(Seq::<Seq<char>>::empty().push(m) =~= one);
    if b.len() == 0 {
        assert(a + b =~= a);
        assert(usable(a, records, threshold) + usable(b, records, threshold) =~= usable(
            a,
            records,
            threshold,
        ));
        assert(among(a, fast) + among(b, fast) =~= among(a, fast));
        assert(not_among(a, fast) + not_among(b, fast) =~= not_among(a, fast));
        assert(fallbacks(a, fast, fallback) + fallbacks(b, fast, fallback) =~= fallbacks(
            a,
            fast,
            fallback,
        ));
    } else {
        let rest = b.drop_last();
        let x = b.last();
        law_choices_keep_the_order(a, rest, m, records, threshold, fast, fallback);
        assert((a + b).drop_last() =~= a + rest);
        assert((a + b).last() == x);
        let u = usable(a, records, threshold);
        let v = usable(rest, records, threshold);
        assert((u + v).push(x) =~= u + v.push(x));
        assert((among(a, fast) + among(rest, fast)).push(x) =~= among(a, fast) + among(
            rest,
            fast,
        ).push(x));
        assert((not_among(a, fast) + not_among(rest, fast)).push(x) =~= not_among(a, fast)
            + not_among(rest, fast).push(x));
        assert((fallbacks(a, fast, fallback) + fallbacks(rest, fast, fallback)).push(x)
            =~= fallbacks(a, fast, fallback) + fallbacks(rest, fast, fallback).push(x));
    }
}

proof fn lemma_chosen_of(
    models: Seq<Seq<char>>,
    records: Map<Seq<char>, ModelRecord>,
    threshold: u64,
    fast: Seq<Seq<char>>,
    fallback: Seq<Seq<char>>,
)
    ensures
        forall|i: int|
            0 <= i < usable(among(models, fast), records, threshold).len() ==> fast.contains(
                #[trigger] usable(among(models, fast), records, threshold)[i],
            ),
        forall|i: int|
            0 <= i < usable(fallbacks(models, fast, fallback), records, threshold).len() ==> {
                let m = #[trigger] usable(fallbacks(models, fast, fallback), records, threshold)[i];
                fallback.contains(m) || !fast.contains(m)
            },
    decreases models.len(),
{
    if models.len() > 0 {
        let rest = models.drop_last();
        let x = models.last();
        lemma_chosen_of(rest, records, threshold, fast, fallback);
        let a0 = usable(among(rest, fast), records, threshold);
        let a = usable(among(models, fast), records, threshold);
        if fast.contains(x) {
            assert(among(models, fast).drop_last() =~= among(rest, fast));
        }
        assert forall|i: int| 0 <= i < a.len() implies fast.contains(#[trigger] a[i]) by {
            if i < a0.len() {
                assert(a[i] == a0[i]);
            }
        }
        let f0 = usable(fallbacks(rest, fast, fallback), records, threshold);
        let f = usable(fallbacks(models, fast, fallback), records, threshold);
        if fallback.contains(x) || !fast.contains(x) {
            assert(fallbacks(models, fast, fallback).drop_last() =~= fallbacks(
                rest,
                fast,
                fallback,
            ));
        }
        assert forall|i: int| 0 <= i < f.len() implies {
            let m = #[trigger] f[i];
            fallback.contains(m) || !fast.contains(m)
        } by {
            if i < f0.len() {
                assert(f[i] == f0[i]);
            }
        }
    }
}

/// Where racing adapts and there are fast models, no other model is tried before one of them.
pub proof fn law_fast_models_come_first(
    state: AppState,
    models: Seq<Seq<char>>,
    max_parallel: usize,
    i: int,
    j: int,
)
    requires
        state.controls.racing_adaptive,
        names(state.controls.racing_fast_models@).len() > 0,
        0 <= i < j < candidates_for(state, models, max_parallel).len(),
        names(state.controls.racing_fast_models@).contains(
            candidates_for(state, models, max_parallel)[j],
        ),
        !names(state.controls.racing_fallback_models@).contains(
            candidates_for(state, models, max_parallel)[j],
        ),
    ensures
        names(state.controls.racing_fast_models@).contains(
            candidates_for(state, models, max_parallel)[i],
        ),
{
    let records = state.model_stats.records();
    let threshold = state.model_stats.spike_threshold_us;
    let fast = names(state.controls.racing_fast_models@);
    let fallback = names(state.controls.racing_fallback_models@);
    lemma_chosen_of(models, records, threshold, fast, fallback);
    let a = usable(among(models, fast), records, threshold);
    let b = usable(fallbacks(models, fast, fallback), records, threshold);
    let list = candidates_for(state, models, max_parallel);
    assert(list[j] == (a + b)[j]);
    assert(list[i] == (a + b)[i]);
    if j >= a.len() {
        assert(list[j] == b[j - a.len()]);
    }
    assert(list[i] == a[i]);
}

/// Where racing does not adapt or there are no fast models, the models that are not to be
/// avoided are tried in the order of the list, as many as allowed.
pub proof fn law_candidates_are_the_first_usable(
    state: AppState,
    models: Seq<Seq<char>>,
    max_parallel: usize,
)
    requires
        !state.controls.racing_adaptive || state.controls.racing_fast_models@.len() == 0,
    ensures
        ({
            let all = usable(
                models,
                state.model_stats.records(),
                state.model_stats.spike_threshold_us,
            );
            let list = candidates_for(state, models, max_parallel);
            &&& list.len() == (if all.len() <= max_parallel {
                all.len() as int
            } else {
                max_parallel as int
            })
            &&& forall|i: int| 0 <= i < list.len() ==> #[trigger] list[i] == all[i]
        }),
{
}

/// Every model that is not to be avoided is among the candidates, where there are fewer of those
/// than allowed.
pub proof fn law_candidates_leave_none_out(
    state: AppState,
    models: Seq<Seq<char>>,
    max_parallel: usize,
    m: Seq<char>,
)
    requires
        models.contains(m),
        !avoided(state, m),
        candidates_for(state, models, max_parallel).len() < max_parallel,
    ensures
        candidates_for(state, models, max_parallel).contains(m),
{
    let records = state.model_stats.records();
    let threshold = state.model_stats.spike_threshold_us;
    let fast = names(state.controls.racing_fast_models@);
    let fallback = names(state.controls.racing_fallback_models@);
    let k = choose|k: int| 0 <= k < models.len() && models[k] == m;
    let front = models.take(k);
    let back = models.skip(k + 1);
    let one = seq![m];
    assert(models =~= (front + one) + back);
    law_choices_keep_the_order(front + one, back, m, records, threshold, fast, fallback);
    law_choices_keep_the_order(front, one, m, records, threshold, fast, fallback);
    let list = candidates_for(state, models, max_parallel);
    if !state.controls.racing_adaptive || fast.len() == 0 {
        let u = usable(front, records, threshold);
        assert(list == u + one + usable(back, records, threshold));
        assert(list[u.len() as int] == m);
    } else {
        let a = among(models, fast);
        let f = fallbacks(models, fast, fallback);
        let x = usable(a, records, threshold);
        let y = usable(f, records, threshold);
        assert(list == x + y);
        if fast.contains(m) {
            let p = among(front, fast);
            let q = among(back, fast);
            assert(a == (p + one) + q);
            law_choices_keep_the_order(p + one, q, m, records, threshold, fast, fallback);
            law_choices_keep_the_order(p, one, m, records, threshold, fast, fallback);
            let u = usable(p, records, threshold);
            assert(x == u + one + usable(q, records, threshold));
            assert(x[u.len() as int] == m);
            assert(list[u.len() as int] == m);
        } else {
            let p = fallbacks(front, fast, fallback);
            let q = fallbacks(back, fast, fallback);
            assert(f == (p + one) + q);
            law_choices_keep_the_order(p + one, q, m, records, threshold, fast, fallback);
            law_choices_keep_the_order(p, one, m, records, threshold, fast, fallback);
            let u = usable(p, records, threshold);
            assert(y == u + one + usable(q, records, threshold));
            assert(y[u.len() as int] == m);
            assert(list[(x.len() + u.len()) as int] == m);
        }
    }
}

// ---------------------------------------------------------------------------------------
// How many race
// ---------------------------------------------------------------------------------------

/// The lesser of two numbers.
pub open spec fn lesser(a: int, b: int) -> int {
    if a < b {
        a
    } else {
        b
    }
}

/// The larger of two numbers.
pub open spec fn larger(a: int, b: int) -> int {
    if a < b {
        b
    } else {
        a
    }
}

/// As many models race as are configured, as there are, and as the keys have room for, whichever
/// is the least. Where racing adapts that is so while all keys are active and less than a third
/// of their window is in use; from a third on the width for pressure counts in place of the
/// configured one, from two thirds on, or while a key pauses, the width for degradation; the
/// minimum width counts where it is larger. Without an active key none race.
pub proof fn law_racing_width(limits: RacingLimits, load: KeyLoad, candidates: usize)
    requires
        limits.max_parallel >= 2,
        candidates >= 2,
        load.available >= 2,
    ensures
        ({
            let width = parallel_for(limits, load, candidates) as int;
            let most = lesser(lesser(limits.max_parallel as int, candidates as int), load.available as int);
            let floor = lesser(lesser(limits.min_parallel as int, candidates as int), load.available as int);
            let used = load.window_capacity - load.available;
            let stressed = load.active_keys < load.keys || (used > 0 && 3 * (used + 1) > 2
                * load.window_capacity);
            let calm = !stressed && (used <= 0 || 3 * (used + 1) <= load.window_capacity);
            &&& !limits.adaptive ==> width == most
            &&& limits.adaptive && load.active_keys == 0 ==> width == 0
            &&& limits.adaptive && load.active_keys > 0 ==> {
                &&& calm ==> width == larger(most, floor)
                &&& stressed ==> width == larger(lesser(most, limits.degraded_parallel as int), floor)
                &&& !calm && !stressed ==> width == larger(
                    lesser(most, limits.pressure_parallel as int),
                    floor,
                )
            }
        }),
{
}

/// With fewer than two models to choose from, or room for fewer than two, there is no race.
pub proof fn law_narrow_races_do_not_happen(limits: RacingLimits, load: KeyLoad, candidates: usize)
    ensures
        limits.max_parallel < 2 || candidates < 2 || load.available < 2 ==> parallel_for(
            limits,
            load,
            candidates,
        ) < 2,
{
}

/// A large prompt caps the race, at one model at least; a prompt below the threshold, or no
/// threshold, does not.
pub proof fn law_large_prompts_cap_the_race(threshold: usize, parallel: usize, size: usize)
    ensures
        threshold > 0 && size >= threshold ==> (cap_for(threshold, parallel, size) matches Some(c)
            && c == larger(parallel as int, 1)),
        threshold == 0 || size < threshold ==> cap_for(threshold, parallel, size) is None,
{
}

/// The cap only ever makes a race narrower.
pub proof fn law_cap_narrows(state: AppState, candidates: usize, cap: usize, now_ms: u64)
    ensures
        race_width(state, candidates, None, now_ms) == parallel_for(
            limits_of(state),
            load_of(state, now_ms),
            candidates,
        ),
        race_width(state, candidates, Some(cap), now_ms) == lesser(
            race_width(state, candidates, None, now_ms) as int,
            cap as int,
        ),
{
}

/// A race is between at least two models of the list, none of them to be avoided and no more
/// than its width; nothing is noted of it yet.
pub proof fn law_planned_race(
    state: AppState,
    models: Seq<Seq<char>>,
    cap: Option<usize>,
    now_ms: u64,
    m: Seq<char>,
)
    requires
        race_plan(state, models, cap, now_ms).1 is Race,
        models.len() <= usize::MAX,
    ensures
        ({
            let racers = race_plan(state, models, cap, now_ms).1->Race_0;
            &&& 2 <= racers.len() <= race_width(state, models.len() as usize, cap, now_ms)
            &&& racers.contains(m) ==> models.contains(m) && !avoided(state, m)
        }),
        race_plan(state, models, cap, now_ms).0.len() == 0,
{
    let width = race_width(state, models.len() as usize, cap, now_ms);
    law_candidates_are_usable_models(state, rotated(models, state.racing_cursor), width, m);
    crate::candidates::law_rotation_keeps_models(models, state.racing_cursor);
}

/// Without a race models are tried one after the other, where that is allowed and there are any,
/// one that could have raced first of all; else the client is told why: that no key is active,
/// that the gateway is full, or that there are too few models.
pub proof fn law_race_that_does_not_happen(
    state: AppState,
    models: Seq<Seq<char>>,
    cap: Option<usize>,
    now_ms: u64,
    m: Seq<char>,
)
    requires
        !(race_plan(state, models, cap, now_ms).1 is Race),
        models.len() <= usize::MAX,
    ensures
        ({
            let (noted, plan) = race_plan(state, models, cap, now_ms);
            let width = race_width(state, models.len() as usize, cap, now_ms);
            let resting = forall|i: int|
                0 <= i < state.pool.slots@.len() ==> (#[trigger] state.pool.slots@[i]).cooldown_until_ms
                    > now_ms;
            match plan {
                RacePlanView::Solo(list) => {
                    &&& state.controls.racing_solo_fallback
                    &&& list.len() > 0
                    &&& list.contains(m) ==> models.contains(m) && !avoided(state, m)
                    &&& width < 2 ==> list == solo_candidates(state, models)
                    &&& width >= 2 ==> {
                        let racers = candidates_for(
                            state,
                            rotated(models, state.racing_cursor),
                            width,
                        );
                        &&& racers.len() < 2
                        &&& racers.len() == 1 ==> list[0] == racers[0]
                        &&& list.contains(m) <==> racers.contains(m) || solo_candidates(
                            state,
                            models,
                        ).contains(m)
                    }
                    &&& noted.len() == 1
                    &&& noted[0] == Effect::<Seq<char>>::Fanout(1)
                },
                RacePlanView::Finish(reply) => {
                    &&& !state.controls.racing_solo_fallback || solo_candidates(state, models).len()
                        == 0
                    &&& width < 2 && resting ==> noted.len() == 1 && noted[0] is NoKey && reply == (
                    ReplyView::Text { status: 429, message: "all API keys rate-limited"@ })
                    &&& width < 2 && !resting ==> noted.len() == 1 && noted[0] is Overload && reply
                        == (ReplyView::Text {
                        status: 503,
                        message: "gateway overloaded; retry later"@,
                    })
                    &&& width >= 2 ==> noted.len() == 0 && reply == (ReplyView::Text {
                        status: 502,
                        message: "not enough viable racing models"@,
                    })
                },
                RacePlanView::Race(_) => false,
            }
        }),
{
    let width = race_width(state, models.len() as usize, cap, now_ms);
    let order = rotated(models, state.racing_cursor);
    let racers = candidates_for(state, order, width);
    let solo = solo_candidates(state, models);
    law_key_counts_tell_of_some_key(state.pool.slots@, now_ms);
    law_candidates_are_usable_models(state, order, width, m);
    law_candidates_are_usable_models(
        state,
        models,
        crate::candidates::greatest(models.len() as usize, 1),
        m,
    );
    crate::candidates::law_rotation_keeps_models(models, state.racing_cursor);
    law_merged_names_stand_once(racers, solo, m);
    if racers.len() == 1 {
        assert(merged_names(racers, solo).take(1)[0] == racers[0]);
    }
}

/// A race in which a model started is waited for, and its width is noted. Where none started,
/// models are tried one after the other, if that is allowed and there are any; else the client
/// is told why none started.
pub proof fn law_start_of_a_race(state: AppState, models: Seq<Seq<char>>, lineup: Lineup)
    ensures
        ({
            let (noted, start) = race_started(state, models, lineup);
            let solo = solo_candidates(state, models);
            let again = state.controls.racing_solo_fallback && solo.len() > 0;
            &&& noted.len() > 0
            &&& noted[0] == Effect::<Seq<char>>::Fanout(lineup.started)
            &&& lineup.started > 0 <==> start == RaceStartView::Wait
            &&& lineup.started > 0 ==> noted.len() == 1
            &&& lineup.started == 0 && again ==> start == RaceStartView::Solo(solo) && noted.len()
                == 2 && noted[1] == Effect::<Seq<char>>::Fanout(1)
            &&& lineup.started == 0 && !again && lineup.skipped_no_key > 0 ==> noted.len() == 2
                && noted[1] is NoKey && start == RaceStartView::Finish(
                ReplyView::Text { status: 429, message: "all API keys rate-limited"@ },
            )
            &&& lineup.started == 0 && !again && lineup.skipped_no_key == 0
                && lineup.skipped_overloaded > 0 ==> noted.len() == 1 && start
                == RaceStartView::Finish(
                ReplyView::Text { status: 503, message: "gateway overloaded; retry later"@ },
            )
            &&& lineup.started == 0 && !again && lineup.skipped_no_key == 0
                && lineup.skipped_overloaded == 0 ==> noted.len() == 1 && start
                == RaceStartView::Finish(
                ReplyView::Text { status: 400, message: "no valid models to race"@ },
            )
        }),
{
}

/// The width of a race goes by the load of the keys as it is: by how many there are and are
/// active, by the places in their windows and by the free ones among them; and by the limits that
/// are set.
pub proof fn law_width_goes_by_the_load(state: AppState, now_ms: u64)
    ensures
        ({
            let load = load_of(state, now_ms);
            let limits = limits_of(state);
            let slots = state.pool.slots@;
            &&& slots.len() <= usize::MAX ==> load.keys == slots.len()
            &&& slots.len() <= usize::MAX ==> load.active_keys == active_slots(slots, now_ms)
            &&& total_window(slots, now_ms) <= usize::MAX ==> load.window_capacity == total_window(
                slots,
                now_ms,
            )
            &&& total_room(slots, now_ms) <= usize::MAX ==> load.available == total_room(
                slots,
                now_ms,
            )
            &&& limits.adaptive == state.controls.racing_adaptive
            &&& limits.max_parallel == state.racing_max_parallel
            &&& limits.min_parallel == state.controls.racing_min_parallel
            &&& limits.pressure_parallel == state.controls.racing_pressure_parallel
            &&& limits.degraded_parallel == state.controls.racing_degraded_parallel
        }),
{
    law_key_counts_tell_of_some_key(state.pool.slots@, now_ms);
}

/// A list that starts from a cursor goes on to the end and from the front again, one model after
/// the other.
pub proof fn law_rotation_goes_round(models: Seq<Seq<char>>, cursor: usize, i: int)
    requires
        cursor < models.len(),
        0 <= i < models.len(),
    ensures
        rotated(models, cursor).len() == models.len(),
        cursor + i < models.len() ==> rotated(models, cursor)[i] == models[cursor + i],
        cursor + i >= models.len() ==> rotated(models, cursor)[i] == models[cursor + i
            - models.len()],
{
    let n = models.len() as int;
    if cursor + i < n {
        vstd::arithmetic::div_mod::lemma_small_mod((cursor + i) as nat, n as nat);
    } else {
        vstd::arithmetic::div_mod::lemma_small_mod((cursor + i - n) as nat, n as nat);
        vstd::arithmetic::div_mod::lemma_mod_add_multiples_vanish(cursor + i - n, n);
    }
}

/// Names that are merged stand once each: those of the first list in front, as they are, then
/// those of the second that the first lacks.
pub proof fn law_merged_names_stand_once(base: Seq<Seq<char>>, more: Seq<Seq<char>>, name: Seq<char>)
    ensures
        base.no_duplicates() ==> merged_names(base, more).no_duplicates(),
        merged_names(base, more).len() >= base.len(),
        merged_names(base, more).take(base.len() as int) == base,
        merged_names(base, more).contains(name) <==> base.contains(name) || more.contains(name),
        base.contains(name) ==> merged_names(base, more.push(name)) == merged_names(base, more),
    decreases more.len(),
{
    let all = merged_names(base, more);
    lemma_merged_names_contain(base, more, name);
    assert(more.push(name).drop_last() =~= more);
    if more.len() > 0 {
        let rest = more.drop_last();
        law_merged_names_stand_once(base, rest, name);
        let before = merged_names(base, rest);
        assert(all.take(base.len() as int) =~= before.take(base.len() as int));
        if base.no_duplicates() && !before.contains(more.last()) {
            assert forall|i: int, j: int| 0 <= i < all.len() && 0 <= j < all.len() && i != j implies all[i]
                != all[j] by {
                if i < before.len() && j < before.len() {
                    assert(before[i] != before[j]);
                }
                if i < before.len() {
                    assert(before.contains(before[i]));
                }
                if j < before.len() {
                    assert(before.contains(before[j]));
                }
            }
        }
    } else {
        assert(all.take(base.len() as int) =~= base);
    }
}

/// Names that are all new stand behind the others in the order in which they came.
pub proof fn law_new_names_follow_in_order(base: Seq<Seq<char>>, more: Seq<Seq<char>>)
    requires
        (base + more).no_duplicates(),
    ensures
        merged_names(base, more) == base + more,
    decreases more.len(),
{
    let all = base + more;
    if more.len() > 0 {
        let rest = more.drop_last();
        assert forall|i: int, j: int|
            0 <= i < (base + rest).len() && 0 <= j < (base + rest).len() && i != j implies (base
            + rest)[i] != (base + rest)[j] by {
            assert((base + rest)[i] == all[i] && (base + rest)[j] == all[j]);
        }
        law_new_names_follow_in_order(base, rest);
        if (base + rest).contains(more.last()) {
            let i = choose|i: int| 0 <= i < (base + rest).len() && (base + rest)[i] == more.last();
            assert(all[i] == all[all.len() - 1]);
        }
        assert((base + rest).push(more.last()) =~= all);
    } else {
        assert(all =~= base);
    }
}

/// The configured models are those of the router, then those that race, then the others; none
/// stands twice, and one that the router names keeps its place there.
pub proof fn law_configured_models_keep_their_order(state: AppState)
    ensures
        state.configured_names().no_duplicates(),
        ({
            let routed = state.routed_names();
            let racing = names(state.racing_models@);
            let others = names(state.available_models@);
            let all = state.configured_names();
            &&& routed.no_duplicates() ==> routed.len() <= all.len() && all.take(
                routed.len() as int,
            ) == routed
            &&& (routed + racing).no_duplicates() ==> (routed + racing).len() <= all.len()
                && all.take((routed + racing).len() as int) == routed + racing
            &&& (routed + racing + others).no_duplicates() ==> all == routed + racing + others
        }),
{
    let none = Seq::<Seq<char>>::empty();
    let routed = state.routed_names();
    let racing = names(state.racing_models@);
    let others = names(state.available_models@);
    let one = merged_names(none, routed);
    let two = merged_names(one, racing);
    let all = merged_names(two, others);
    law_merged_names_stand_once(none, routed, Seq::empty());
    law_merged_names_stand_once(one, racing, Seq::empty());
    law_merged_names_stand_once(two, others, Seq::empty());
    assert(none + routed =~= routed);
    if routed.no_duplicates() {
        law_new_names_follow_in_order(none, routed);
        assert(all.take(routed.len() as int) =~= two.take(routed.len() as int)) by {
            assert(all.take(two.len() as int) == two);
            assert forall|i: int| 0 <= i < routed.len() implies all[i] == two[i] by {
                assert(all.take(two.len() as int)[i] == all[i]);
            }
        }
    }
    if (routed + racing + others).no_duplicates() {
        let ab = routed + racing;
        assert forall|i: int, j: int| 0 <= i < ab.len() && 0 <= j < ab.len() && i != j implies ab[i]
            != ab[j] by {
            assert((ab + others)[i] == ab[i] && (ab + others)[j] == ab[j]);
        }
    }
    if (routed + racing).no_duplicates() {
        let ab = routed + racing;
        assert forall|i: int, j: int|
            0 <= i < routed.len() && 0 <= j < routed.len() && i != j implies routed[i]
            != routed[j] by {
            assert(ab[i] == routed[i] && ab[j] == routed[j]);
        }
        law_new_names_follow_in_order(none, routed);
        law_new_names_follow_in_order(routed, racing);
    }
    if (routed + racing + others).no_duplicates() {
        law_new_names_follow_in_order(routed + racing, others);
    }
}

/// After a race the models come up in the order of the last time, but from behind as many as
/// raced; nothing else of the state has changed.
pub proof fn law_next_race_goes_on_behind(
    before: AppState,
    after: AppState,
    racers: nat,
    models: Seq<Seq<char>>,
    i: int,
)
    requires
        cursor_moved(before, after, racers, models.len()),
        models.len() <= usize::MAX,
        0 <= i < models.len(),
    ensures
        after.racing_cursor < models.len(),
        rotated(models, after.racing_cursor)[i] == rotated(models, before.racing_cursor)[(racers
            + i) % models.len() as int],
        after == (AppState { racing_cursor: after.racing_cursor, ..before }),
{
    let n = models.len() as int;
    let c = before.racing_cursor as int;
    vstd::arithmetic::div_mod::lemma_mod_bound(c + racers, n);
    vstd::arithmetic::div_mod::lemma_mod_bound(racers + i, n);
    vstd::arithmetic::div_mod::lemma_add_mod_noop_right(i, c + racers, n);
    vstd::arithmetic::div_mod::lemma_add_mod_noop_right(c, racers + i, n);
    assert(after.racing_cursor + i == i + (c + racers) % n);
    assert(i + (c + racers) == c + (racers + i));
}

} // verus!
