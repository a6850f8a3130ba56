//! Which models a request is sent to, and how many at a time.

use vstd::prelude::*;

use crate::pool::{active_slots, total_room, total_window};
use crate::number::clipped;
use crate::state::AppState;
use crate::stats::{first_of, record_degraded, record_of, usable, ModelRecord};
use crate::table::{has_name, lemma_names_push, names};
use crate::turn::{prompt_chars, prompt_size};
use crate::wire::json_parse;

verus! {

pub open spec fn least(a: usize, b: usize) -> usize {
    if a <= b {
        a
    } else {
        b
    }
}

pub open spec fn greatest(a: usize, b: usize) -> usize {
    if a >= b {
        a
    } else {
        b
    }
}

fn min_of(a: usize, b: usize) -> (r: usize)
    ensures
        r == least(a, b),
{
    if a <= b {
        a
    } else {
        b
    }
}

fn max_of(a: usize, b: usize) -> (r: usize)
    ensures
        r == greatest(a, b),
{
    if a >= b {
        a
    } else {
        b
    }
}

/// How busy the keys are.
pub struct KeyLoad {
    pub keys: usize,
    pub active_keys: usize,
    pub window_capacity: usize,
    pub available: usize,
}

/// How many requests may race.
pub struct RacingLimits {
    pub adaptive: bool,
    pub max_parallel: usize,
    pub min_parallel: usize,
    pub pressure_parallel: usize,
    pub degraded_parallel: usize,
}

/// The share of the window from which on the keys count as under pressure: a third.
pub open spec fn pressure_mark(capacity: usize) -> int {
    if capacity < 3 {
        1
    } else {
        capacity as int / 3
    }
}

/// The share of the window from which on the keys count as degraded: two thirds.
pub open spec fn degraded_mark(capacity: usize) -> int {
    if capacity < 2 {
        1
    } else {
        capacity as int * 2 / 3
    }
}

/// The number of requests in flight on the keys that are not cooling down.
pub open spec fn flights(load: KeyLoad) -> int {
    let capacity = greatest(load.window_capacity, 1);
    if capacity >= load.available {
        capacity - load.available
    } else {
        0
    }
}

/// How many requests the load suggests: fewer where a key cools down or two thirds of the
/// window are in use, somewhat fewer where a third is.
pub open spec fn suggested_parallel(
    limits: RacingLimits,
    load: KeyLoad,
    configured: usize,
) -> usize {
    let capacity = greatest(load.window_capacity, 1);
    if load.active_keys < load.keys || flights(load) >= degraded_mark(capacity) {
        limits.degraded_parallel
    } else if flights(load) >= pressure_mark(capacity) {
        limits.pressure_parallel
    } else {
        configured
    }
}

/// How many of `candidates` models race.
pub open spec fn parallel_for(limits: RacingLimits, load: KeyLoad, candidates: usize) -> usize {
    let configured = least(limits.max_parallel, candidates);
    if configured < 2 {
        configured
    } else if load.available < 2 {
        load.available
    } else if !limits.adaptive {
        least(configured, load.available)
    } else if load.active_keys == 0 {
        0
    } else {
        greatest(
            least(
                least(least(suggested_parallel(limits, load, configured), configured), candidates),
                load.available,
            ),
            least(least(limits.min_parallel, candidates), load.available),
        )
    }
}

/// Decides how many of `candidates` models race.
pub fn racing_parallel(limits: &RacingLimits, load: &KeyLoad, candidates: usize) -> (r: usize)
    ensures
        r == parallel_for(*limits, *load, candidates),
{
    let configured: usize = min_of(limits.max_parallel, candidates);
    if configured < 2 {
        return configured;
    }
    if load.available < 2 {
        return load.available;
    }
    if !limits.adaptive {
        return min_of(configured, load.available);
    }
    if load.active_keys == 0 {
        return 0;
    }
    let capacity: usize = max_of(load.window_capacity, 1);
    let in_flight: usize = capacity.saturating_sub(load.available);
    let pressure: usize = max_of(capacity / 3, 1);
    let degraded: usize = max_of(two_thirds(capacity), 1);
    let desired: usize = if load.active_keys < load.keys || in_flight >= degraded {
        limits.degraded_parallel
    } else if in_flight >= pressure {
        limits.pressure_parallel
    } else {
        configured
    };
    let floor: usize = min_of(min_of(limits.min_parallel, candidates), load.available);
    max_of(min_of(min_of(min_of(desired, configured), candidates), load.available), floor)
}

fn two_thirds(n: usize) -> (r: usize)
    ensures
        r == n as int * 2 / 3,
{
    let q: usize = n / 3;
    let rest: usize = n % 3;
    assert(n == q * 3 + rest);
    q * 2 + (rest * 2) / 3
}

/// The limits on racing that the state holds.
pub open spec fn limits_of(state: AppState) -> RacingLimits {
    RacingLimits {
        adaptive: state.controls.racing_adaptive,
        max_parallel: state.racing_max_parallel,
        min_parallel: state.controls.racing_min_parallel,
        pressure_parallel: state.controls.racing_pressure_parallel,
        degraded_parallel: state.controls.racing_degraded_parallel,
    }
}

/// The load of the state's keys.
pub open spec fn load_of(state: AppState, now_ms: u64) -> KeyLoad {
    KeyLoad {
        keys: state.pool.slots@.len() as usize,
        active_keys: active_slots(state.pool.slots@, now_ms) as usize,
        window_capacity: clipped(total_window(state.pool.slots@, now_ms)),
        available: clipped(total_room(state.pool.slots@, now_ms)),
    }
}

/// Decides how many of `candidate_count` models race, by the load of the keys.
pub fn adaptive_racing_parallel(state: &AppState, candidate_count: usize, now_ms: u64) -> (r: usize)
    ensures
        r == parallel_for(limits_of(*state), load_of(*state, now_ms), candidate_count),
{
    let limits: RacingLimits = RacingLimits {
        adaptive: state.controls.racing_adaptive,
        max_parallel: state.racing_max_parallel,
        min_parallel: state.controls.racing_min_parallel,
        pressure_parallel: state.controls.racing_pressure_parallel,
        degraded_parallel: state.controls.racing_degraded_parallel,
    };
    let load: KeyLoad = KeyLoad {
        keys: state.pool.len(),
        active_keys: state.pool.active_count(now_ms),
        window_capacity: state.pool.window_capacity(now_ms),
        available: state.pool.available_permits(now_ms),
    };
    racing_parallel(&limits, &load, candidate_count)
}

/// No more models race than there are, than are configured, or than the keys can take.
pub proof fn law_racing_stays_within_limits(
    limits: RacingLimits,
    load: KeyLoad,
    candidates: usize,
)
    ensures
        parallel_for(limits, load, candidates) <= candidates,
        least(limits.max_parallel, candidates) >= 2 ==> parallel_for(limits, load, candidates)
            <= load.available,
        limits.min_parallel <= limits.max_parallel ==> parallel_for(limits, load, candidates)
            <= limits.max_parallel || load.available < 2,
{
}

/// The cap that the size of a prompt sets on racing.
pub open spec fn cap_for(threshold: usize, parallel: usize, size: usize) -> Option<usize> {
    if threshold == 0 || size < threshold {
        None
    } else {
        Some(greatest(parallel, 1))
    }
}

/// The cap on racing for a prompt of a size: none below the threshold, or where there is no
/// threshold.
pub fn parallel_cap_for(threshold: usize, parallel: usize, size: usize) -> (r: Option<usize>)
    ensures
        r == cap_for(threshold, parallel, size),
{
    if threshold == 0 || size < threshold {
        None
    } else {
        Some(max_of(parallel, 1))
    }
}

/// The cap on racing that the prompt in the text of a request sets.
pub fn prompt_parallel_cap(state: &AppState, body: &[u8]) -> (r: Option<usize>)
    ensures
        r == cap_for(
            state.controls.racing_large_prompt_char_threshold,
            state.controls.racing_large_prompt_parallel,
            prompt_size(json_parse(body@)),
        ),
{
    if state.controls.racing_large_prompt_char_threshold == 0 {
        return None;
    }
    let size: usize = prompt_chars(body);
    parallel_cap_for(
        state.controls.racing_large_prompt_char_threshold,
        state.controls.racing_large_prompt_parallel,
        size,
    )
}

/// A list, started from a cursor and wrapped around.
pub open spec fn rotated(models: Seq<Seq<char>>, cursor: usize) -> Seq<Seq<char>> {
    Seq::new(models.len(), |i: int| models[(cursor + i) % models.len() as int])
}

/// Starts a list from a cursor, and wraps it around.
pub fn rotated_models(models: &Vec<String>, cursor: usize) -> (r: Vec<String>)
    ensures
        names(r@) == rotated(names(models@), cursor),
{
    let ghost v = names(models@);
    let n: usize = models.len();
    let mut out: Vec<String> = Vec::new();
    if n == 0 {
        assert(names(out@) =~= rotated(v, cursor));
        return out;
    }
    let start: usize = cursor % n;
    let mut i: usize = 0;
    assert(names(out@) =~= rotated(v, cursor).take(0));
    while i < n
        invariant
            n == v.len(),
            n > 0,
            v == names(models@),
            start == cursor as int % n as int,
            i <= n,
            names(out@) == rotated(v, cursor).take(i as int),
        decreases n - i,
    {
        let idx: usize = if i < n - start {
            start + i
        } else {
            i - (n - start)
        };
        proof {
            lemma_rotation(cursor as int, i as int, n as int);
        }
        let name: String = models[idx].clone();
        proof {
            lemma_names_push(out@, name);
            assert(rotated(v, cursor)[i as int] == name@);
            assert(rotated(v, cursor).take(i + 1) =~= rotated(v, cursor).take(i as int).push(
                name@,
            ));
        }
        out.push(name);
        i = i + 1;
    }
    assert(rotated(v, cursor).take(n as int) =~= rotated(v, cursor));
    out
}

proof fn lemma_rotation(cursor: int, i: int, n: int)
    requires
        0 <= cursor,
        0 <= i < n,
    ensures
        (cursor + i) % n == (if i < n - cursor % n {
            cursor % n + i
        } else {
            i - (n - cursor % n)
        }),
{
    let q = cursor / n;
    let c = cursor % n;
    vstd::arithmetic::div_mod::lemma_fundamental_div_mod(cursor, n);
    vstd::arithmetic::div_mod::lemma_mod_bound(cursor, n);
    assert(n * q == q * n) by (nonlinear_arith);
    if i < n - c {
        vstd::arithmetic::div_mod::lemma_fundamental_div_mod_converse(cursor + i, n, q, c + i);
    } else {
        assert((q + 1) * n == q * n + n) by (nonlinear_arith);
        vstd::arithmetic::div_mod::lemma_fundamental_div_mod_converse(
            cursor + i,
            n,
            q + 1,
            c + i - n,
        );
    }
}

/// A rotation holds the same models, each as often, and starts with the one at the cursor.
pub proof fn law_rotation_keeps_models(models: Seq<Seq<char>>, cursor: usize)
    ensures
        rotated(models, cursor).len() == models.len(),
        forall|m: Seq<char>| models.contains(m) <==> rotated(models, cursor).contains(m),
        models.len() > 0 ==> rotated(models, cursor)[0] == models[cursor as int % models.len() as int],
        cursor == 0 ==> rotated(models, cursor) == models,
{
    let r = rotated(models, cursor);
    let n = models.len() as int;
    if n > 0 {
        assert forall|m: Seq<char>| models.contains(m) implies r.contains(m) by {
            let k = choose|k: int| 0 <= k < n && models[k] == m;
            let c = cursor as int % n;
            let i = if k >= c {
                k - c
            } else {
                k - c + n
            };
            lemma_rotation(cursor as int, i, n);
            assert(r[i] == m);
        }
        assert forall|m: Seq<char>| r.contains(m) implies models.contains(m) by {
            let i = choose|i: int| 0 <= i < n && r[i] == m;
            lemma_rotation(cursor as int, i, n);
            assert(models[(cursor + i) % n] == m);
        }
        if cursor == 0 {
            assert forall|i: int| 0 <= i < n implies r[i] == models[i] by {
                lemma_rotation(0, i, n);
                vstd::arithmetic::div_mod::lemma_small_mod(0, n as nat);
            }
            assert(r =~= models);
        }
    } else {
        assert(r =~= models);
    }
}

/// The models of a list that are in another.
pub open spec fn among(models: Seq<Seq<char>>, list: Seq<Seq<char>>) -> Seq<Seq<char>>
    decreases models.len(),
{
    if models.len() == 0 {
        Seq::empty()
    } else {
        let before = among(models.drop_last(), list);
        if list.contains(models.last()) {
            before.push(models.last())
        } else {
            before
        }
    }
}

/// The models of a list that are fallbacks: named as such, or not named as fast.
pub open spec fn fallbacks(
    models: Seq<Seq<char>>,
    fast: Seq<Seq<char>>,
    fallback: Seq<Seq<char>>,
) -> Seq<Seq<char>>
    decreases models.len(),
{
    if models.len() == 0 {
        Seq::empty()
    } else {
        let before = fallbacks(models.drop_last(), fast, fallback);
        if fallback.contains(models.last()) || !fast.contains(models.last()) {
            before.push(models.last())
        } else {
            before
        }
    }
}

fn keep_among(models: &Vec<String>, list: &Vec<String>) -> (r: Vec<String>)
    ensures
        names(r@) == among(names(models@), names(list@)),
{
    let ghost v = names(models@);
    let ghost l = names(list@);
    let mut out: Vec<String> = Vec::new();
    let mut i: usize = 0;
    assert(v.take(0) =~= Seq::empty());
    assert(names(out@) =~= Seq::empty());
    while i < models.len()
        invariant
            v == names(models@),
            l == names(list@),
            i <= models@.len(),
            names(out@) == among(v.take(i as int), l),
        decreases models@.len() - i,
    {
        assert(v.take(i + 1).drop_last() =~= v.take(i as int));
        if has_name(list, models[i].as_str()) {
            let name: String = models[i].clone();
            proof {
                lemma_names_push(out@, name);
            }
            out.push(name);
        }
        i = i + 1;
    }
    assert(v.take(v.len() as int) =~= v);
    out
}

fn keep_fallbacks(models: &Vec<String>, fast: &Vec<String>, fallback: &Vec<String>) -> (r: Vec<
    String,
>)
    ensures
        names(r@) == fallbacks(names(models@), names(fast@), names(fallback@)),
{
    let ghost v = names(models@);
    let mut out: Vec<String> = Vec::new();
    let mut i: usize = 0;
    assert(v.take(0) =~= Seq::empty());
    assert(names(out@) =~= Seq::empty());
    while i < models.len()
        invariant
            v == names(models@),
            i <= models@.len(),
            names(out@) == fallbacks(v.take(i as int), names(fast@), names(fallback@)),
        decreases models@.len() - i,
    {
        assert(v.take(i + 1).drop_last() =~= v.take(i as int));
        if has_name(fallback, models[i].as_str()) || !has_name(fast, models[i].as_str()) {
            let name: String = models[i].clone();
            proof {
                lemma_names_push(out@, name);
            }
            out.push(name);
        }
        i = i + 1;
    }
    assert(v.take(v.len() as int) =~= v);
    out
}

/// The models of a list to send a request to, by the state.
pub open spec fn candidates_for(
    state: AppState,
    models: Seq<Seq<char>>,
    max_parallel: usize,
) -> Seq<Seq<char>> {
    let records = state.model_stats.records();
    let threshold = state.model_stats.spike_threshold_us;
    let fast = names(state.controls.racing_fast_models@);
    let fallback = names(state.controls.racing_fallback_models@);
    if !state.controls.racing_adaptive || fast.len() == 0 {
        first_of(usable(models, records, threshold), max_parallel)
    } else {
        first_of(
            usable(among(models, fast), records, threshold) + usable(
                fallbacks(models, fast, fallback),
                records,
                threshold,
            ),
            max_parallel,
        )
    }
}

/// Chooses the models of a list to send a request to. Where racing adapts and there are fast
/// models, those come first and the others behind them.
pub fn tiered_candidates(state: &AppState, rotated: &Vec<String>, max_parallel: usize) -> (r: Vec<
    String,
>)
    ensures
        names(r@) == candidates_for(*state, names(rotated@), max_parallel),
{
    if !state.controls.racing_adaptive || state.controls.racing_fast_models.len() == 0 {
        return state.model_stats.racing_candidates(rotated, max_parallel);
    }
    let fast: Vec<String> = keep_among(rotated, &state.controls.racing_fast_models);
    let fallback: Vec<String> = keep_fallbacks(
        rotated,
        &state.controls.racing_fast_models,
        &state.controls.racing_fallback_models,
    );
    state.model_stats.racing_candidates_tiered(&fast, &fallback, max_parallel)
}

/// The models of a list to try one after the other.
pub open spec fn solo_candidates(state: AppState, models: Seq<Seq<char>>) -> Seq<Seq<char>> {
    candidates_for(state, models, greatest(models.len() as usize, 1))
}

/// Chooses the models of a list to try one after the other.
pub fn solo_candidate_models(state: &AppState, models: &Vec<String>) -> (r: Vec<String>)
    ensures
        names(r@) == solo_candidates(*state, names(models@)),
{
    tiered_candidates(state, models, max_of(models.len(), 1))
}

/// The first of the models of a list to try.
pub fn solo_candidate_model(state: &AppState, models: &Vec<String>) -> (r: Option<String>)
    ensures
        match r {
            Some(m) => solo_candidates(*state, names(models@)).len() > 0 && m@ == solo_candidates(
                *state,
                names(models@),
            )[0],
            None => solo_candidates(*state, names(models@)).len() == 0,
        },
{
    let list: Vec<String> = solo_candidate_models(state, models);
    let ghost v = names(list@);
    if list.len() > 0 {
        assert(v[0] == list@[0]@);
        Some(list[0].clone())
    } else {
        None
    }
}

proof fn lemma_usable(
    models: Seq<Seq<char>>,
    records: Map<Seq<char>, ModelRecord>,
    threshold: u64,
    m: Seq<char>,
)
    ensures
        usable(models, records, threshold).contains(m) <==> models.contains(m) && !record_degraded(
            record_of(records, m),
            threshold,
        ),
    decreases models.len(),
{
    let all = usable(models, records, threshold);
    if models.len() > 0 {
        let rest = models.drop_last();
        let before = usable(rest, records, threshold);
        lemma_usable(rest, records, threshold, m);
        lemma_contains_last(models, m);
        if !record_degraded(record_of(records, models.last()), threshold) {
            assert(all.drop_last() =~= before);
            lemma_contains_last(all, m);
        }
    }
}

proof fn lemma_contains_last(models: Seq<Seq<char>>, m: Seq<char>)
    requires
        models.len() > 0,
    ensures
        models.contains(m) <==> models.drop_last().contains(m) || models.last() == m,
{
    let rest = models.drop_last();
    if models.contains(m) {
        let k = choose|k: int| 0 <= k < models.len() && models[k] == m;
        if k < rest.len() {
            assert(rest[k] == m);
        }
    }
    if rest.contains(m) {
        let k = choose|k: int| 0 <= k < rest.len() && rest[k] == m;
        assert(models[k] == m);
    }
    if models.last() == m {
        assert(models[models.len() - 1] == m);
    }
}

proof fn lemma_tiers(
    models: Seq<Seq<char>>,
    fast: Seq<Seq<char>>,
    fallback: Seq<Seq<char>>,
    m: Seq<char>,
)
    ensures
        among(models, fast).contains(m) <==> models.contains(m) && fast.contains(m),
        fallbacks(models, fast, fallback).contains(m) <==> models.contains(m) && (fallback.contains(
            m,
        ) || !fast.contains(m)),
    decreases models.len(),
{
    if models.len() > 0 {
        let rest = models.drop_last();
        lemma_tiers(rest, fast, fallback, m);
        lemma_contains_last(models, m);
        let a = among(models, fast);
        if fast.contains(models.last()) {
            assert(a.drop_last() =~= among(rest, fast));
            lemma_contains_last(a, m);
        }
        let f = fallbacks(models, fast, fallback);
        if fallback.contains(models.last()) || !fast.contains(models.last()) {
            assert(f.drop_last() =~= fallbacks(rest, fast, fallback));
            lemma_contains_last(f, m);
        }
    }
}

/// A request is sent to no more models than allowed, to models of the list only, and to none
/// that is to be avoided.
pub proof fn law_candidates_are_usable_models(
    state: AppState,
    models: Seq<Seq<char>>,
    max_parallel: usize,
    m: Seq<char>,
)
    ensures
        candidates_for(state, models, max_parallel).len() <= max_parallel,
        candidates_for(state, models, max_parallel).contains(m) ==> models.contains(m)
            && !record_degraded(
            record_of(state.model_stats.records(), m),
            state.model_stats.spike_threshold_us,
        ),
{
    let records = state.model_stats.records();
    let threshold = state.model_stats.spike_threshold_us;
    let fast = names(state.controls.racing_fast_models@);
    let fallback = names(state.controls.racing_fallback_models@);
    let chosen = candidates_for(state, models, max_parallel);
    lemma_usable(models, records, threshold, m);
    lemma_usable(among(models, fast), records, threshold, m);
    lemma_usable(fallbacks(models, fast, fallback), records, threshold, m);
    lemma_tiers(models, fast, fallback, m);
    if chosen.contains(m) {
        let k = choose|k: int| 0 <= k < chosen.len() && chosen[k] == m;
        if !state.controls.racing_adaptive || fast.len() == 0 {
            assert(usable(models, records, threshold)[k] == m);
        } else {
            let a = usable(among(models, fast), records, threshold);
            let b = usable(fallbacks(models, fast, fallback), records, threshold);
            assert((a + b)[k] == m);
            if k < a.len() {
                assert(a[k] == m);
            } else {
                assert(b[k - a.len()] == m);
            }
        }
    }
}

/// Every model of the list that is not to be avoided is tried where models are tried one
/// after the other, if no model counts as fast and as fallback both.
pub proof fn law_solo_tries_every_usable_model(
    state: AppState,
    models: Seq<Seq<char>>,
    m: Seq<char>,
)
    requires
        models.len() <= usize::MAX,
        models.contains(m),
        !record_degraded(
            record_of(state.model_stats.records(), m),
            state.model_stats.spike_threshold_us,
        ),
        forall|x: Seq<char>| #[trigger]
            names(state.controls.racing_fast_models@).contains(x) ==> !names(
                state.controls.racing_fallback_models@,
            ).contains(x),
    ensures
        solo_candidates(state, models).contains(m),
{
    let records = state.model_stats.records();
    let threshold = state.model_stats.spike_threshold_us;
    let fast = names(state.controls.racing_fast_models@);
    let fallback = names(state.controls.racing_fallback_models@);
    if !state.controls.racing_adaptive || fast.len() == 0 {
        lemma_usable(models, records, threshold, m);
        lemma_usable_len(models, records, threshold);
    } else {
        let a = usable(among(models, fast), records, threshold);
        let b = usable(fallbacks(models, fast, fallback), records, threshold);
        lemma_tiers(models, fast, fallback, m);
        lemma_tier_lens(models, fast, fallback);
        lemma_usable(among(models, fast), records, threshold, m);
        lemma_usable(fallbacks(models, fast, fallback), records, threshold, m);
        lemma_usable_len(among(models, fast), records, threshold);
        lemma_usable_len(fallbacks(models, fast, fallback), records, threshold);
        assert(solo_candidates(state, models) == a + b);
        if fast.contains(m) {
            let k = choose|k: int| 0 <= k < a.len() && a[k] == m;
            assert((a + b)[k] == m);
        } else {
            let k = choose|k: int| 0 <= k < b.len() && b[k] == m;
            assert((a + b)[a.len() + k] == m);
        }
    }
}

proof fn lemma_tier_lens(
    models: Seq<Seq<char>>,
    fast: Seq<Seq<char>>,
    fallback: Seq<Seq<char>>,
)
    requires
        forall|x: Seq<char>| #[trigger] fast.contains(x) ==> !fallback.contains(x),
    ensures
        among(models, fast).len() + fallbacks(models, fast, fallback).len() == models.len(),
    decreases models.len(),
{
    if models.len() > 0 {
        lemma_tier_lens(models.drop_last(), fast, fallback);
    }
}

proof fn lemma_usable_len(
    models: Seq<Seq<char>>,
    records: Map<Seq<char>, ModelRecord>,
    threshold: u64,
)
    ensures
        usable(models, records, threshold).len() <= models.len(),
    decreases models.len(),
{
    if models.len() > 0 {
        lemma_usable_len(models.drop_last(), records, threshold);
    }
}

} // verus!
