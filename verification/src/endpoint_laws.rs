//! What holds of what the gateway says of itself.

use vstd::prelude::*;

use crate::effect::ReplyView;
use crate::endpoints::{
    asked_in_turn, cooldown_left, gateway_json, health_json, json_reply, key_hint, key_json,
    models_json, props_json, record_json, stats_json, ModelNumbers,
};
use crate::json::{JsonView, Num};
use crate::key_laws::{law_key_counts_tell_of_some_key, law_next_active_key_is_the_nearest};
use crate::metrics::wins_of;
use crate::pool::{active_slots, first_active, ring, total_room, total_window, KeySlot};
use crate::state::AppState;
use crate::stats::{record_degraded, record_of, ModelRecord};
use crate::table::names;
use crate::wire::json_text;

verus! {

/// Whether a member of an object is a number.
pub open spec fn shows(j: JsonView, key: Seq<char>, n: int) -> bool {
    j.get(key) matches Some(JsonView::Number(Num::Unsigned(x))) && x == n
}

/// Whether a member of an object is a truth value.
pub open spec fn says(j: JsonView, key: Seq<char>, b: bool) -> bool {
    j.get(key) == Some(JsonView::Bool(b))
}

/// Whether a member of an object is a list of names.
pub open spec fn lists(j: JsonView, key: Seq<char>, list: Seq<Seq<char>>) -> bool {
    j.get(key) matches Some(JsonView::Arr(items)) && items.len() == list.len() && forall|i: int|
        0 <= i < list.len() ==> #[trigger] items[i] == JsonView::Str(list[i])
}

// ---------------------------------------------------------------------------------------
// Models
// ---------------------------------------------------------------------------------------

/// The names of the members that tell of a model.
proof fn lemma_model_names()
    ensures
        "data"@.len() == 4,
        "id"@.len() == 2,
        "object"@.len() == 6,
        "owned_by"@.len() == 8,
{
    reveal_strlit("data");
    reveal_strlit("id");
    reveal_strlit("object");
    reveal_strlit("owned_by");
}

/// The list of models names each model in its order, as a model of the gateway.
pub proof fn law_models_are_listed(list: Seq<Seq<char>>, i: int)
    requires
        0 <= i < list.len(),
    ensures
        models_json(list).get("object"@) == Some(JsonView::Str("list"@)),
        models_json(list).get("data"@) matches Some(JsonView::Arr(data)) && data.len()
            == list.len() && data[i].get("id"@) == Some(JsonView::Str(list[i])) && data[i].get(
            "object"@,
        ) == Some(JsonView::Str("model"@)) && data[i].get("owned_by"@) == Some(
            JsonView::Str("nimaproxy"@),
        ),
{
    lemma_model_names();
}

// ---------------------------------------------------------------------------------------
// Keys
// ---------------------------------------------------------------------------------------

/// What is shown of a key is three dots and its last four characters; of a key that has no more
/// than four nothing but the dots.
pub proof fn law_keys_are_not_shown(key: Seq<char>)
    ensures
        key_hint(key).len() <= 7,
        key.len() <= 4 ==> key_hint(key) == "..."@,
        key.len() > 4 ==> key_hint(key).len() == 7 && key_hint(key).take(3) == "..."@
            && key_hint(key).skip(3) == key.skip(key.len() - 4),
{
    reveal_strlit("...");
    assert("..."@.len() == 3);
    if key.len() > 4 {
        assert(key_hint(key).take(3) =~= "..."@);
        assert(key_hint(key).skip(3) =~= key.skip(key.len() - 4));
    }
}

/// The names of the members that tell of a key.
proof fn lemma_key_names()
    ensures
        "label"@.len() == 5,
        "key_hint"@.len() == 8,
        "active"@.len() == 6,
        "cooldown_secs_remaining"@.len() == 23,
        "in_flight"@.len() == 9,
        "max_in_flight"@.len() == 13,
        "configured_max_in_flight"@.len() == 24,
{
    reveal_strlit("label");
    reveal_strlit("key_hint");
    reveal_strlit("active");
    reveal_strlit("cooldown_secs_remaining");
    reveal_strlit("in_flight");
    reveal_strlit("max_in_flight");
    reveal_strlit("configured_max_in_flight");
}

/// A key is shown with its label, its hint, its window and its load; it is active exactly while
/// its pause is over, and else shown with the whole seconds that are left of it.
pub proof fn law_key_is_shown(slot: KeySlot, now_ms: u64)
    ensures
        ({
            let j = key_json(slot, now_ms);
            &&& j.get("label"@) == Some(
                match slot.label {
                    Some(s) => JsonView::Str(s@),
                    None => JsonView::Null,
                },
            )
            &&& j.get("key_hint"@) == Some(JsonView::Str(key_hint(slot.key@)))
            &&& says(j, "active"@, slot.cooldown_until_ms <= now_ms)
            &&& slot.cooldown_until_ms <= now_ms ==> shows(j, "cooldown_secs_remaining"@, 0)
            &&& slot.cooldown_until_ms > now_ms ==> exists|secs: int| #[trigger]
                shows(j, "cooldown_secs_remaining"@, secs) && secs * 1000 <= slot.cooldown_until_ms
                    - now_ms < (secs + 1) * 1000
            &&& shows(j, "in_flight"@, slot.in_flight as int)
            &&& shows(j, "max_in_flight"@, slot.max_in_flight as int)
            &&& shows(j, "configured_max_in_flight"@, slot.configured_max_in_flight as int)
        }),
{
    lemma_key_names();
    let j = key_json(slot, now_ms);
    if slot.cooldown_until_ms > now_ms {
        let span = slot.cooldown_until_ms - now_ms;
        let secs = span / 1000;
        assert(secs * 1000 <= span < (secs + 1) * 1000);
        assert(cooldown_left(slot, now_ms) == secs);
        assert(shows(j, "cooldown_secs_remaining"@, secs));
    }
}

/// Whether a member of an object tells of every key in its order.
pub open spec fn tells_of_keys(j: JsonView, slots: Seq<KeySlot>, now_ms: u64) -> bool {
    j.get("keys"@) matches Some(JsonView::Arr(keys)) && keys.len() == slots.len() && forall|i: int|
        0 <= i < slots.len() ==> #[trigger] keys[i] == key_json(slots[i], now_ms)
}

/// The names of the members that tell of the state.
proof fn lemma_health_names()
    ensures
        "status"@.len() == 6,
        "keys_total"@.len() == 10,
        "keys_active"@.len() == 11,
        "keys"@.len() == 4,
        "gateway_in_flight"@.len() == 17,
        "gateway_limit"@.len() == 13,
        "key_window_capacity"@.len() == 19,
        "key_available_permits"@.len() == 21,
        "admission_wait_ms"@.len() == 17,
        "routing_enabled"@.len() == 15,
        "racing_enabled"@.len() == 14,
        "routing_models"@.len() == 14,
        "racing_models"@.len() == 13,
        "racing_max_parallel"@.len() == 19,
        "racing_timeout_ms"@.len() == 17,
        "racing_max_total_request_ms"@.len() == 27,
        "racing_adaptive"@.len() == 15,
        "racing_min_parallel"@.len() == 19,
        "racing_pressure_parallel"@.len() == 24,
        "racing_degraded_parallel"@.len() == 24,
        "racing_large_prompt_char_threshold"@.len() == 34,
        "racing_large_prompt_parallel"@.len() == 28,
        "racing_solo_fallback"@.len() == 20,
        "gateway_in_flight"@ != "admission_wait_ms"@,
        "gateway_in_flight"@ != "racing_timeout_ms"@,
        "gateway_limit"@ != "racing_models"@,
        "key_window_capacity"@ != "racing_max_parallel"@,
        "key_window_capacity"@ != "racing_min_parallel"@,
        "admission_wait_ms"@ != "racing_timeout_ms"@,
        "routing_enabled"@ != "racing_adaptive"@,
        "racing_enabled"@ != "routing_models"@,
        "racing_max_parallel"@ != "racing_min_parallel"@,
        "racing_pressure_parallel"@ != "racing_degraded_parallel"@,
{
    reveal_strlit("status");
    reveal_strlit("keys_total");
    reveal_strlit("keys_active");
    reveal_strlit("keys");
    reveal_strlit("gateway_in_flight");
    reveal_strlit("gateway_limit");
    reveal_strlit("key_window_capacity");
    reveal_strlit("key_available_permits");
    reveal_strlit("admission_wait_ms");
    reveal_strlit("routing_enabled");
    reveal_strlit("racing_enabled");
    reveal_strlit("routing_models");
    reveal_strlit("racing_models");
    reveal_strlit("racing_max_parallel");
    reveal_strlit("racing_timeout_ms");
    reveal_strlit("racing_max_total_request_ms");
    reveal_strlit("racing_adaptive");
    reveal_strlit("racing_min_parallel");
    reveal_strlit("racing_pressure_parallel");
    reveal_strlit("racing_degraded_parallel");
    reveal_strlit("racing_large_prompt_char_threshold");
    reveal_strlit("racing_large_prompt_parallel");
    reveal_strlit("racing_solo_fallback");
    assert("gateway_in_flight"@[0] == 'g');
    assert("admission_wait_ms"@[0] == 'a');
    assert("racing_timeout_ms"@[0] == 'r');
    assert("gateway_limit"@[0] == 'g');
    assert("racing_models"@[0] == 'r');
    assert("key_window_capacity"@[0] == 'k');
    assert("racing_max_parallel"@[0] == 'r');
    assert("racing_min_parallel"@[0] == 'r');
    assert("routing_enabled"@[1] == 'o');
    assert("racing_adaptive"@[1] == 'a');
    assert("racing_enabled"@[1] == 'a');
    assert("routing_models"@[1] == 'o');
    assert("racing_max_parallel"@[8] == 'a');
    assert("racing_min_parallel"@[8] == 'i');
    assert("racing_pressure_parallel"@[7] == 'p');
    assert("racing_degraded_parallel"@[7] == 'd');
}

/// The gateway is up exactly while some key is active; its state tells of every key, of the load
/// and of the limits as they are.
pub proof fn law_health_tells_the_state(state: AppState, now_ms: u64)
    ensures
        ({
            let j = health_json(state, now_ms);
            let slots = state.pool.slots@;
            let c = state.controls;
            let up = exists|i: int|
                0 <= i < slots.len() && (#[trigger] slots[i]).cooldown_until_ms <= now_ms;
            &&& j.get("status"@) == Some(
                JsonView::Str(
                    if up {
                        "UP"@
                    } else {
                        "DEGRADED"@
                    },
                ),
            )
            &&& slots.len() <= u64::MAX ==> shows(j, "keys_total"@, slots.len() as int)
            &&& slots.len() <= u64::MAX ==> shows(
                j,
                "keys_active"@,
                active_slots(slots, now_ms) as int,
            )
            &&& tells_of_keys(j, slots, now_ms)
            &&& shows(j, "gateway_in_flight"@, state.upstream_in_flight as int)
            &&& shows(j, "gateway_limit"@, c.max_upstream_in_flight as int)
            &&& total_window(slots, now_ms) <= usize::MAX ==> shows(
                j,
                "key_window_capacity"@,
                total_window(slots, now_ms) as int,
            )
            &&& total_room(slots, now_ms) <= usize::MAX ==> shows(
                j,
                "key_available_permits"@,
                total_room(slots, now_ms) as int,
            )
            &&& shows(j, "admission_wait_ms"@, c.admission_wait_ms as int)
            &&& says(j, "routing_enabled"@, state.routed_names().len() > 0)
            &&& says(j, "racing_enabled"@, state.racing_models@.len() > 0)
            &&& lists(j, "routing_models"@, state.routed_names())
            &&& lists(j, "racing_models"@, names(state.racing_models@))
            &&& shows(j, "racing_max_parallel"@, state.racing_max_parallel as int)
            &&& shows(j, "racing_timeout_ms"@, state.racing_timeout_ms as int)
            &&& shows(j, "racing_max_total_request_ms"@, c.racing_max_total_request_ms as int)
            &&& says(j, "racing_adaptive"@, c.racing_adaptive)
            &&& shows(j, "racing_min_parallel"@, c.racing_min_parallel as int)
            &&& shows(j, "racing_pressure_parallel"@, c.racing_pressure_parallel as int)
            &&& shows(j, "racing_degraded_parallel"@, c.racing_degraded_parallel as int)
            &&& shows(
                j,
                "racing_large_prompt_char_threshold"@,
                c.racing_large_prompt_char_threshold as int,
            )
            &&& shows(j, "racing_large_prompt_parallel"@, c.racing_large_prompt_parallel as int)
            &&& says(j, "racing_solo_fallback"@, c.racing_solo_fallback)
        }),
{
    lemma_health_names();
    law_key_counts_tell_of_some_key(state.pool.slots@, now_ms);
}

// ---------------------------------------------------------------------------------------
// Counters
// ---------------------------------------------------------------------------------------

/// The names of the members that tell of a record.
proof fn lemma_record_names()
    ensures
        "model"@.len() == 5,
        "avg_ms"@.len() == 6,
        "p95_ms"@.len() == 6,
        "total"@.len() == 5,
        "success"@.len() == 7,
        "success_rate"@.len() == 12,
        "sample_count"@.len() == 12,
        "consecutive_failures"@.len() == 20,
        "degraded"@.len() == 8,
        "model"@ != "total"@,
        "avg_ms"@ != "p95_ms"@,
        "success_rate"@ != "sample_count"@,
{
    reveal_strlit("model");
    reveal_strlit("avg_ms");
    reveal_strlit("p95_ms");
    reveal_strlit("total");
    reveal_strlit("success");
    reveal_strlit("success_rate");
    reveal_strlit("sample_count");
    reveal_strlit("consecutive_failures");
    reveal_strlit("degraded");
    assert("model"@[0] == 'm');
    assert("total"@[0] == 't');
    assert("avg_ms"@[0] == 'a');
    assert("p95_ms"@[0] == 'p');
    assert("success_rate"@[1] == 'u');
    assert("sample_count"@[1] == 'a');
}

/// The record of a model is shown as it is remembered, with whether the model is to be avoided.
pub proof fn law_record_is_shown(
    model: Seq<char>,
    r: ModelRecord,
    numbers: Option<ModelNumbers>,
    threshold: u64,
)
    ensures
        ({
            let j = record_json(model, r, numbers, threshold);
            &&& j.get("model"@) == Some(JsonView::Str(model))
            &&& shows(j, "total"@, r.total as int)
            &&& shows(j, "success"@, r.success as int)
            &&& shows(j, "sample_count"@, r.sample_count as int)
            &&& shows(j, "consecutive_failures"@, r.consecutive_failures as int)
            &&& says(j, "degraded"@, record_degraded(r, threshold))
            &&& match numbers {
                Some(n) => j.get("avg_ms"@) == Some(n.avg_ms@) && j.get("p95_ms"@) == Some(
                    n.p95_ms@,
                ) && j.get("success_rate"@) == Some(n.success_rate@),
                None => j.get("avg_ms"@) == Some(JsonView::Null) && j.get("p95_ms"@) == Some(
                    JsonView::Null,
                ) && j.get("success_rate"@) == Some(JsonView::Null),
            }
        }),
{
    lemma_record_names();
}

/// The names of the members that tell of the counters.
proof fn lemma_gateway_names()
    ensures
        "request_total"@.len() == 13,
        "direct_requests"@.len() == 15,
        "racing_requests"@.len() == 15,
        "upstream_attempts"@.len() == 17,
        "upstream_in_flight"@.len() == 18,
        "max_upstream_in_flight"@.len() == 22,
        "max_in_flight_per_key"@.len() == 21,
        "key_window_capacity"@.len() == 19,
        "key_available_permits"@.len() == 21,
        "admission_wait_ms"@.len() == 17,
        "overload_rejects"@.len() == 16,
        "no_key_rejects"@.len() == 14,
        "timeout_count"@.len() == 13,
        "rate_limit_count"@.len() == 16,
        "fanout_total"@.len() == 12,
        "fanout_samples"@.len() == 14,
        "fanout_avg"@.len() == 10,
        "solo_fallbacks"@.len() == 14,
        "sequential_fallbacks"@.len() == 20,
        "racing_all_failed"@.len() == 17,
        "racing_deadline_exceeded"@.len() == 24,
        "racing_wins"@.len() == 11,
        "request_total"@ != "timeout_count"@,
        "direct_requests"@ != "racing_requests"@,
        "upstream_attempts"@ != "admission_wait_ms"@,
        "upstream_attempts"@ != "racing_all_failed"@,
        "max_in_flight_per_key"@ != "key_available_permits"@,
        "admission_wait_ms"@ != "racing_all_failed"@,
        "overload_rejects"@ != "rate_limit_count"@,
        "no_key_rejects"@ != "fanout_samples"@,
        "no_key_rejects"@ != "solo_fallbacks"@,
        "fanout_samples"@ != "solo_fallbacks"@,
{
    reveal_strlit("request_total");
    reveal_strlit("direct_requests");
    reveal_strlit("racing_requests");
    reveal_strlit("upstream_attempts");
    reveal_strlit("upstream_in_flight");
    reveal_strlit("max_upstream_in_flight");
    reveal_strlit("max_in_flight_per_key");
    reveal_strlit("key_window_capacity");
    reveal_strlit("key_available_permits");
    reveal_strlit("admission_wait_ms");
    reveal_strlit("overload_rejects");
    reveal_strlit("no_key_rejects");
    reveal_strlit("timeout_count");
    reveal_strlit("rate_limit_count");
    reveal_strlit("fanout_total");
    reveal_strlit("fanout_samples");
    reveal_strlit("fanout_avg");
    reveal_strlit("solo_fallbacks");
    reveal_strlit("sequential_fallbacks");
    reveal_strlit("racing_all_failed");
    reveal_strlit("racing_deadline_exceeded");
    reveal_strlit("racing_wins");
    assert("request_total"@[0] == 'r');
    assert("timeout_count"@[0] == 't');
    assert("direct_requests"@[0] == 'd');
    assert("racing_requests"@[0] == 'r');
    assert("upstream_attempts"@[0] == 'u');
    assert("admission_wait_ms"@[0] == 'a');
    assert("racing_all_failed"@[0] == 'r');
    assert("max_in_flight_per_key"@[0] == 'm');
    assert("key_available_permits"@[0] == 'k');
    assert("overload_rejects"@[0] == 'o');
    assert("rate_limit_count"@[0] == 'r');
    assert("no_key_rejects"@[0] == 'n');
    assert("fanout_samples"@[0] == 'f');
    assert("solo_fallbacks"@[0] == 's');
}

/// Every counter is shown under its name, with the load of the gateway and its limits.
pub proof fn law_counters_are_shown(
    state: AppState,
    fanout_avg: JsonView,
    now_ms: u64,
    model: Seq<char>,
)
    ensures
        ({
            let j = gateway_json(state, fanout_avg, now_ms);
            let m = state.metrics@;
            let c = state.controls;
            let slots = state.pool.slots@;
            &&& shows(j, "request_total"@, m.request_total as int)
            &&& shows(j, "direct_requests"@, m.direct_requests as int)
            &&& shows(j, "racing_requests"@, m.racing_requests as int)
            &&& shows(j, "upstream_attempts"@, m.upstream_attempts as int)
            &&& shows(j, "upstream_in_flight"@, state.upstream_in_flight as int)
            &&& shows(j, "max_upstream_in_flight"@, c.max_upstream_in_flight as int)
            &&& shows(j, "max_in_flight_per_key"@, c.max_in_flight_per_key as int)
            &&& total_window(slots, now_ms) <= usize::MAX ==> shows(
                j,
                "key_window_capacity"@,
                total_window(slots, now_ms) as int,
            )
            &&& total_room(slots, now_ms) <= usize::MAX ==> shows(
                j,
                "key_available_permits"@,
                total_room(slots, now_ms) as int,
            )
            &&& shows(j, "admission_wait_ms"@, c.admission_wait_ms as int)
            &&& shows(j, "overload_rejects"@, m.overload_rejects as int)
            &&& shows(j, "no_key_rejects"@, m.no_key_rejects as int)
            &&& shows(j, "timeout_count"@, m.timeout_count as int)
            &&& shows(j, "rate_limit_count"@, m.rate_limit_count as int)
            &&& shows(j, "fanout_total"@, m.fanout_total as int)
            &&& shows(j, "fanout_samples"@, m.fanout_samples as int)
            &&& j.get("fanout_avg"@) == Some(fanout_avg)
            &&& shows(j, "solo_fallbacks"@, m.solo_fallbacks as int)
            &&& shows(j, "sequential_fallbacks"@, m.sequential_fallbacks as int)
            &&& shows(j, "racing_all_failed"@, m.racing_all_failed as int)
            &&& shows(j, "racing_deadline_exceeded"@, m.racing_deadline_exceeded as int)
            &&& j.get("racing_wins"@) matches Some(wins) && if m.racing_wins.dom().contains(model) {
                shows(wins, model, wins_of(m.racing_wins, model) as int)
            } else {
                wins.get(model) is None
            }
        }),
{
    lemma_gateway_names();
}

/// The names of the members that tell what is remembered.
proof fn lemma_stats_names()
    ensures
        "models"@.len() == 6,
        "keys"@.len() == 4,
        "gateway"@.len() == 7,
        "racing_models"@.len() == 13,
        "racing_enabled"@.len() == 14,
        "racing_max_parallel"@.len() == 19,
        "racing_timeout_ms"@.len() == 17,
        "racing_max_total_request_ms"@.len() == 27,
        "racing_adaptive"@.len() == 15,
        "racing_min_parallel"@.len() == 19,
        "racing_pressure_parallel"@.len() == 24,
        "racing_degraded_parallel"@.len() == 24,
        "racing_large_prompt_char_threshold"@.len() == 34,
        "racing_large_prompt_parallel"@.len() == 28,
        "racing_solo_fallback"@.len() == 20,
        "racing_fast_models"@.len() == 18,
        "racing_fallback_models"@.len() == 22,
        "racing_max_parallel"@ != "racing_min_parallel"@,
        "racing_pressure_parallel"@ != "racing_degraded_parallel"@,
{
    reveal_strlit("models");
    reveal_strlit("keys");
    reveal_strlit("gateway");
    reveal_strlit("racing_models");
    reveal_strlit("racing_enabled");
    reveal_strlit("racing_max_parallel");
    reveal_strlit("racing_timeout_ms");
    reveal_strlit("racing_max_total_request_ms");
    reveal_strlit("racing_adaptive");
    reveal_strlit("racing_min_parallel");
    reveal_strlit("racing_pressure_parallel");
    reveal_strlit("racing_degraded_parallel");
    reveal_strlit("racing_large_prompt_char_threshold");
    reveal_strlit("racing_large_prompt_parallel");
    reveal_strlit("racing_solo_fallback");
    reveal_strlit("racing_fast_models");
    reveal_strlit("racing_fallback_models");
    assert("racing_max_parallel"@[8] == 'a');
    assert("racing_min_parallel"@[8] == 'i');
    assert("racing_pressure_parallel"@[7] == 'p');
    assert("racing_degraded_parallel"@[7] == 'd');
}

/// What is remembered is shown whole: every model in the order in which it was first used, with
/// its record; every key; the counters; and the settings of races as they are.
pub proof fn law_stats_tell_what_is_remembered(
    state: AppState,
    numbers: Map<Seq<char>, ModelNumbers>,
    fanout_avg: JsonView,
    now_ms: u64,
    i: int,
)
    requires
        0 <= i < state.model_stats.known().len(),
    ensures
        ({
            let j = stats_json(state, numbers, fanout_avg, now_ms);
            let c = state.controls;
            let known = state.model_stats.known();
            &&& j.get("models"@) matches Some(JsonView::Arr(records)) && records.len()
                == known.len() && records[i] == record_json(
                known[i],
                record_of(state.model_stats.records(), known[i]),
                if numbers.dom().contains(known[i]) {
                    Some(numbers[known[i]])
                } else {
                    None
                },
                state.model_stats.spike_threshold_us,
            )
            &&& tells_of_keys(j, state.pool.slots@, now_ms)
            &&& j.get("gateway"@) == Some(gateway_json(state, fanout_avg, now_ms))
            &&& lists(j, "racing_models"@, names(state.racing_models@))
            &&& says(j, "racing_enabled"@, state.racing_models@.len() > 0)
            &&& shows(j, "racing_max_parallel"@, state.racing_max_parallel as int)
            &&& shows(j, "racing_timeout_ms"@, state.racing_timeout_ms as int)
            &&& shows(j, "racing_max_total_request_ms"@, c.racing_max_total_request_ms as int)
            &&& says(j, "racing_adaptive"@, c.racing_adaptive)
            &&& shows(j, "racing_min_parallel"@, c.racing_min_parallel as int)
            &&& shows(j, "racing_pressure_parallel"@, c.racing_pressure_parallel as int)
            &&& shows(j, "racing_degraded_parallel"@, c.racing_degraded_parallel as int)
            &&& shows(
                j,
                "racing_large_prompt_char_threshold"@,
                c.racing_large_prompt_char_threshold as int,
            )
            &&& shows(j, "racing_large_prompt_parallel"@, c.racing_large_prompt_parallel as int)
            &&& says(j, "racing_solo_fallback"@, c.racing_solo_fallback)
            &&& lists(j, "racing_fast_models"@, names(c.racing_fast_models@))
            &&& lists(j, "racing_fallback_models"@, names(c.racing_fallback_models@))
        }),
{
    lemma_stats_names();
}

// ---------------------------------------------------------------------------------------
// Abilities
// ---------------------------------------------------------------------------------------

/// The names of the members that tell of the abilities.
proof fn lemma_props_names()
    ensures
        "contextWindow"@.len() == 13,
        "input"@.len() == 5,
        "supports_developer_role"@.len() == 23,
        "supports_tool_messages"@.len() == 22,
        "supports_tool_calls"@.len() == 19,
        "supports_embeddings"@.len() == 19,
        "supports_completions"@.len() == 20,
        "supported_roles"@.len() == 15,
        "tool_capabilities"@.len() == 17,
        "supports_tool_calls"@ != "supports_embeddings"@,
{
    reveal_strlit("contextWindow");
    reveal_strlit("input");
    reveal_strlit("supports_developer_role");
    reveal_strlit("supports_tool_messages");
    reveal_strlit("supports_tool_calls");
    reveal_strlit("supports_embeddings");
    reveal_strlit("supports_completions");
    reveal_strlit("supported_roles");
    reveal_strlit("tool_capabilities");
    assert("supports_tool_calls"@[9] == 't');
    assert("supports_embeddings"@[9] == 'e');
}

/// The gateway takes messages in every role that it says it takes, tools, embeddings and legacy
/// completions.
pub proof fn law_abilities_are_told()
    ensures
        ({
            let j = props_json();
            &&& shows(j, "contextWindow"@, 131072)
            &&& says(j, "input"@, true)
            &&& says(j, "supports_developer_role"@, true)
            &&& says(j, "supports_tool_messages"@, true)
            &&& says(j, "supports_tool_calls"@, true)
            &&& says(j, "supports_embeddings"@, true)
            &&& says(j, "supports_completions"@, true)
            &&& lists(
                j,
                "supported_roles"@,
                seq!["user"@, "assistant"@, "system"@, "tool"@, "developer"@, "function"@],
            )
        }),
{
    lemma_props_names();
}

// ---------------------------------------------------------------------------------------
// Answers
// ---------------------------------------------------------------------------------------

/// What the gateway says of itself is answered as JSON text, with success.
pub proof fn law_reports_are_json(j: JsonView)
    ensures
        json_reply(j) == (ReplyView::Forward {
            status: 200,
            content_type: "application/json"@,
            key_label: None,
            unbuffered: false,
            body: json_text(j),
        }),
{
}

/// Upstream is asked for its models with the key that is next in turn among the active ones; the
/// turn moves on behind it, and nothing else changes.
pub proof fn law_upstream_is_asked_in_turn(
    before: AppState,
    key: Seq<char>,
    now_ms: u64,
    after: AppState,
    other: int,
)
    requires
        before.pool.wf(),
        asked_in_turn(before, key, now_ms, after),
        0 <= other < before.pool.slots@.len(),
        before.pool.slots@[other].cooldown_until_ms <= now_ms,
    ensures
        after.pool.slots@ == before.pool.slots@,
        after == (AppState { pool: after.pool, ..before }),
        ({
            let slots = before.pool.slots@;
            let n = slots.len() as int;
            let cursor = before.pool.cursor as int;
            exists|idx: int|
                {
                    &&& 0 <= idx < n
                    &&& (#[trigger] slots[idx]).cooldown_until_ms <= now_ms
                    &&& key == slots[idx].key@
                    &&& (if idx >= cursor {
                        idx - cursor
                    } else {
                        idx - cursor + n
                    }) <= (if other >= cursor {
                        other - cursor
                    } else {
                        other - cursor + n
                    })
                    &&& after.pool.cursor == (if idx + 1 < n {
                        idx + 1
                    } else {
                        0
                    })
                }
        }),
{
    let slots = before.pool.slots@;
    let idx = choose|idx: int|
        {
            &&& #[trigger] first_active(slots, before.pool.cursor as int, now_ms, idx)
            &&& key == slots[idx].key@
            &&& after.pool.cursor == ring(idx, 1, slots.len() as int)
        };
    law_next_active_key_is_the_nearest(slots, before.pool.cursor as int, now_ms, idx, other);
    assert(slots[idx].cooldown_until_ms <= now_ms);
}

} // verus!
