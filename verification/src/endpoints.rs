//! What the gateway says of itself: its models, its keys, its counters and its abilities.

use vstd::prelude::*;
use vstd::string::*;

use crate::effect::{text_reply, Reply, ReplyView};
use crate::json::{items_view, members_view, Json, JsonView, Num};
use crate::metrics::GatewayMetrics;
use crate::number::clipped;
use crate::params::option_text;
use crate::pool::{
    active_slots, first_active, ring, slot_active, total_room, total_window, KeySlot,
};
use crate::state::AppState;
use crate::stats::{record_degraded, record_of, ModelRecord, ModelSnapshot, ModelStatsStore};
use crate::table::{find_row, lemma_distinct_row, names, rows};
use crate::wire::{copy_json, json_text, print_json};

verus! {

/// A number as JSON.
pub open spec fn number(n: int) -> JsonView {
    JsonView::Number(Num::Unsigned(n as u64))
}

/// A list of names as JSON.
pub open spec fn name_list(list: Seq<Seq<char>>) -> JsonView {
    JsonView::Arr(list.map_values(|n: Seq<char>| JsonView::Str(n)))
}

/// A text or nothing as JSON.
pub open spec fn text_or_null(text: Option<Seq<char>>) -> JsonView {
    match text {
        Some(s) => JsonView::Str(s),
        None => JsonView::Null,
    }
}

fn text_json(s: &str) -> (r: Json)
    ensures
        r@ == JsonView::Str(s@),
{
    Json::Str(s.to_owned())
}

fn u64_json(n: u64) -> (r: Json)
    ensures
        r@ == number(n as int),
{
    Json::Number(Num::Unsigned(n))
}

fn usize_json(n: usize) -> (r: Json)
    ensures
        r@ == number(n as int),
{
    Json::Number(Num::Unsigned(n as u64))
}

fn label_json(label: &Option<String>) -> (r: Json)
    ensures
        r@ == text_or_null(option_text(*label)),
{
    match label {
        Some(s) => Json::Str(s.clone()),
        None => Json::Null,
    }
}

fn names_json(list: &Vec<String>) -> (r: Json)
    ensures
        r@ == name_list(names(list@)),
{
    let ghost v = names(list@);
    let ghost all = v.map_values(|n: Seq<char>| JsonView::Str(n));
    let mut items: Vec<Json> = Vec::new();
    let mut i: usize = 0;
    assert(items_view(items@) =~= all.take(0));
    while i < list.len()
        invariant
            v == names(list@),
            all == v.map_values(|n: Seq<char>| JsonView::Str(n)),
            i <= list@.len(),
            items_view(items@) == all.take(i as int),
        decreases list@.len() - i,
    {
        let item: Json = Json::Str(list[i].clone());
        proof {
            crate::json::lemma_items_push(items@, item);
            assert(all.take(i + 1) =~= all.take(i as int).push(item@));
        }
        items.push(item);
        i = i + 1;
    }
    assert(all.take(all.len() as int) =~= all);
    Json::Arr(items)
}

/// JSON as an answer.
pub open spec fn json_reply(j: JsonView) -> ReplyView {
    ReplyView::Forward {
        status: 200,
        content_type: "application/json"@,
        key_label: None,
        unbuffered: false,
        body: json_text(j),
    }
}

fn answer_json(j: Json) -> (r: Reply)
    ensures
        r@ == json_reply(j@),
{
    Reply::Forward {
        status: 200,
        content_type: "application/json".to_owned(),
        key_label: None,
        unbuffered: false,
        body: print_json(j),
    }
}

// ---------------------------------------------------------------------------------------
// Models
// ---------------------------------------------------------------------------------------

/// A configured model as JSON.
pub open spec fn model_json(id: Seq<char>) -> JsonView {
    JsonView::Obj(
        map![
            "id"@ => JsonView::Str(id),
            "object"@ => JsonView::Str("model"@),
            "owned_by"@ => JsonView::Str("nimaproxy"@),
        ],
    )
}

/// The configured models as JSON.
pub open spec fn models_json(list: Seq<Seq<char>>) -> JsonView {
    JsonView::Obj(
        map![
            "object"@ => JsonView::Str("list"@),
            "data"@ => JsonView::Arr(list.map_values(|id: Seq<char>| model_json(id))),
        ],
    )
}

/// Lists models as JSON.
pub fn list_models(list: &Vec<String>) -> (r: Json)
    ensures
        r@ == models_json(names(list@)),
{
    let ghost v = names(list@);
    let ghost all = v.map_values(|id: Seq<char>| model_json(id));
    let mut items: Vec<Json> = Vec::new();
    let mut i: usize = 0;
    assert(items_view(items@) =~= all.take(0));
    while i < list.len()
        invariant
            v == names(list@),
            all == v.map_values(|id: Seq<char>| model_json(id)),
            i <= list@.len(),
            items_view(items@) == all.take(i as int),
        decreases list@.len() - i,
    {
        let mut item: Json = Json::Obj(Vec::new());
        item.put("id", Json::Str(list[i].clone()));
        item.put("object", text_json("model"));
        item.put("owned_by", text_json("nimaproxy"));
        proof {
            crate::json::lemma_items_push(items@, item);
            assert(item@ == model_json(v[i as int]));
            assert(all.take(i + 1) =~= all.take(i as int).push(item@));
        }
        items.push(item);
        i = i + 1;
    }
    assert(all.take(all.len() as int) =~= all);
    let mut out: Json = Json::Obj(Vec::new());
    out.put("object", text_json("list"));
    out.put("data", Json::Arr(items));
    out
}

/// How a request for the models is answered.
pub enum ModelsStep {
    /// At once.
    Finish(Reply),
    /// By upstream, asked with this key.
    Ask(String),
}

/// Whether a key is the next active one in turn, and a state follows another by its turn.
pub open spec fn asked_in_turn(
    before: AppState,
    key: Seq<char>,
    now_ms: u64,
    after: AppState,
) -> bool {
    let slots = before.pool.slots@;
    &&& after == (AppState { pool: after.pool, ..before })
    &&& after.pool.slots@ == slots
    &&& exists|idx: int|
        {
            &&& #[trigger] first_active(slots, before.pool.cursor as int, now_ms, idx)
            &&& key == slots[idx].key@
            &&& after.pool.cursor == ring(idx, 1, slots.len() as int)
        }
}

/// Answers a request for the models: with the configured ones, or by asking upstream with the
/// next key in turn where none is configured.
pub fn models(state: &mut AppState, now_ms: u64) -> (r: ModelsStep)
    requires
        old(state).wf(),
    ensures
        final(state).wf(),
        ({
            let before = *old(state);
            let slots = before.pool.slots@;
            match r {
                ModelsStep::Finish(reply) => {
                    &&& *final(state) == before
                    &&& if before.configured_names().len() > 0 {
                        reply@ == json_reply(models_json(before.configured_names()))
                    } else {
                        &&& forall|i: int|
                            0 <= i < slots.len() ==> !slot_active(#[trigger] slots[i], now_ms)
                        &&& reply@ == (ReplyView::Text {
                            status: 429,
                            message: "no active API keys"@,
                        })
                    }
                },
                ModelsStep::Ask(key) => {
                    &&& before.configured_names().len() == 0
                    &&& asked_in_turn(before, key@, now_ms, *final(state))
                },
            }
        }),
{
    let configured: Vec<String> = state.configured_models();
    assert(names(configured@).len() == configured@.len());
    if configured.len() > 0 {
        return ModelsStep::Finish(answer_json(list_models(&configured)));
    }
    match state.pool.next_key(now_ms) {
        None => ModelsStep::Finish(text_reply(429, "no active API keys")),
        Some((key, idx)) => {
            assert(first_active(
                old(state).pool.slots@,
                old(state).pool.cursor as int,
                now_ms,
                idx as int,
            ));
            ModelsStep::Ask(key)
        },
    }
}

/// Answers with what upstream says of the models; an error stands for a failure.
pub fn models_from_upstream(outcome: Result<(u16, Vec<u8>), String>) -> (r: Reply)
    ensures
        match outcome {
            Ok((status, body)) => r@ == (ReplyView::Forward {
                status,
                content_type: "application/json"@,
                key_label: None,
                unbuffered: false,
                body: body@,
            }),
            Err(e) => r@ == (ReplyView::Text { status: 502, message: e@ }),
        },
{
    match outcome {
        Ok((status, body)) => Reply::Forward {
            status,
            content_type: "application/json".to_owned(),
            key_label: None,
            unbuffered: false,
            body,
        },
        Err(e) => Reply::Text { status: 502, message: e },
    }
}

// ---------------------------------------------------------------------------------------
// Keys
// ---------------------------------------------------------------------------------------

/// What is shown of a key: its last four characters, nothing of a key that has no more.
pub open spec fn key_hint(key: Seq<char>) -> Seq<char> {
    if key.len() <= 4 {
        "..."@
    } else {
        "..."@ + key.skip(key.len() - 4)
    }
}

fn hint_of(key: &str) -> (r: String)
    ensures
        r@ == key_hint(key@),
{
    let n: usize = key.unicode_len();
    let mut s: String = "...".to_owned();
    if n > 4 {
        let tail: &str = key.substring_char(n - 4, n);
        assert(tail@ =~= key@.skip(key@.len() - 4));
        s.append(tail);
    }
    s
}

/// The whole seconds for which a key still cools down.
pub open spec fn cooldown_left(slot: KeySlot, now_ms: u64) -> u64 {
    if slot_active(slot, now_ms) {
        0
    } else {
        ((slot.cooldown_until_ms - now_ms) / 1000) as u64
    }
}

/// A key as JSON.
pub open spec fn key_json(slot: KeySlot, now_ms: u64) -> JsonView {
    JsonView::Obj(
        map![
            "label"@ => text_or_null(option_text(slot.label)),
            "key_hint"@ => JsonView::Str(key_hint(slot.key@)),
            "active"@ => JsonView::Bool(slot_active(slot, now_ms)),
            "cooldown_secs_remaining"@ => number(cooldown_left(slot, now_ms) as int),
            "in_flight"@ => number(slot.in_flight as int),
            "max_in_flight"@ => number(slot.max_in_flight as int),
            "configured_max_in_flight"@ => number(slot.configured_max_in_flight as int),
        ],
    )
}

/// Keys as JSON.
pub open spec fn keys_json(slots: Seq<KeySlot>, now_ms: u64) -> JsonView {
    JsonView::Arr(slots.map_values(|s: KeySlot| key_json(s, now_ms)))
}

fn describe_key(slot: &KeySlot, now_ms: u64) -> (r: Json)
    ensures
        r@ == key_json(*slot, now_ms),
{
    let active: bool = slot.cooldown_until_ms <= now_ms;
    let left: u64 = if active {
        0
    } else {
        (slot.cooldown_until_ms - now_ms) / 1000
    };
    let mut item: Json = Json::Obj(Vec::new());
    item.put("label", label_json(&slot.label));
    item.put("key_hint", Json::Str(hint_of(slot.key.as_str())));
    item.put("active", Json::Bool(active));
    item.put("cooldown_secs_remaining", u64_json(left));
    item.put("in_flight", usize_json(slot.in_flight));
    item.put("max_in_flight", usize_json(slot.max_in_flight));
    item.put("configured_max_in_flight", usize_json(slot.configured_max_in_flight));
    item
}

fn describe_keys(slots: &Vec<KeySlot>, now_ms: u64) -> (r: Json)
    ensures
        r@ == keys_json(slots@, now_ms),
{
    let ghost all = slots@.map_values(|s: KeySlot| key_json(s, now_ms));
    let mut items: Vec<Json> = Vec::new();
    let mut i: usize = 0;
    assert(items_view(items@) =~= all.take(0));
    while i < slots.len()
        invariant
            all == slots@.map_values(|s: KeySlot| key_json(s, now_ms)),
            i <= slots@.len(),
            items_view(items@) == all.take(i as int),
        decreases slots@.len() - i,
    {
        let item: Json = describe_key(&slots[i], now_ms);
        proof {
            crate::json::lemma_items_push(items@, item);
            assert(all.take(i + 1) =~= all.take(i as int).push(item@));
        }
        items.push(item);
        i = i + 1;
    }
    assert(all.take(all.len() as int) =~= all);
    Json::Arr(items)
}

/// The state of the gateway as JSON. It is up while a key is not cooling down.
pub open spec fn health_json(state: AppState, now_ms: u64) -> JsonView {
    let slots = state.pool.slots@;
    let c = state.controls;
    JsonView::Obj(
        map![
            "status"@ => JsonView::Str(
                if active_slots(slots, now_ms) > 0 {
                    "UP"@
                } else {
                    "DEGRADED"@
                },
            ),
            "keys_total"@ => number(slots.len() as int),
            "keys_active"@ => number(active_slots(slots, now_ms) as int),
            "keys"@ => keys_json(slots, now_ms),
            "gateway_in_flight"@ => number(state.upstream_in_flight as int),
            "gateway_limit"@ => number(c.max_upstream_in_flight as int),
            "key_window_capacity"@ => number(clipped(total_window(slots, now_ms)) as int),
            "key_available_permits"@ => number(clipped(total_room(slots, now_ms)) as int),
            "admission_wait_ms"@ => number(c.admission_wait_ms as int),
            "routing_enabled"@ => JsonView::Bool(state.routed_names().len() > 0),
            "racing_enabled"@ => JsonView::Bool(state.racing_models@.len() > 0),
            "routing_models"@ => name_list(state.routed_names()),
            "racing_models"@ => name_list(names(state.racing_models@)),
            "racing_max_parallel"@ => number(state.racing_max_parallel as int),
            "racing_timeout_ms"@ => number(state.racing_timeout_ms as int),
            "racing_max_total_request_ms"@ => number(c.racing_max_total_request_ms as int),
            "racing_adaptive"@ => JsonView::Bool(c.racing_adaptive),
            "racing_min_parallel"@ => number(c.racing_min_parallel as int),
            "racing_pressure_parallel"@ => number(c.racing_pressure_parallel as int),
            "racing_degraded_parallel"@ => number(c.racing_degraded_parallel as int),
            "racing_large_prompt_char_threshold"@ => number(
                c.racing_large_prompt_char_threshold as int,
            ),
            "racing_large_prompt_parallel"@ => number(c.racing_large_prompt_parallel as int),
            "racing_solo_fallback"@ => JsonView::Bool(c.racing_solo_fallback),
        ],
    )
}

/// Describes the state of the gateway.
pub fn health_report(state: &AppState, now_ms: u64) -> (r: Json)
    ensures
        r@ == health_json(*state, now_ms),
{
    let active: usize = state.pool.active_count(now_ms);
    let routed: Json = match &state.router {
        Some(router) => names_json(&router.models),
        None => {
            let none: Vec<Json> = Vec::new();
            assert(items_view(none@) =~= state.routed_names().map_values(
                |n: Seq<char>| JsonView::Str(n),
            ));
            Json::Arr(none)
        },
    };
    let mut j: Json = Json::Obj(Vec::new());
    j.put(
        "status",
        text_json(
            if active > 0 {
                "UP"
            } else {
                "DEGRADED"
            },
        ),
    );
    j.put("keys_total", usize_json(state.pool.len()));
    j.put("keys_active", usize_json(active));
    j.put("keys", describe_keys(&state.pool.slots, now_ms));
    j.put("gateway_in_flight", usize_json(state.upstream_in_flight));
    j.put("gateway_limit", usize_json(state.controls.max_upstream_in_flight));
    j.put("key_window_capacity", usize_json(state.pool.window_capacity(now_ms)));
    j.put("key_available_permits", usize_json(state.pool.available_permits(now_ms)));
    j.put("admission_wait_ms", u64_json(state.controls.admission_wait_ms));
    j.put("routing_enabled", Json::Bool(state.routing_enabled()));
    j.put("racing_enabled", Json::Bool(state.racing_enabled()));
    j.put("routing_models", routed);
    j.put("racing_models", names_json(&state.racing_models));
    j.put("racing_max_parallel", usize_json(state.racing_max_parallel));
    j.put("racing_timeout_ms", u64_json(state.racing_timeout_ms));
    j.put("racing_max_total_request_ms", u64_json(state.controls.racing_max_total_request_ms));
    j.put("racing_adaptive", Json::Bool(state.controls.racing_adaptive));
    j.put("racing_min_parallel", usize_json(state.controls.racing_min_parallel));
    j.put("racing_pressure_parallel", usize_json(state.controls.racing_pressure_parallel));
    j.put("racing_degraded_parallel", usize_json(state.controls.racing_degraded_parallel));
    j.put(
        "racing_large_prompt_char_threshold",
        usize_json(state.controls.racing_large_prompt_char_threshold),
    );
    j.put(
        "racing_large_prompt_parallel",
        usize_json(state.controls.racing_large_prompt_parallel),
    );
    j.put("racing_solo_fallback", Json::Bool(state.controls.racing_solo_fallback));
    j
}

/// Answers a request for the state of the gateway.
pub fn health(state: &AppState, now_ms: u64) -> (r: Reply)
    ensures
        r@ == json_reply(health_json(*state, now_ms)),
{
    answer_json(health_report(state, now_ms))
}

// ---------------------------------------------------------------------------------------
// Counters
// ---------------------------------------------------------------------------------------

/// What is not a whole number in the record of a model.
pub struct ModelNumbers {
    pub avg_ms: Json,
    pub p95_ms: Json,
    pub success_rate: Json,
}

/// The record of a model as JSON. What is not a whole number is null where it is not known.
pub open spec fn record_json(
    model: Seq<char>,
    r: ModelRecord,
    numbers: Option<ModelNumbers>,
    spike_threshold_us: u64,
) -> JsonView {
    let (avg_ms, p95_ms, success_rate) = match numbers {
        Some(n) => (n.avg_ms@, n.p95_ms@, n.success_rate@),
        None => (JsonView::Null, JsonView::Null, JsonView::Null),
    };
    JsonView::Obj(
        map![
            "model"@ => JsonView::Str(model),
            "avg_ms"@ => avg_ms,
            "p95_ms"@ => p95_ms,
            "total"@ => number(r.total as int),
            "success"@ => number(r.success as int),
            "success_rate"@ => success_rate,
            "sample_count"@ => number(r.sample_count as int),
            "consecutive_failures"@ => number(r.consecutive_failures as int),
            "degraded"@ => JsonView::Bool(record_degraded(r, spike_threshold_us)),
        ],
    )
}

/// What is known under a name.
pub open spec fn numbers_of(numbers: Map<Seq<char>, ModelNumbers>, model: Seq<char>) -> Option<
    ModelNumbers,
> {
    if numbers.dom().contains(model) {
        Some(numbers[model])
    } else {
        None
    }
}

/// The records of all models as JSON, in the order in which the models were first used.
pub open spec fn records_json(
    store: ModelStatsStore,
    numbers: Map<Seq<char>, ModelNumbers>,
) -> JsonView {
    JsonView::Arr(
        store.known().map_values(
            |model: Seq<char>|
                record_json(
                    model,
                    record_of(store.records(), model),
                    numbers_of(numbers, model),
                    store.spike_threshold_us,
                ),
        ),
    )
}

/// How often each model won, as JSON.
pub open spec fn wins_json(wins: Map<Seq<char>, u64>) -> JsonView {
    JsonView::Obj(wins.map_values(|n: u64| number(n as int)))
}

/// The counters as JSON, with the load of the gateway and its limits.
pub open spec fn gateway_json(state: AppState, fanout_avg: JsonView, now_ms: u64) -> JsonView {
    let m = state.metrics@;
    let c = state.controls;
    let slots = state.pool.slots@;
    JsonView::Obj(
        map![
            "request_total"@ => number(m.request_total as int),
            "direct_requests"@ => number(m.direct_requests as int),
            "racing_requests"@ => number(m.racing_requests as int),
            "upstream_attempts"@ => number(m.upstream_attempts as int),
            "upstream_in_flight"@ => number(state.upstream_in_flight as int),
            "max_upstream_in_flight"@ => number(c.max_upstream_in_flight as int),
            "max_in_flight_per_key"@ => number(c.max_in_flight_per_key as int),
            "key_window_capacity"@ => number(clipped(total_window(slots, now_ms)) as int),
            "key_available_permits"@ => number(clipped(total_room(slots, now_ms)) as int),
            "admission_wait_ms"@ => number(c.admission_wait_ms as int),
            "overload_rejects"@ => number(m.overload_rejects as int),
            "no_key_rejects"@ => number(m.no_key_rejects as int),
            "timeout_count"@ => number(m.timeout_count as int),
            "rate_limit_count"@ => number(m.rate_limit_count as int),
            "fanout_total"@ => number(m.fanout_total as int),
            "fanout_samples"@ => number(m.fanout_samples as int),
            "fanout_avg"@ => fanout_avg,
            "solo_fallbacks"@ => number(m.solo_fallbacks as int),
            "sequential_fallbacks"@ => number(m.sequential_fallbacks as int),
            "racing_all_failed"@ => number(m.racing_all_failed as int),
            "racing_deadline_exceeded"@ => number(m.racing_deadline_exceeded as int),
            "racing_wins"@ => wins_json(m.racing_wins),
        ],
    )
}

/// What the gateway remembers, as JSON.
pub open spec fn stats_json(
    state: AppState,
    numbers: Map<Seq<char>, ModelNumbers>,
    fanout_avg: JsonView,
    now_ms: u64,
) -> JsonView {
    let c = state.controls;
    JsonView::Obj(
        map![
            "models"@ => records_json(state.model_stats, numbers),
            "keys"@ => keys_json(state.pool.slots@, now_ms),
            "gateway"@ => gateway_json(state, fanout_avg, now_ms),
            "racing_models"@ => name_list(names(state.racing_models@)),
            "racing_enabled"@ => JsonView::Bool(state.racing_models@.len() > 0),
            "racing_max_parallel"@ => number(state.racing_max_parallel as int),
            "racing_timeout_ms"@ => number(state.racing_timeout_ms as int),
            "racing_max_total_request_ms"@ => number(c.racing_max_total_request_ms as int),
            "racing_adaptive"@ => JsonView::Bool(c.racing_adaptive),
            "racing_min_parallel"@ => number(c.racing_min_parallel as int),
            "racing_pressure_parallel"@ => number(c.racing_pressure_parallel as int),
            "racing_degraded_parallel"@ => number(c.racing_degraded_parallel as int),
            "racing_large_prompt_char_threshold"@ => number(
                c.racing_large_prompt_char_threshold as int,
            ),
            "racing_large_prompt_parallel"@ => number(c.racing_large_prompt_parallel as int),
            "racing_solo_fallback"@ => JsonView::Bool(c.racing_solo_fallback),
            "racing_fast_models"@ => name_list(names(c.racing_fast_models@)),
            "racing_fallback_models"@ => name_list(names(c.racing_fallback_models@)),
        ],
    )
}

fn describe_record(
    shown: ModelSnapshot,
    numbers: Option<&ModelNumbers>,
    spike_threshold_us: u64,
) -> (r: Json)
    requires
        shown.degraded == record_degraded(shown.record, spike_threshold_us),
    ensures
        r@ == record_json(
            shown.id@,
            shown.record,
            match numbers {
                Some(n) => Some(*n),
                None => None,
            },
            spike_threshold_us,
        ),
{
    let (avg_ms, p95_ms, success_rate) = match numbers {
        Some(n) => (copy_json(&n.avg_ms), copy_json(&n.p95_ms), copy_json(&n.success_rate)),
        None => (Json::Null, Json::Null, Json::Null),
    };
    let record: ModelRecord = shown.record;
    let mut item: Json = Json::Obj(Vec::new());
    item.put("model", Json::Str(shown.id));
    item.put("avg_ms", avg_ms);
    item.put("p95_ms", p95_ms);
    item.put("total", u64_json(record.total));
    item.put("success", u64_json(record.success));
    item.put("success_rate", success_rate);
    item.put("sample_count", u64_json(record.sample_count));
    item.put("consecutive_failures", u64_json(record.consecutive_failures));
    item.put("degraded", Json::Bool(shown.degraded));
    item
}

fn describe_records(store: &ModelStatsStore, numbers: &Vec<(String, ModelNumbers)>) -> (r: Json)
    requires
        store.wf(),
    ensures
        r@ == records_json(*store, rows(numbers@)),
{
    let shown: Vec<ModelSnapshot> = store.snapshot();
    let ghost source = shown@;
    let ghost all = records_json(*store, rows(numbers@))->Arr_0;
    let mut items: Vec<Json> = Vec::new();
    assert(items_view(items@) =~= all.take(0));
    for model in it: shown
        invariant
            it.seq() == source,
            store.wf(),
            source.len() == store.known().len(),
            forall|k: int|
                0 <= k < source.len() ==> {
                    &&& (#[trigger] source[k]).id@ == store.known()[k]
                    &&& source[k].record == store.entries@[k].1
                    &&& source[k].degraded == record_degraded(
                        store.entries@[k].1,
                        store.spike_threshold_us,
                    )
                },
            records_json(*store, rows(numbers@)) == JsonView::Arr(all),
            items_view(items@) == all.take(it.index() as int),
    {
        let ghost i = it.index() as int;
        let found: Option<&ModelNumbers> = find_row(numbers, model.id.as_str());
        proof {
            lemma_distinct_row(store.entries@, i);
            assert(source[i].id@ == store.known()[i]);
            assert(record_of(store.records(), source[i].id@) == source[i].record);
        }
        let item: Json = describe_record(model, found, store.spike_threshold_us);
        proof {
            crate::json::lemma_items_push(items@, item);
            assert(all[i] == item@);
            assert(all.take(i + 1) =~= all.take(i).push(item@));
        }
        items.push(item);
    }
    assert(all.take(all.len() as int) =~= all);
    Json::Arr(items)
}

proof fn lemma_win_added(wins: Seq<(String, u64)>, i: int)
    requires
        0 <= i < wins.len(),
    ensures
        rows(wins.take(i + 1)).map_values(|n: u64| number(n as int)) == rows(
            wins.take(i),
        ).map_values(|n: u64| number(n as int)).insert(wins[i].0@, number(wins[i].1 as int)),
{
    assert(wins.take(i + 1).drop_last() =~= wins.take(i));
    assert(rows(wins.take(i + 1)).map_values(|n: u64| number(n as int)) =~= rows(
        wins.take(i),
    ).map_values(|n: u64| number(n as int)).insert(wins[i].0@, number(wins[i].1 as int)));
}

fn describe_wins(wins: &Vec<(String, u64)>) -> (r: Json)
    ensures
        r@ == wins_json(rows(wins@)),
{
    let mut members: Vec<(String, Json)> = Vec::new();
    let mut i: usize = 0;
    proof {
        assert(wins@.take(0) =~= Seq::empty());
        assert(members_view(members@) =~= rows(wins@.take(0)).map_values(
            |n: u64| number(n as int),
        ));
    }
    while i < wins.len()
        invariant
            i <= wins@.len(),
            members_view(members@) == rows(wins@.take(i as int)).map_values(
                |n: u64| number(n as int),
            ),
        decreases wins@.len() - i,
    {
        let ghost done = members@;
        proof {
            lemma_win_added(wins@, i as int);
        }
        members.push((wins[i].0.clone(), u64_json(wins[i].1)));
        assert(members@.drop_last() =~= done);
        i = i + 1;
    }
    assert(wins@.take(wins@.len() as int) =~= wins@);
    Json::Obj(members)
}

fn describe_gateway(state: &AppState, fanout_avg: Json, now_ms: u64) -> (r: Json)
    ensures
        r@ == gateway_json(*state, fanout_avg@, now_ms),
{
    let m: &GatewayMetrics = &state.metrics;
    let mut j: Json = Json::Obj(Vec::new());
    j.put("request_total", u64_json(m.request_total));
    j.put("direct_requests", u64_json(m.direct_requests));
    j.put("racing_requests", u64_json(m.racing_requests));
    j.put("upstream_attempts", u64_json(m.upstream_attempts));
    j.put("upstream_in_flight", usize_json(state.upstream_in_flight));
    j.put("max_upstream_in_flight", usize_json(state.controls.max_upstream_in_flight));
    j.put("max_in_flight_per_key", usize_json(state.controls.max_in_flight_per_key));
    j.put("key_window_capacity", usize_json(state.pool.window_capacity(now_ms)));
    j.put("key_available_permits", usize_json(state.pool.available_permits(now_ms)));
    j.put("admission_wait_ms", u64_json(state.controls.admission_wait_ms));
    j.put("overload_rejects", u64_json(m.overload_rejects));
    j.put("no_key_rejects", u64_json(m.no_key_rejects));
    j.put("timeout_count", u64_json(m.timeout_count));
    j.put("rate_limit_count", u64_json(m.rate_limit_count));
    j.put("fanout_total", u64_json(m.fanout_total));
    j.put("fanout_samples", u64_json(m.fanout_samples));
    j.put("fanout_avg", fanout_avg);
    j.put("solo_fallbacks", u64_json(m.solo_fallbacks));
    j.put("sequential_fallbacks", u64_json(m.sequential_fallbacks));
    j.put("racing_all_failed", u64_json(m.racing_all_failed));
    j.put("racing_deadline_exceeded", u64_json(m.racing_deadline_exceeded));
    j.put("racing_wins", describe_wins(&m.racing_wins));
    j
}

/// Describes what the gateway remembers. `numbers` holds what is not a whole number in the
/// records of models, `fanout_avg` is the average number of models in a race.
pub fn stats_report(
    state: &AppState,
    numbers: &Vec<(String, ModelNumbers)>,
    fanout_avg: Json,
    now_ms: u64,
) -> (r: Json)
    requires
        state.wf(),
    ensures
        r@ == stats_json(*state, rows(numbers@), fanout_avg@, now_ms),
{
    let mut j: Json = Json::Obj(Vec::new());
    j.put("models", describe_records(&state.model_stats, numbers));
    j.put("keys", describe_keys(&state.pool.slots, now_ms));
    j.put("gateway", describe_gateway(state, fanout_avg, now_ms));
    j.put("racing_models", names_json(&state.racing_models));
    j.put("racing_enabled", Json::Bool(state.racing_enabled()));
    j.put("racing_max_parallel", usize_json(state.racing_max_parallel));
    j.put("racing_timeout_ms", u64_json(state.racing_timeout_ms));
    j.put("racing_max_total_request_ms", u64_json(state.controls.racing_max_total_request_ms));
    j.put("racing_adaptive", Json::Bool(state.controls.racing_adaptive));
    j.put("racing_min_parallel", usize_json(state.controls.racing_min_parallel));
    j.put("racing_pressure_parallel", usize_json(state.controls.racing_pressure_parallel));
    j.put("racing_degraded_parallel", usize_json(state.controls.racing_degraded_parallel));
    j.put(
        "racing_large_prompt_char_threshold",
        usize_json(state.controls.racing_large_prompt_char_threshold),
    );
    j.put(
        "racing_large_prompt_parallel",
        usize_json(state.controls.racing_large_prompt_parallel),
    );
    j.put("racing_solo_fallback", Json::Bool(state.controls.racing_solo_fallback));
    j.put("racing_fast_models", names_json(&state.controls.racing_fast_models));
    j.put("racing_fallback_models", names_json(&state.controls.racing_fallback_models));
    j
}

/// Answers a request for what the gateway remembers.
pub fn stats(
    state: &AppState,
    numbers: &Vec<(String, ModelNumbers)>,
    fanout_avg: Json,
    now_ms: u64,
) -> (r: Reply)
    requires
        state.wf(),
    ensures
        r@ == json_reply(stats_json(*state, rows(numbers@), fanout_avg@, now_ms)),
{
    answer_json(stats_report(state, numbers, fanout_avg, now_ms))
}

// ---------------------------------------------------------------------------------------
// Abilities
// ---------------------------------------------------------------------------------------

/// The abilities of the gateway as JSON.
pub open spec fn props_json() -> JsonView {
    JsonView::Obj(
        map![
            "contextWindow"@ => number(131072),
            "input"@ => JsonView::Bool(true),
            "supports_developer_role"@ => JsonView::Bool(true),
            "supports_tool_messages"@ => JsonView::Bool(true),
            "supports_tool_calls"@ => JsonView::Bool(true),
            "supports_embeddings"@ => JsonView::Bool(true),
            "supports_completions"@ => JsonView::Bool(true),
            "supported_roles"@ => JsonView::Arr(
                seq![
                    JsonView::Str("user"@),
                    JsonView::Str("assistant"@),
                    JsonView::Str("system"@),
                    JsonView::Str("tool"@),
                    JsonView::Str("developer"@),
                    JsonView::Str("function"@),
                ],
            ),
            "tool_capabilities"@ => JsonView::Obj(
                map![
                    "function_calling"@ => JsonView::Bool(true),
                    "code_interpreter"@ => JsonView::Bool(false),
                    "image_generation"@ => JsonView::Bool(false),
                ],
            ),
        ],
    )
}

/// Describes the abilities of the gateway.
pub fn props_report() -> (r: Json)
    ensures
        r@ == props_json(),
{
    let mut roles: Vec<Json> = Vec::new();
    roles.push(text_json("user"));
    roles.push(text_json("assistant"));
    roles.push(text_json("system"));
    roles.push(text_json("tool"));
    roles.push(text_json("developer"));
    roles.push(text_json("function"));
    assert(items_view(roles@) =~= seq![
        JsonView::Str("user"@),
        JsonView::Str("assistant"@),
        JsonView::Str("system"@),
        JsonView::Str("tool"@),
        JsonView::Str("developer"@),
        JsonView::Str("function"@),
    ]);
    let mut tools: Json = Json::Obj(Vec::new());
    tools.put("function_calling", Json::Bool(true));
    tools.put("code_interpreter", Json::Bool(false));
    tools.put("image_generation", Json::Bool(false));
    let mut j: Json = Json::Obj(Vec::new());
    j.put("contextWindow", u64_json(131072));
    j.put("input", Json::Bool(true));
    j.put("supports_developer_role", Json::Bool(true));
    j.put("supports_tool_messages", Json::Bool(true));
    j.put("supports_tool_calls", Json::Bool(true));
    j.put("supports_embeddings", Json::Bool(true));
    j.put("supports_completions", Json::Bool(true));
    j.put("supported_roles", Json::Arr(roles));
    j.put("tool_capabilities", tools);
    j
}

/// Answers a request for the abilities of the gateway.
pub fn props() -> (r: Reply)
    ensures
        r@ == json_reply(props_json()),
{
    answer_json(props_report())
}

} // verus!
