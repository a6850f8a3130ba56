//! What holds of every request that goes upstream.

use vstd::prelude::*;

use crate::json::JsonView;
use crate::effect::Effect;
use crate::messages::{
    ends_with_assistant, retagged, sanitized, uses_tools, with_minimax_hint, with_mistral_params,
    with_ordered_messages,
};
use crate::params::{
    accepted_type, accepted_type_of_body, asks_for_stream, assigned, assigned_if_absent,
    kwargs_merged, members_or_none, stream_defaulted, with_params, with_tuning, ParamsView,
};
use crate::prepare::{
    body_assignable, body_for, body_resolution, body_resolvable, choice_open, named_model,
    offered_model, request_for, requested_model, resolution, rewritten_conversation, rules_of,
    takes_turn, with_choice, ModelRules,
};
use crate::model_id::{mistral_model, normalized_model};
use crate::router::usable_step;
use crate::state::{noted, AppState};
use crate::stats::{record_degraded, record_of, ModelRecord};
use crate::table::{names, rows};
use crate::wire::{alike, json_parse, readable, reads_back, MAX_DEPTH};

verus! {

/// Whether a member is one that a model's configuration can set.
pub open spec fn tunable(key: Seq<char>) -> bool {
    ||| key == "temperature"@
    ||| key == "top_p"@
    ||| key == "top_k"@
    ||| key == "frequency_penalty"@
    ||| key == "presence_penalty"@
    ||| key == "repetition_penalty"@
    ||| key == "min_p"@
    ||| key == "max_tokens"@
    ||| key == "reasoning_budget"@
    ||| key == "reasoning_effort"@
    ||| key == "seed"@
    ||| key == "stream"@
    ||| key == "chat_template_kwargs"@
}

/// A model's configuration changes no member but those that it can set.
pub proof fn law_params_keep_other_members(json: JsonView, p: ParamsView, key: Seq<char>)
    requires
        !tunable(key),
    ensures
        with_params(json, p).get(key) == json.get(key),
{
    let tuned = with_tuning(json, p);
    assert(tuned.get(key) == json.get(key));
    let moded = stream_defaulted(tuned, p.stream);
    assert(moded.get(key) == tuned.get(key));
}

proof fn lemma_tuning_lengths()
    ensures
        "temperature"@.len() == 11,
        "top_p"@.len() == 5,
        "top_k"@.len() == 5,
        "frequency_penalty"@.len() == 17,
        "presence_penalty"@.len() == 16,
        "repetition_penalty"@.len() == 18,
        "min_p"@.len() == 5,
        "max_tokens"@.len() == 10,
        "reasoning_budget"@.len() == 16,
        "reasoning_effort"@.len() == 16,
        "seed"@.len() == 4,
        "stream"@.len() == 6,
        "chat_template_kwargs"@.len() == 20,
        "messages"@.len() == 8,
        "model"@.len() == 5,
        "tools"@.len() == 5,
        "model"@ != "top_p"@,
        "model"@ != "top_k"@,
        "model"@ != "min_p"@,
        "model"@ != "tools"@,
        "add_generation_prompt"@.len() == 21,
        "continue_final_message"@.len() == 22,
{
    reveal_strlit("temperature");
    reveal_strlit("top_p");
    reveal_strlit("top_k");
    reveal_strlit("frequency_penalty");
    reveal_strlit("presence_penalty");
    reveal_strlit("repetition_penalty");
    reveal_strlit("min_p");
    reveal_strlit("max_tokens");
    reveal_strlit("reasoning_budget");
    reveal_strlit("reasoning_effort");
    reveal_strlit("seed");
    reveal_strlit("stream");
    reveal_strlit("chat_template_kwargs");
    reveal_strlit("messages");
    reveal_strlit("model");
    reveal_strlit("tools");
    reveal_strlit("add_generation_prompt");
    reveal_strlit("continue_final_message");
    assert("model"@[1] == 'o');
    assert("top_p"@[0] == 't');
    assert("top_k"@[0] == 't');
    assert("tools"@[0] == 't');
    assert("model"@[0] == 'm');
    assert("min_p"@[1] == 'i');
}

/// The caller's choices prevail over a model's configuration: a token limit stays, a response
/// mode stays, and streaming is neither switched on nor off.
pub proof fn law_callers_choices_stay(json: JsonView, p: ParamsView)
    ensures
        json.get("max_tokens"@) is Some ==> with_params(json, p).get("max_tokens"@) == json.get(
            "max_tokens"@,
        ),
        json.get("stream"@) is Some && json.get("stream"@) != Some(JsonView::Null) ==> with_params(
            json,
            p,
        ).get("stream"@) == json.get("stream"@),
        asks_for_stream(with_params(json, p)) == asks_for_stream(json),
{
    lemma_tuning_lengths();
    let tuned = with_tuning(json, p);
    assert(tuned.get("stream"@) == json.get("stream"@));
    assert(json.get("max_tokens"@) is Some ==> tuned.get("max_tokens"@) == json.get(
        "max_tokens"@,
    ));
    let moded = stream_defaulted(tuned, p.stream);
    assert(moded.get("max_tokens"@) == tuned.get("max_tokens"@));
}

/// Rewriting the conversation changes no member but the messages, the tools and the two
/// switches for Mistral models.
pub proof fn law_rewriting_keeps_other_members(
    json: JsonView,
    model: Seq<char>,
    rules: ModelRules,
    key: Seq<char>,
)
    requires
        key != "messages"@,
        key != "tools"@,
        key != "add_generation_prompt"@,
        key != "continue_final_message"@,
    ensures
        rewritten_conversation(json, model, rules).get(key) == json.get(key),
{
    let a = with_mistral_params(json, model);
    let b = with_minimax_hint(a, model);
    let c = sanitized(b);
    let d = retagged(c, rules.developer, rules.tool);
    let e = with_ordered_messages(d);
    assert(a.get(key) == json.get(key));
    assert(b.get(key) == a.get(key));
    assert(c.get(key) == b.get(key));
    assert(d.get(key) == c.get(key));
    assert(e.get(key) == d.get(key));
}

/// The request for a model names that model, and asks for a stream exactly if the client did.
pub proof fn law_request_is_for_the_model(json: JsonView, model: Seq<char>, state: AppState)
    requires
        json.assignable(),
    ensures
        request_for(json, model, state).get_str("model"@) == Some(model),
        asks_for_stream(request_for(json, model, state)) == asks_for_stream(json),
        accepted_type(request_for(json, model, state)) == accepted_type(json),
{
    lemma_tuning_lengths();
    let named = json.put("model"@, JsonView::Str(model));
    let rules = rules_of(state, model);
    let talk = rewritten_conversation(named, model, rules);
    law_rewriting_keeps_other_members(named, model, rules, "model"@);
    law_rewriting_keeps_other_members(named, model, rules, "stream"@);
    match rules.params {
        Some(p) => {
            law_params_keep_other_members(talk, p, "model"@);
            law_callers_choices_stay(talk, p);
        },
        None => {},
    }
}

/// The text of a request for a model is JSON that names the model, and the media type that
/// goes with it is the one that the client's request asks for.
pub proof fn law_header_matches_the_request(
    text: Seq<u8>,
    json: JsonView,
    model: Seq<char>,
    state: AppState,
)
    requires
        json.assignable(),
        reads_back(text, request_for(json, model, state)),
        readable(request_for(json, model, state), MAX_DEPTH as nat),
    ensures
        json_parse(text) matches Some(sent) && sent.get_str("model"@) == Some(model),
        accepted_type_of_body(text) == accepted_type(json),
{
    law_request_is_for_the_model(json, model, state);
    let request = request_for(json, model, state);
    let sent = json_parse(text)->Some_0;
    reveal_with_fuel(alike, 2);
    assert(request.get("model"@) is Some);
    assert(alike(request, sent, MAX_DEPTH as nat));
    match (request, sent) {
        (JsonView::Obj(x), JsonView::Obj(y)) => {
            assert(alike(x["model"@], y["model"@], (MAX_DEPTH - 1) as nat));
            if x.dom().contains("stream"@) {
                assert(alike(x["stream"@], y["stream"@], (MAX_DEPTH - 1) as nat));
            }
        },
        _ => {},
    }
}

/// The conversation of a request for a model is the rewritten one: the model's configuration
/// does not touch it.
pub proof fn law_request_carries_the_conversation(json: JsonView, model: Seq<char>, state: AppState)
    ensures
        request_for(json, model, state).get("messages"@) == rewritten_conversation(
            json.put("model"@, JsonView::Str(model)),
            model,
            rules_of(state, model),
        ).get("messages"@),
{
    lemma_tuning_lengths();
    let rules = rules_of(state, model);
    let talk = rewritten_conversation(json.put("model"@, JsonView::Str(model)), model, rules);
    match rules.params {
        Some(p) => {
            law_params_keep_other_members(talk, p, "messages"@);
        },
        None => {},
    }
}

/// A request that names a model goes to that model; one that leaves the choice open goes to
/// the model that the router offers. Either way the request that goes out names it.
pub proof fn law_resolution_follows_the_choice(
    json: JsonView,
    offered: Option<Seq<char>>,
    state: AppState,
)
    requires
        json is Obj,
    ensures
        json.get_str("model"@) matches Some(m) && !choice_open(normalized_model(m)) ==> resolution(
            json,
            offered,
            state,
        ).0 == json.get_str("model"@).unwrap(),
        choice_open(normalized_model(requested_model(Some(json)))) && state.router is Some
            && offered is Some ==> resolution(json, offered, state).0 == offered.unwrap(),
        resolution(json, offered, state).1.get_str("model"@) == with_choice(
            json,
            state.router is Some,
            offered,
        ).get_str("model"@),
{
    lemma_tuning_lengths();
    let chosen = with_choice(json, state.router is Some, offered);
    let model = named_model(chosen);
    let rules = rules_of(state, model);
    law_rewriting_keeps_other_members(chosen, model, rules, "model"@);
    match rules.params {
        Some(p) => {
            law_params_keep_other_members(
                rewritten_conversation(chosen, model, rules),
                p,
                "model"@,
            );
        },
        None => {},
    }
}

/// Where some model of the router is not to be avoided, the router offers one that is not.
pub proof fn law_router_avoids_degraded_models(state: AppState, k: int)
    requires
        state.wf(),
        0 <= k < state.routed_names().len(),
        !record_degraded(
            record_of(state.model_stats.records(), state.routed_names()[k]),
            state.model_stats.spike_threshold_us,
        ),
    ensures
        offered_model(state) matches Some(m) && state.routed_names().contains(m)
            && !record_degraded(
            record_of(state.model_stats.records(), m),
            state.model_stats.spike_threshold_us,
        ),
{
    let models = state.routed_names();
    let n = models.len() as int;
    let cursor = state.router->Some_0.cursor as int;
    let records = state.model_stats.records();
    let threshold = state.model_stats.spike_threshold_us;
    let step = if k >= cursor {
        k - cursor
    } else {
        k - cursor + n
    };
    assert(crate::pool::ring(cursor, step, n) == k);
    lemma_usable_step(models, cursor, records, threshold, 0, step);
}

proof fn lemma_usable_step(
    models: Seq<Seq<char>>,
    cursor: int,
    records: Map<Seq<char>, ModelRecord>,
    threshold: u64,
    from: int,
    good: int,
)
    requires
        0 <= cursor < models.len(),
        0 <= from <= good < models.len(),
        !record_degraded(
            record_of(records, models[crate::pool::ring(cursor, good, models.len() as int)]),
            threshold,
        ),
    ensures
        usable_step(models, cursor, records, threshold, from) matches Some(s) && from <= s
            < models.len() && !record_degraded(
            record_of(records, models[crate::pool::ring(cursor, s, models.len() as int)]),
            threshold,
        ),
    decreases good - from,
{
    if from < good {
        if record_degraded(
            record_of(records, models[crate::pool::ring(cursor, from, models.len() as int)]),
            threshold,
        ) {
            lemma_usable_step(models, cursor, records, threshold, from + 1, good);
        }
    }
}

/// The request for a model depends on the client's request and on what the configuration says
/// of that model alone: not on other models, nor on what the router would choose.
pub proof fn law_models_do_not_share_their_settings(
    json: JsonView,
    model: Seq<char>,
    state: AppState,
    other: AppState,
)
    requires
        rules_of(state, model) == rules_of(other, model),
    ensures
        request_for(json, model, state) == request_for(json, model, other),
{
}

/// The switches for a Mistral model follow the conversation as the client sent it, whatever
/// the rewriting makes of it.
pub proof fn law_mistral_switches_follow_the_client(
    json: JsonView,
    model: Seq<char>,
    rules: ModelRules,
)
    requires
        json is Obj,
        mistral_model(model),
    ensures
        uses_tools(json) ==> rewritten_conversation(json, model, rules).get(
            "add_generation_prompt"@,
        ) == Some(JsonView::Bool(false)),
        !uses_tools(json) ==> rewritten_conversation(json, model, rules).get(
            "add_generation_prompt"@,
        ) == json.get("add_generation_prompt"@),
        ends_with_assistant(json) ==> rewritten_conversation(json, model, rules).get(
            "continue_final_message"@,
        ) == Some(JsonView::Bool(true)),
        !ends_with_assistant(json) ==> rewritten_conversation(json, model, rules).get(
            "continue_final_message"@,
        ) == json.get("continue_final_message"@),
{
    lemma_tuning_lengths();
    let a = with_mistral_params(json, model);
    let b = with_minimax_hint(a, model);
    let c = sanitized(b);
    let d = retagged(c, rules.developer, rules.tool);
    let e = with_ordered_messages(d);
    let f = rewritten_conversation(json, model, rules);
    let p = "add_generation_prompt"@;
    let q = "continue_final_message"@;
    assert(b.get(p) == a.get(p) && b.get(q) == a.get(q));
    assert(c.get(p) == b.get(p) && c.get(q) == b.get(q));
    assert(d.get(p) == c.get(p) && d.get(q) == c.get(q));
    assert(e.get(p) == d.get(p) && e.get(q) == d.get(q));
    assert(f.get(p) == e.get(p) && f.get(q) == e.get(q));
}

/// After upstream said that a model is blocked, the router offers another one, where some
/// other one is not to be avoided.
pub proof fn law_router_leaves_a_blocked_model(
    before: AppState,
    after: AppState,
    model: Seq<char>,
    now_ms: u64,
    k: int,
)
    requires
        after.wf(),
        noted(before, after, Effect::ServerDegraded(model), now_ms),
        0 <= k < after.routed_names().len(),
        !record_degraded(
            record_of(after.model_stats.records(), after.routed_names()[k]),
            after.model_stats.spike_threshold_us,
        ),
    ensures
        offered_model(after) matches Some(m) && m != model,
{
    law_router_avoids_degraded_models(after, k);
}

/// A request for a given model is rewritten in the same way whether the model is handed in or
/// named by the client: the same text goes out, for that model, and no turn of the router is
/// taken. Where it is read back, it names the model. `named` is the client's text with the
/// model named in it.
pub proof fn law_both_ways_agree(
    body: Seq<u8>,
    named: Seq<u8>,
    json: JsonView,
    model: Seq<char>,
    state: AppState,
)
    requires
        json_parse(body) == Some(json),
        json is Obj,
        !choice_open(normalized_model(model)),
        json_parse(named) == Some(json.put("model"@, JsonView::Str(model))),
    ensures
        body_for(body, model, state) == Some(body_resolution(named, state).1),
        body_resolution(named, state).0 == model,
        !takes_turn(json_parse(named), state),
        ({
            let out = body_resolution(named, state).1;
            let request = request_for(json, model, state);
            reads_back(out, request) && readable(request, MAX_DEPTH as nat) ==> requested_model(
                json_parse(out),
            ) == model
        }),
{
    let out = body_resolution(named, state).1;
    let request = request_for(json, model, state);
    if reads_back(out, request) && readable(request, MAX_DEPTH as nat) {
        law_header_matches_the_request(out, json, model, state);
    }
    let asked = json.put("model"@, JsonView::Str(model));
    assert(asked.get_str("model"@) == Some(model));
    assert(with_choice(asked, state.router is Some, offered_model(state)) == asked);
}

/// Whether a value has a member, where there is something to assign to it and it can be
/// assigned.
spec fn holds(j: JsonView, key: Seq<char>, value: Option<JsonView>) -> bool {
    value matches Some(v) ==> (j.assignable() ==> j.get(key) == Some(v))
}

/// Assigning what a value has changes nothing.
proof fn lemma_assigned_again(j: JsonView, key: Seq<char>, value: Option<JsonView>)
    requires
        holds(j, key, value),
    ensures
        assigned(j, key, value) == j,
{
    if value is Some && j is Obj {
        let m = j->Obj_0;
        assert(m.insert(key, m[key]) =~= m);
    }
}

proof fn lemma_keys_differ()
    ensures
        "top_p"@ != "top_k"@,
        "top_p"@ != "min_p"@,
        "top_k"@ != "min_p"@,
        "presence_penalty"@ != "reasoning_budget"@,
        "presence_penalty"@ != "reasoning_effort"@,
        "reasoning_budget"@ != "reasoning_effort"@,
{
    reveal_strlit("top_p");
    reveal_strlit("top_k");
    reveal_strlit("min_p");
    reveal_strlit("presence_penalty");
    reveal_strlit("reasoning_budget");
    reveal_strlit("reasoning_effort");
    assert("top_p"@[4] == 'p');
    assert("top_k"@[4] == 'k');
    assert("min_p"@[0] == 'm');
    assert("top_p"@[0] == 't');
    assert("top_k"@[0] == 't');
    assert("presence_penalty"@[0] == 'p');
    assert("reasoning_budget"@[0] == 'r');
    assert("reasoning_effort"@[0] == 'r');
    assert("reasoning_budget"@[10] == 'b');
    assert("reasoning_effort"@[10] == 'e');
}

/// The effort that a configuration sets, as JSON.
spec fn effort_json(p: ParamsView) -> Option<JsonView> {
    match p.reasoning_effort {
        Some(s) => Some(JsonView::Str(s)),
        None => None,
    }
}

/// Whether a request has all that a configuration sets.
spec fn tuned(r: JsonView, p: ParamsView) -> bool {
    &&& holds(r, "temperature"@, p.temperature)
    &&& holds(r, "top_p"@, p.top_p)
    &&& holds(r, "top_k"@, p.top_k)
    &&& holds(r, "frequency_penalty"@, p.frequency_penalty)
    &&& holds(r, "presence_penalty"@, p.presence_penalty)
    &&& holds(r, "repetition_penalty"@, p.repetition_penalty)
    &&& holds(r, "min_p"@, p.min_p)
    &&& holds(r, "reasoning_budget"@, p.reasoning_budget)
    &&& holds(r, "seed"@, p.seed)
    &&& holds(r, "reasoning_effort"@, effort_json(p))
    &&& p.max_tokens is Some && r.assignable() ==> r.get("max_tokens"@) is Some
}

proof fn lemma_tuning_holds(json: JsonView, p: ParamsView)
    ensures
        tuned(with_tuning(json, p), p),
{
    lemma_tuning_lengths();
    lemma_keys_differ();
}

proof fn lemma_tuned_again(j: JsonView, p: ParamsView)
    requires
        tuned(j, p),
    ensures
        with_tuning(j, p) == j,
{
    lemma_assigned_again(j, "temperature"@, p.temperature);
    lemma_assigned_again(j, "top_p"@, p.top_p);
    lemma_assigned_again(j, "top_k"@, p.top_k);
    lemma_assigned_again(j, "frequency_penalty"@, p.frequency_penalty);
    lemma_assigned_again(j, "presence_penalty"@, p.presence_penalty);
    lemma_assigned_again(j, "repetition_penalty"@, p.repetition_penalty);
    lemma_assigned_again(j, "min_p"@, p.min_p);
    lemma_assigned_again(j, "reasoning_budget"@, p.reasoning_budget);
    lemma_assigned_again(j, "seed"@, p.seed);
    lemma_assigned_again(j, "reasoning_effort"@, effort_json(p));
    if j.get("max_tokens"@) is None && p.max_tokens is Some {
        assert(!j.assignable());
    }
}

/// Applying a model's configuration twice is applying it once.
pub proof fn law_params_are_stable(json: JsonView, p: ParamsView)
    ensures
        with_params(with_params(json, p), p) == with_params(json, p),
{
    lemma_tuning_lengths();
    lemma_keys_differ();
    lemma_tuning_holds(json, p);
    let first = with_tuning(json, p);
    let moded = stream_defaulted(first, p.stream);
    assert(tuned(moded, p));
    let once = kwargs_merged(moded, p.chat_template_kwargs);
    assert(tuned(once, p));
    lemma_tuned_again(once, p);
    assert(once.get("stream"@) == moded.get("stream"@));
    assert(stream_defaulted(once, p.stream) == once);
    match (once, p.chat_template_kwargs) {
        (JsonView::Obj(m), Some(extra)) => {
            let key = "chat_template_kwargs"@;
            let base = members_or_none(moded.get(key));
            assert(base.union_prefer_right(extra).union_prefer_right(extra)
                =~= base.union_prefer_right(extra));
            assert(m.insert(key, m[key]) =~= m);
        },
        _ => {},
    }
}

/// What a configuration sets, or else what a request has.
pub open spec fn set_or_kept(set: Option<JsonView>, kept: Option<JsonView>) -> Option<JsonView> {
    match set {
        Some(v) => Some(v),
        None => kept,
    }
}

/// Assigning a member sets it, and changes no other.
proof fn lemma_assigned_member(j: JsonView, key: Seq<char>, value: Option<JsonView>)
    requires
        j.assignable(),
    ensures
        assigned(j, key, value).assignable(),
        assigned(j, key, value).get(key) == set_or_kept(value, j.get(key)),
        forall|k: Seq<char>| k != key ==> #[trigger] assigned(j, key, value).get(k) == j.get(k),
{
}

proof fn lemma_tuned_members(json: JsonView, p: ParamsView)
    requires
        json.assignable(),
    ensures
        ({
            let out = with_tuning(json, p);
            &&& out.get("temperature"@) == set_or_kept(p.temperature, json.get("temperature"@))
            &&& out.get("top_p"@) == set_or_kept(p.top_p, json.get("top_p"@))
            &&& out.get("top_k"@) == set_or_kept(p.top_k, json.get("top_k"@))
            &&& out.get("frequency_penalty"@) == set_or_kept(
                p.frequency_penalty,
                json.get("frequency_penalty"@),
            )
            &&& out.get("presence_penalty"@) == set_or_kept(
                p.presence_penalty,
                json.get("presence_penalty"@),
            )
            &&& out.get("repetition_penalty"@) == set_or_kept(
                p.repetition_penalty,
                json.get("repetition_penalty"@),
            )
            &&& out.get("min_p"@) == set_or_kept(p.min_p, json.get("min_p"@))
            &&& out.get("max_tokens"@) == set_or_kept(json.get("max_tokens"@), p.max_tokens)
            &&& out.get("reasoning_budget"@) == set_or_kept(
                p.reasoning_budget,
                json.get("reasoning_budget"@),
            )
            &&& out.get("reasoning_effort"@) == set_or_kept(
                effort_json(p),
                json.get("reasoning_effort"@),
            )
            &&& out.get("seed"@) == set_or_kept(p.seed, json.get("seed"@))
            &&& out.get("stream"@) == json.get("stream"@)
            &&& out.assignable()
        }),
{
    lemma_tuning_lengths();
    lemma_keys_differ();
    let a = assigned(json, "temperature"@, p.temperature);
    let b = assigned(a, "top_p"@, p.top_p);
    let c = assigned(b, "top_k"@, p.top_k);
    let d = assigned(c, "frequency_penalty"@, p.frequency_penalty);
    let e = assigned(d, "presence_penalty"@, p.presence_penalty);
    let f = assigned(e, "repetition_penalty"@, p.repetition_penalty);
    let g = assigned(f, "min_p"@, p.min_p);
    let h = assigned_if_absent(g, "max_tokens"@, p.max_tokens);
    let i = assigned(h, "reasoning_budget"@, p.reasoning_budget);
    let j = assigned(i, "reasoning_effort"@, effort_json(p));
    let k = assigned(j, "seed"@, p.seed);
    lemma_assigned_member(json, "temperature"@, p.temperature);
    lemma_assigned_member(a, "top_p"@, p.top_p);
    lemma_assigned_member(b, "top_k"@, p.top_k);
    lemma_assigned_member(c, "frequency_penalty"@, p.frequency_penalty);
    lemma_assigned_member(d, "presence_penalty"@, p.presence_penalty);
    lemma_assigned_member(e, "repetition_penalty"@, p.repetition_penalty);
    lemma_assigned_member(f, "min_p"@, p.min_p);
    lemma_assigned_member(g, "max_tokens"@, p.max_tokens);
    lemma_assigned_member(h, "reasoning_budget"@, p.reasoning_budget);
    lemma_assigned_member(i, "reasoning_effort"@, effort_json(p));
    lemma_assigned_member(j, "seed"@, p.seed);
    assert(k == with_tuning(json, p));
    assert(h.get("max_tokens"@) == set_or_kept(g.get("max_tokens"@), p.max_tokens));
}

/// A request gets what its model's configuration sets, under the name of each setting, and keeps
/// what it has where nothing is set. A token limit is only set where the request has none, and
/// streaming is only ever switched off, where the request does not choose.
pub proof fn law_params_are_set(json: JsonView, p: ParamsView)
    requires
        json.assignable(),
    ensures
        ({
            let out = with_params(json, p);
            let undecided = json.get("stream"@) is None || json.get("stream"@) == Some(
                JsonView::Null,
            );
            &&& out.get("temperature"@) == set_or_kept(p.temperature, json.get("temperature"@))
            &&& out.get("top_p"@) == set_or_kept(p.top_p, json.get("top_p"@))
            &&& out.get("top_k"@) == set_or_kept(p.top_k, json.get("top_k"@))
            &&& out.get("frequency_penalty"@) == set_or_kept(
                p.frequency_penalty,
                json.get("frequency_penalty"@),
            )
            &&& out.get("presence_penalty"@) == set_or_kept(
                p.presence_penalty,
                json.get("presence_penalty"@),
            )
            &&& out.get("repetition_penalty"@) == set_or_kept(
                p.repetition_penalty,
                json.get("repetition_penalty"@),
            )
            &&& out.get("min_p"@) == set_or_kept(p.min_p, json.get("min_p"@))
            &&& out.get("reasoning_budget"@) == set_or_kept(
                p.reasoning_budget,
                json.get("reasoning_budget"@),
            )
            &&& out.get("seed"@) == set_or_kept(p.seed, json.get("seed"@))
            &&& out.get("max_tokens"@) == set_or_kept(json.get("max_tokens"@), p.max_tokens)
            &&& out.get("reasoning_effort"@) == match p.reasoning_effort {
                Some(effort) => Some(JsonView::Str(effort)),
                None => json.get("reasoning_effort"@),
            }
            &&& out.get("stream"@) == (if p.stream == Some(false) && undecided {
                Some(JsonView::Bool(false))
            } else {
                json.get("stream"@)
            })
        }),
{
    lemma_tuning_lengths();
    lemma_keys_differ();
    let tuned = with_tuning(json, p);
    let moded = stream_defaulted(tuned, p.stream);
    lemma_tuned_members(json, p);
    assert forall|k: Seq<char>| k != "stream"@ implies #[trigger] moded.get(k) == tuned.get(k) by {}
    let out = kwargs_merged(moded, p.chat_template_kwargs);
    assert forall|k: Seq<char>| k != "chat_template_kwargs"@ implies #[trigger] out.get(k)
        == moded.get(k) by {}
}

/// The template arguments of a request are those that it has and those that are configured; the
/// configured ones prevail. Where none are configured they stay as they are.
pub proof fn law_template_arguments_are_merged(json: JsonView, p: ParamsView, key: Seq<char>)
    requires
        json is Obj,
    ensures
        match p.chat_template_kwargs {
            None => with_params(json, p).get("chat_template_kwargs"@) == json.get(
                "chat_template_kwargs"@,
            ),
            Some(extra) => with_params(json, p).get("chat_template_kwargs"@) matches Some(args)
                && args is Obj && args.get(key) == (if extra.dom().contains(key) {
                Some(extra[key])
            } else {
                match json.get("chat_template_kwargs"@) {
                    Some(old_args) => old_args.get(key),
                    None => None,
                }
            }),
        },
{
    lemma_tuning_lengths();
    lemma_keys_differ();
    let name = "chat_template_kwargs"@;
    let tuned = with_tuning(json, p);
    let moded = stream_defaulted(tuned, p.stream);
    assert(tuned.get(name) == json.get(name));
    assert(moded.get(name) == json.get(name));
    assert(moded is Obj);
}

/// A stream is asked for exactly where the request says so with a true `stream`.
pub proof fn law_streams_are_asked_for(json: JsonView)
    ensures
        json.get("stream"@) == Some(JsonView::Bool(true)) ==> accepted_type(json)
            == "text/event-stream"@,
        json.get("stream"@) != Some(JsonView::Bool(true)) ==> accepted_type(json)
            == "application/json"@,
{
}

/// Whether a request names a model of its own: one that is not empty and stands for no automatic
/// choice.
pub open spec fn names_a_model(json: JsonView) -> bool {
    json.get("model"@) matches Some(JsonView::Str(m)) && m.len() > 0 && m != "auto"@ && m
        != "nimaproxy/auto"@
}

/// A request that names a model goes to it, as it names it, and takes no turn of the router. Any
/// other goes to the model that the router offers, and takes its turn. Without an offer it goes
/// where it says; where it says nothing, to an unknown model, and without a router the alias of
/// the automatic choice is resolved.
pub proof fn law_requests_go_where_they_say(json: JsonView, state: AppState)
    requires
        json is Obj,
    ensures
        ({
            let (model, out) = resolution(json, offered_model(state), state);
            let asked = json.get_str("model"@);
            &&& names_a_model(json) ==> Some(model) == asked && out.get_str("model"@) == asked
                && !takes_turn(Some(json), state)
            &&& !names_a_model(json) && offered_model(state) is Some ==> Some(model)
                == offered_model(state) && out.get_str("model"@) == offered_model(state)
                && takes_turn(Some(json), state)
            &&& offered_model(state) is None ==> !takes_turn(Some(json), state)
            &&& offered_model(state) is None && asked is None ==> model == "unknown"@
            &&& !names_a_model(json) && state.router is None && (asked == Some("auto"@) || asked
                == Some("nimaproxy/auto"@)) ==> model == "auto"@ && out.get_str("model"@) == Some(
                "auto"@,
            )
        }),
{
    lemma_tuning_lengths();
    reveal_strlit("");
    reveal_strlit("auto");
    reveal_strlit("nimaproxy/auto");
    assert(""@.len() == 0);
    assert("auto"@.len() == 4);
    assert("nimaproxy/auto"@.len() == 14);
    let offered = offered_model(state);
    let chosen = with_choice(json, state.router is Some, offered);
    let model = named_model(chosen);
    let rules = rules_of(state, model);
    law_rewriting_keeps_other_members(chosen, model, rules, "model"@);
    match rules.params {
        Some(p) => {
            law_params_keep_other_members(
                rewritten_conversation(chosen, model, rules),
                p,
                "model"@,
            );
        },
        None => {},
    }
}

/// A text that is not JSON goes upstream as it is, to an unknown model, and takes no turn of the
/// router; and no request for a model is made of it.
pub proof fn law_other_texts_stay(body: Seq<u8>, model: Seq<char>, state: AppState)
    requires
        json_parse(body) is None,
    ensures
        body_resolution(body, state) == ("unknown"@, body),
        !takes_turn(json_parse(body), state),
        body_for(body, model, state) is None,
{
}

/// Rewriting keeps the members of a request, whatever its model: all but the messages, the tools,
/// the two switches for Mistral models and what the configuration can set.
pub proof fn law_request_keeps_other_members(
    json: JsonView,
    model: Seq<char>,
    state: AppState,
    key: Seq<char>,
)
    requires
        json is Obj,
        !tunable(key),
        key != "model"@,
        key != "messages"@,
        key != "tools"@,
        key != "add_generation_prompt"@,
        key != "continue_final_message"@,
    ensures
        request_for(json, model, state).get(key) == json.get(key),
        resolution(json, offered_model(state), state).1.get(key) == json.get(key),
{
    let rules = rules_of(state, model);
    let named = json.put("model"@, JsonView::Str(model));
    law_rewriting_keeps_other_members(named, model, rules, key);
    match rules.params {
        Some(p) => {
            law_params_keep_other_members(rewritten_conversation(named, model, rules), p, key);
        },
        None => {},
    }
    let chosen = with_choice(json, state.router is Some, offered_model(state));
    let other = named_model(chosen);
    let other_rules = rules_of(state, other);
    law_rewriting_keeps_other_members(chosen, other, other_rules, key);
    match other_rules.params {
        Some(p) => {
            law_params_keep_other_members(
                rewritten_conversation(chosen, other, other_rules),
                p,
                key,
            );
        },
        None => {},
    }
}

/// A model's configuration reaches the requests for it: what it sets stands in every request
/// that goes to the model, and a model without one gets the conversation as it was rewritten.
pub proof fn law_request_has_the_models_settings(json: JsonView, model: Seq<char>, state: AppState)
    ensures
        ({
            let rules = rules_of(state, model);
            let talk = rewritten_conversation(
                json.put("model"@, JsonView::Str(model)),
                model,
                rules,
            );
            match rules.params {
                Some(p) => request_for(json, model, state) == with_params(talk, p),
                None => request_for(json, model, state) == talk,
            }
        }),
        rows(state.model_params@).dom().contains(model) <==> rules_of(state, model).params is Some,
        rows(state.model_params@).dom().contains(model) ==> rules_of(state, model).params == Some(
            rows(state.model_params@)[model]@,
        ),
        rules_of(state, model).developer <==> (
        state.model_compat.supports_developer_role matches Some(list) && !names(list@).contains(
            model,
        )),
        rules_of(state, model).tool <==> (
        state.model_compat.supports_tool_messages matches Some(list) && !names(list@).contains(
            model,
        )),
{
}

/// A text that is not JSON and JSON that takes members can always be resolved. Any other JSON can
/// exactly where no model is offered for it and no settings are kept for an unknown one.
pub proof fn law_which_requests_can_be_resolved(body: Seq<u8>, json: JsonView, state: AppState)
    requires
        json_parse(body) == Some(json),
    ensures
        json is Obj || json is Null ==> body_resolvable(body, state) && body_assignable(body),
        !(json is Obj) && !(json is Null) ==> {
            &&& !body_assignable(body)
            &&& offered_model(state) is Some ==> !body_resolvable(body, state)
            &&& offered_model(state) is None && !rows(state.model_params@).dom().contains(
                "unknown"@,
            ) ==> body_resolvable(body, state)
            &&& offered_model(state) is None && rows(state.model_params@).dom().contains(
                "unknown"@,
            ) ==> (body_resolvable(body, state) <==> !sets_anything(
                rows(state.model_params@)["unknown"@]@,
            ))
        },
{
}

/// A text that is not JSON can always be resolved.
pub proof fn law_other_texts_can_be_resolved(body: Seq<u8>, state: AppState)
    requires
        json_parse(body) is None,
    ensures
        body_resolvable(body, state),
        body_assignable(body),
{
}

/// Whether a configuration sets a member of a request that has none. Template arguments alone do
/// not, nor does a default to stream.
pub open spec fn sets_anything(p: ParamsView) -> bool {
    !(p.temperature is None && p.top_p is None && p.top_k is None && p.frequency_penalty is None
        && p.presence_penalty is None && p.repetition_penalty is None && p.min_p is None
        && p.max_tokens is None && p.reasoning_budget is None && p.reasoning_effort is None
        && p.seed is None && p.stream != Some(false))
}

/// The media type that a text asks for is that of the request in it; JSON where it holds none.
pub proof fn law_texts_ask_for_their_type(body: Seq<u8>)
    ensures
        json_parse(body) matches Some(json) ==> accepted_type_of_body(body) == (if json.get(
            "stream"@,
        ) == Some(JsonView::Bool(true)) {
            "text/event-stream"@
        } else {
            "application/json"@
        }),
        json_parse(body) is None ==> accepted_type_of_body(body) == "application/json"@,
{
}

/// The model that a text asks for is the string that its request names; none where it names no
/// string, or is not JSON.
pub proof fn law_texts_ask_for_their_model(body: Seq<u8>)
    ensures
        json_parse(body) matches Some(json) ==> requested_model(json_parse(body)) == match json.get(
            "model"@,
        ) {
            Some(JsonView::Str(m)) => m,
            _ => ""@,
        },
        json_parse(body) is None ==> requested_model(json_parse(body)) == ""@,
{
}

} // verus!
