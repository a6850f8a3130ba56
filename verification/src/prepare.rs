//! From the request of a client to the request that goes upstream.

use vstd::prelude::*;

use crate::json::{Json, JsonView};
use crate::messages::{
    fix_message_ordering, inject_minimax_system_message, inject_mistral_tool_params, normalized,
    normalize_assistant_messages, replace_roles, retagged, sanitize_tool_calls, sanitized,
    with_minimax_hint, with_mistral_params, with_ordered_messages,
};
use crate::model_id::{normalize_requested_model, normalized_model};
use crate::params::{apply_model_params, assigns_members, with_params, ModelParams, ParamsView};
use crate::pool::ring;
use crate::router::{routed_model, turn_of};
use crate::state::{unsupported, AppState};
use crate::table::{find_row, names, rows};
use crate::text::str_eq;
use crate::wire::{json_parse, json_text, parse_json, print_json, reads_back};

verus! {

/// What the configuration says of a model's requests.
pub struct ModelRules {
    pub developer: bool,
    pub tool: bool,
    pub params: Option<ParamsView>,
}

/// The configured parameters of a model.
pub open spec fn params_of(state: AppState, model: Seq<char>) -> Option<ParamsView> {
    let table = rows(state.model_params@);
    if table.dom().contains(model) {
        Some(table[model]@)
    } else {
        None
    }
}

/// What the state says of a model's requests.
pub open spec fn rules_of(state: AppState, model: Seq<char>) -> ModelRules {
    ModelRules {
        developer: unsupported(state.model_compat.supports_developer_role, model),
        tool: unsupported(state.model_compat.supports_tool_messages, model),
        params: params_of(state, model),
    }
}

/// A request with its conversation rewritten for a model: the hints for its family first,
/// while the tool messages are still recognisable; then the tool calls, then the roles, so
/// that the order is mended for the roles that are sent; the assistant's messages last.
pub open spec fn rewritten_conversation(
    json: JsonView,
    model: Seq<char>,
    rules: ModelRules,
) -> JsonView {
    let j = with_minimax_hint(with_mistral_params(json, model), model);
    normalized(with_ordered_messages(retagged(sanitized(j), rules.developer, rules.tool)))
}

/// A request rewritten for a model, with the model's configured parameters.
pub open spec fn rewritten(json: JsonView, model: Seq<char>, rules: ModelRules) -> JsonView {
    let j = rewritten_conversation(json, model, rules);
    match rules.params {
        Some(p) => with_params(j, p),
        None => j,
    }
}

/// Whether the configured parameters can be added to a request.
pub open spec fn takes_params(json: JsonView, rules: ModelRules) -> bool {
    json.assignable() || (rules.params matches Some(p) ==> !assigns_members(p))
}

/// Rewriting the conversation changes members of an object only: anything else stays what it
/// is.
pub proof fn lemma_rewriting_keeps_kind(json: JsonView, model: Seq<char>, rules: ModelRules)
    ensures
        rewritten_conversation(json, model, rules).assignable() == json.assignable(),
        !(json is Obj) ==> rewritten_conversation(json, model, rules) == json,
{
}

/// Replaces the roles that a model does not take, by the state: "developer" by "user", "tool"
/// by "assistant". Nothing else of a message changes.
pub fn transform_message_roles(json: &mut Json, model_id: &str, state: &AppState)
    ensures
        ({
            let rules = rules_of(*state, model_id@);
            final(json)@ == retagged(old(json)@, rules.developer, rules.tool)
        }),
{
    let developer: bool = state.model_compat.should_transform_developer_role(model_id);
    let tool: bool = state.model_compat.should_transform_tool_messages(model_id);
    replace_roles(json, developer, tool);
}

/// Rewrites a request for a model.
pub fn rewrite_request(json: &mut Json, model_id: &str, state: &AppState)
    requires
        takes_params(old(json)@, rules_of(*state, model_id@)),
    ensures
        final(json)@ == rewritten(old(json)@, model_id@, rules_of(*state, model_id@)),
{
    proof {
        lemma_rewriting_keeps_kind(json@, model_id@, rules_of(*state, model_id@));
    }
    inject_mistral_tool_params(json, model_id);
    inject_minimax_system_message(json, model_id);
    sanitize_tool_calls(json);
    transform_message_roles(json, model_id, state);
    fix_message_ordering(json);
    normalize_assistant_messages(json);
    let params: Option<&ModelParams> = find_row(&state.model_params, model_id);
    match params {
        Some(p) => apply_model_params(json, p),
        None => {},
    }
}

// ---------------------------------------------------------------------------------------
// One model
// ---------------------------------------------------------------------------------------

/// A request for a model, rewritten for it.
pub open spec fn request_for(json: JsonView, model: Seq<char>, state: AppState) -> JsonView {
    rewritten(json.put("model"@, JsonView::Str(model)), model, rules_of(state, model))
}

/// The text of a request for a model; none where the client's text is not JSON.
pub open spec fn body_for(body: Seq<u8>, model: Seq<char>, state: AppState) -> Option<Seq<u8>> {
    match json_parse(body) {
        Some(json) => Some(json_text(request_for(json, model, state))),
        None => None,
    }
}

/// Whether the text of a request for a model is read back as that request, if that is readable,
/// but for floating point numbers.
pub open spec fn carries_request(
    text: Seq<u8>,
    body: Seq<u8>,
    model: Seq<char>,
    state: AppState,
) -> bool {
    json_parse(body) matches Some(json) ==> reads_back(text, request_for(json, model, state))
}

/// Whether the text that a client's text was resolved to is read back as the request that was
/// resolved, if that is readable, but for floating point numbers.
pub open spec fn carries_resolution(text: Seq<u8>, body: Seq<u8>, state: AppState) -> bool {
    json_parse(body) matches Some(json) ==> reads_back(
        text,
        resolution(json, offered_model(state), state).1,
    )
}

/// Whether a text is not JSON, or is JSON to which members can be assigned.
pub open spec fn body_assignable(body: Seq<u8>) -> bool {
    json_parse(body) matches Some(json) ==> json.assignable()
}

/// Makes the request for a model out of a client's request.
pub fn request_for_model(json: &mut Json, model_id: &str, state: &AppState)
    requires
        old(json)@.assignable(),
    ensures
        final(json)@ == request_for(old(json)@, model_id@, *state),
{
    json.put("model", Json::Str(model_id.to_owned()));
    rewrite_request(json, model_id, state);
}

/// Makes the text of the request for a model; nothing where the client's text is not JSON.
pub fn prepare_model_body(state: &AppState, body: &[u8], model_id: &str) -> (r: Option<Vec<u8>>)
    requires
        body_assignable(body@),
    ensures
        match r {
            Some(b) => body_for(body@, model_id@, *state) == Some(b@) && carries_request(
                b@,
                body@,
                model_id@,
                *state,
            ),
            None => body_for(body@, model_id@, *state) is None,
        },
{
    match parse_json(body) {
        Some(json) => {
            let mut json: Json = json;
            request_for_model(&mut json, model_id, state);
            Some(print_json(json))
        },
        None => None,
    }
}

/// What became of a client's request.
pub enum Prepared {
    /// The text of the request for the model.
    Ready(Vec<u8>),
    /// The client's text is not JSON.
    NotJson,
    /// The client's text is JSON to which no members can be assigned: an array, a string, a
    /// number or a truth value.
    NotAssignable,
}

/// Makes the text of the request for a model out of any text.
pub fn prepare_any_body(state: &AppState, body: &[u8], model_id: &str) -> (r: Prepared)
    ensures
        match r {
            Prepared::Ready(b) => body_assignable(body@) && body_for(body@, model_id@, *state)
                == Some(b@) && carries_request(b@, body@, model_id@, *state),
            Prepared::NotJson => json_parse(body@) is None,
            Prepared::NotAssignable => !body_assignable(body@),
        },
{
    match parse_json(body) {
        Some(json) => if json.is_assignable() {
            match prepare_model_body(state, body, model_id) {
                Some(b) => Prepared::Ready(b),
                None => Prepared::NotJson,
            }
        } else {
            Prepared::NotAssignable
        },
        None => Prepared::NotJson,
    }
}

// ---------------------------------------------------------------------------------------
// The requested model, or the router's choice
// ---------------------------------------------------------------------------------------

/// The name of the model that a request asks for; empty where it asks for none.
pub open spec fn requested_model(json: Option<JsonView>) -> Seq<char> {
    match json {
        Some(j) => match j.get_str("model"@) {
            Some(m) => m,
            None => ""@,
        },
        None => ""@,
    }
}

/// Whether a name leaves the choice of the model open.
pub open spec fn choice_open(requested: Seq<char>) -> bool {
    requested.len() == 0 || requested == "auto"@
}

/// The model that the state's router offers next.
pub open spec fn offered_model(state: AppState) -> Option<Seq<char>> {
    match state.router {
        Some(router) => routed_model(
            names(router.models@),
            router.cursor as int,
            state.model_stats.records(),
            state.model_stats.spike_threshold_us,
        ),
        None => None,
    }
}

/// A request after the router's choice was written into it. Without a router the alias of the
/// automatic choice is resolved.
pub open spec fn with_choice(
    json: JsonView,
    has_router: bool,
    offered: Option<Seq<char>>,
) -> JsonView {
    let requested = normalized_model(requested_model(Some(json)));
    if !choice_open(requested) {
        json
    } else if has_router {
        match offered {
            Some(m) => json.put("model"@, JsonView::Str(m)),
            None => json,
        }
    } else if requested == "auto"@ {
        json.put("model"@, JsonView::Str("auto"@))
    } else {
        json
    }
}

/// The model that a request names.
pub open spec fn named_model(json: JsonView) -> Seq<char> {
    match json.get_str("model"@) {
        Some(m) => m,
        None => "unknown"@,
    }
}

/// The model that a request goes to, and the request that goes to it.
pub open spec fn resolution(
    json: JsonView,
    offered: Option<Seq<char>>,
    state: AppState,
) -> (Seq<char>, JsonView) {
    let chosen = with_choice(json, state.router is Some, offered);
    let model = named_model(chosen);
    (model, rewritten(chosen, model, rules_of(state, model)))
}

/// Whether a request can be resolved: members can be assigned to it, or nothing assigns any.
pub open spec fn resolvable(json: JsonView, offered: Option<Seq<char>>, state: AppState) -> bool {
    json.assignable() || (offered is None && takes_params(json, rules_of(state, "unknown"@)))
}

/// Whether a text is not JSON, or is JSON that can be resolved.
pub open spec fn body_resolvable(body: Seq<u8>, state: AppState) -> bool {
    json_parse(body) matches Some(json) ==> resolvable(json, offered_model(state), state)
}

/// The model that a text goes to, and the text that goes to it. A text that is not JSON goes
/// as it is, to an unknown model.
pub open spec fn body_resolution(body: Seq<u8>, state: AppState) -> (Seq<char>, Seq<u8>) {
    match json_parse(body) {
        Some(json) => {
            let (model, out) = resolution(json, offered_model(state), state);
            (model, json_text(out))
        },
        None => ("unknown"@, body),
    }
}

/// Whether resolving a request takes a turn of the router.
pub open spec fn takes_turn(json: Option<JsonView>, state: AppState) -> bool {
    json is Some && choice_open(normalized_model(requested_model(json))) && offered_model(state)
        is Some
}

/// The state after a turn of its router, where one was taken.
pub open spec fn after_turn(before: AppState, after: AppState, taken: bool) -> bool {
    &&& after.pool == before.pool
    &&& after.model_stats == before.model_stats
    &&& after.available_models == before.available_models
    &&& after.racing_models == before.racing_models
    &&& after.racing_max_parallel == before.racing_max_parallel
    &&& after.racing_timeout_ms == before.racing_timeout_ms
    &&& after.racing_cursor == before.racing_cursor
    &&& after.model_params == before.model_params
    &&& after.model_compat == before.model_compat
    &&& after.controls == before.controls
    &&& after.upstream_in_flight == before.upstream_in_flight
    &&& after.metrics == before.metrics
    &&& match (before.router, after.router) {
        (Some(b), Some(a)) => {
            &&& a.models == b.models
            &&& a.cursor as int == (if taken {
                ring(
                    turn_of(
                        names(b.models@),
                        b.cursor as int,
                        before.model_stats.records(),
                        before.model_stats.spike_threshold_us,
                    ),
                    1,
                    b.models@.len() as int,
                )
            } else {
                b.cursor as int
            })
        },
        (None, None) => true,
        _ => false,
    }
}

/// The model that the text of a request asks for; empty where it asks for none.
pub fn requested_model_of(body: &[u8]) -> (r: String)
    ensures
        r@ == requested_model(json_parse(body@)),
{
    match parse_json(body) {
        Some(json) => model_asked_for(&json),
        None => "".to_owned(),
    }
}

/// The model that a request asks for; empty where it asks for none.
pub fn model_asked_for(json: &Json) -> (r: String)
    ensures
        r@ == requested_model(Some(json@)),
{
    match json.get_str("model") {
        Some(m) => m.to_owned(),
        None => "".to_owned(),
    }
}

/// Writes the choice of a model into a request, and rewrites the request for that model.
/// `offered` is what the router offers.
pub fn resolve_request(json: &mut Json, offered: Option<&str>, state: &AppState) -> (r: String)
    requires
        offered matches Some(m) ==> resolvable(old(json)@, Some(m@), *state),
        offered is None ==> resolvable(old(json)@, None, *state),
    ensures
        ({
            let offer = match offered {
                Some(m) => Some(m@),
                None => None,
            };
            resolution(old(json)@, offer, *state) == (r@, final(json)@)
        }),
{
    let ghost before = json@;
    let ghost offer = match offered {
        Some(m) => Some(m@),
        None => None,
    };
    let requested: String = match json.get_str("model") {
        Some(m) => normalize_requested_model(m).to_owned(),
        None => normalize_requested_model("").to_owned(),
    };
    if requested.as_str().is_empty() || str_eq(requested.as_str(), "auto") {
        if state.router.is_some() {
            match offered {
                Some(picked) => json.put("model", Json::Str(picked.to_owned())),
                None => {},
            }
        } else if str_eq(requested.as_str(), "auto") {
            proof {
                lemma_auto_asked(before);
            }
            json.put("model", Json::Str("auto".to_owned()));
        }
    }
    assert(json@ == with_choice(before, state.router is Some, offer));
    let model_id: String = match json.get_str("model") {
        Some(m) => m.to_owned(),
        None => "unknown".to_owned(),
    };
    rewrite_request(json, model_id.as_str(), state);
    model_id
}

/// Only an object asks for the automatic choice by name.
proof fn lemma_auto_asked(json: JsonView)
    requires
        normalized_model(requested_model(Some(json))) == "auto"@,
    ensures
        json is Obj,
{
    reveal_strlit("");
    reveal_strlit("auto");
    reveal_strlit("nimaproxy/auto");
    assert(""@.len() == 0);
    assert("auto"@.len() == 4);
    assert("nimaproxy/auto"@.len() == 14);
}

/// Resolves the model of a request and rewrites its text for that model. Where the choice is
/// open the router makes it, and takes a turn.
pub fn resolve_model(body: &[u8], state: &mut AppState) -> (r: (String, Vec<u8>))
    requires
        old(state).wf(),
        body_resolvable(body@, *old(state)),
    ensures
        final(state).wf(),
        (r.0@, r.1@) == body_resolution(body@, *old(state)),
        carries_resolution(r.1@, body@, *old(state)),
        after_turn(*old(state), *final(state), takes_turn(json_parse(body@), *old(state))),
{
    match parse_json(body) {
        Some(json) => {
            let mut json: Json = json;
            let open: bool = {
                let asked: String = model_asked_for(&json);
                let name: &str = normalize_requested_model(asked.as_str());
                name.is_empty() || str_eq(name, "auto")
            };
            let offered: Option<String> = if open {
                take_turn(state)
            } else {
                None
            };
            let ghost offer = offered_model(*old(state));
            let model_id: String = match &offered {
                Some(m) => resolve_request(&mut json, Some(m.as_str()), state),
                None => resolve_request(&mut json, None, state),
            };
            (model_id, print_json(json))
        },
        None => ("unknown".to_owned(), slice_copy(body)),
    }
}

/// Whether a request can be resolved by the state.
pub fn can_resolve(json: &Json, state: &AppState) -> (r: bool)
    ensures
        r == resolvable(json@, offered_model(*state), *state),
{
    if json.is_assignable() {
        return true;
    }
    let offers: bool = match &state.router {
        Some(router) => router.models.len() > 0,
        None => false,
    };
    let assigns: bool = match find_row(&state.model_params, "unknown") {
        Some(p) => p.assigns_any(),
        None => false,
    };
    !offers && !assigns
}

/// Resolves the model of a request and rewrites its text for that model, whatever the text.
/// Nothing comes back, and the state stays, where members would have to be assigned to JSON
/// that takes none.
pub fn resolve_any_model(body: &[u8], state: &mut AppState) -> (r: Option<(String, Vec<u8>)>)
    requires
        old(state).wf(),
    ensures
        final(state).wf(),
        match r {
            Some((model, text)) => {
                &&& body_resolvable(body@, *old(state))
                &&& (model@, text@) == body_resolution(body@, *old(state))
                &&& carries_resolution(text@, body@, *old(state))
                &&& after_turn(
                    *old(state),
                    *final(state),
                    takes_turn(json_parse(body@), *old(state)),
                )
            },
            None => !body_resolvable(body@, *old(state)) && *final(state) == *old(state),
        },
{
    let fine: bool = match parse_json(body) {
        Some(json) => can_resolve(&json, state),
        None => true,
    };
    if fine {
        Some(resolve_model(body, state))
    } else {
        None
    }
}

/// Lets the router choose a model, where there is one.
fn take_turn(state: &mut AppState) -> (r: Option<String>)
    requires
        old(state).wf(),
    ensures
        final(state).wf(),
        match r {
            Some(m) => offered_model(*old(state)) == Some(m@),
            None => offered_model(*old(state)) is None,
        },
        after_turn(*old(state), *final(state), r is Some),
{
    let mut router: Option<crate::router::ModelRouter> = None;
    std::mem::swap(&mut router, &mut state.router);
    match router {
        Some(x) => {
            let mut x: crate::router::ModelRouter = x;
            let picked: Option<String> = x.pick(&state.model_stats);
            state.router = Some(x);
            picked
        },
        None => None,
    }
}

/// Copies bytes.
pub fn slice_copy(bytes: &[u8]) -> (r: Vec<u8>)
    ensures
        r@ == bytes@,
{
    let mut out: Vec<u8> = Vec::new();
    let mut i: usize = 0;
    while i < bytes.len()
        invariant
            i <= bytes@.len(),
            out@ == bytes@.take(i as int),
        decreases bytes@.len() - i,
    {
        out.push(bytes[i]);
        assert(bytes@.take(i + 1) =~= bytes@.take(i as int).push(bytes@[i as int]));
        i = i + 1;
    }
    assert(bytes@.take(bytes@.len() as int) =~= bytes@);
    out
}

} // verus!
