//! The defaults that a model's configuration adds to a request.

use vstd::prelude::*;

use crate::json::{json_view, members_view, Json, JsonView};
use crate::wire::{copy_json, json_parse, parse_json};

verus! {

/// What the configuration of a model sets. Numbers are held as the JSON values to send.
pub struct ModelParams {
    pub temperature: Option<Json>,
    pub top_p: Option<Json>,
    pub top_k: Option<Json>,
    pub frequency_penalty: Option<Json>,
    pub presence_penalty: Option<Json>,
    pub repetition_penalty: Option<Json>,
    pub min_p: Option<Json>,
    pub max_tokens: Option<Json>,
    pub reasoning_budget: Option<Json>,
    pub reasoning_effort: Option<String>,
    pub seed: Option<Json>,
    pub stream: Option<bool>,
    pub chat_template_kwargs: Option<Vec<(String, Json)>>,
}

/// The model of `ModelParams`.
pub struct ParamsView {
    pub temperature: Option<JsonView>,
    pub top_p: Option<JsonView>,
    pub top_k: Option<JsonView>,
    pub frequency_penalty: Option<JsonView>,
    pub presence_penalty: Option<JsonView>,
    pub repetition_penalty: Option<JsonView>,
    pub min_p: Option<JsonView>,
    pub max_tokens: Option<JsonView>,
    pub reasoning_budget: Option<JsonView>,
    pub reasoning_effort: Option<Seq<char>>,
    pub seed: Option<JsonView>,
    pub stream: Option<bool>,
    pub chat_template_kwargs: Option<Map<Seq<char>, JsonView>>,
}

/// The model of an optional value.
pub open spec fn option_json(v: Option<Json>) -> Option<JsonView> {
    match v {
        Some(j) => Some(j@),
        None => None,
    }
}

/// The model of an optional string.
pub open spec fn option_text(v: Option<String>) -> Option<Seq<char>> {
    match v {
        Some(s) => Some(s@),
        None => None,
    }
}

impl View for ModelParams {
    type V = ParamsView;

    open spec fn view(&self) -> ParamsView {
        ParamsView {
            temperature: option_json(self.temperature),
            top_p: option_json(self.top_p),
            top_k: option_json(self.top_k),
            frequency_penalty: option_json(self.frequency_penalty),
            presence_penalty: option_json(self.presence_penalty),
            repetition_penalty: option_json(self.repetition_penalty),
            min_p: option_json(self.min_p),
            max_tokens: option_json(self.max_tokens),
            reasoning_budget: option_json(self.reasoning_budget),
            reasoning_effort: option_text(self.reasoning_effort),
            seed: option_json(self.seed),
            stream: self.stream,
            chat_template_kwargs: match self.chat_template_kwargs {
                Some(members) => Some(members_view(members@)),
                None => None,
            },
        }
    }
}

impl ModelParams {
    /// A configuration that sets nothing.
    pub fn none() -> (r: ModelParams)
        ensures
            r@ == (ParamsView {
                temperature: None,
                top_p: None,
                top_k: None,
                frequency_penalty: None,
                presence_penalty: None,
                repetition_penalty: None,
                min_p: None,
                max_tokens: None,
                reasoning_budget: None,
                reasoning_effort: None,
                seed: None,
                stream: None,
                chat_template_kwargs: None,
            }),
    {
        ModelParams {
            temperature: None,
            top_p: None,
            top_k: None,
            frequency_penalty: None,
            presence_penalty: None,
            repetition_penalty: None,
            min_p: None,
            max_tokens: None,
            reasoning_budget: None,
            reasoning_effort: None,
            seed: None,
            stream: None,
            chat_template_kwargs: None,
        }
    }
}

/// A value with member `key` assigned, where there is something to assign.
pub open spec fn assigned(j: JsonView, key: Seq<char>, value: Option<JsonView>) -> JsonView {
    match value {
        Some(v) => j.put(key, v),
        None => j,
    }
}

/// A value with member `key` assigned, where it has no such member yet.
pub open spec fn assigned_if_absent(j: JsonView, key: Seq<char>, value: Option<JsonView>) -> JsonView {
    if j.get(key) is Some {
        j
    } else {
        assigned(j, key, value)
    }
}

/// A value with the response mode assigned: only "not streaming" is ever a default, and only
/// where the caller did not choose.
pub open spec fn stream_defaulted(j: JsonView, stream: Option<bool>) -> JsonView {
    if stream == Some(false) && (j.get("stream"@) is None || j.get("stream"@) == Some(
        JsonView::Null,
    )) {
        j.put("stream"@, JsonView::Bool(false))
    } else {
        j
    }
}

/// The members of an object, or none where the value is no object.
pub open spec fn members_or_none(j: Option<JsonView>) -> Map<Seq<char>, JsonView> {
    match j {
        Some(JsonView::Obj(m)) => m,
        _ => Map::empty(),
    }
}

/// An object with the template arguments merged into those that it has; the configured ones
/// prevail.
pub open spec fn kwargs_merged(j: JsonView, kwargs: Option<Map<Seq<char>, JsonView>>) -> JsonView {
    match kwargs {
        Some(extra) => if j is Obj {
            j.put(
                "chat_template_kwargs"@,
                JsonView::Obj(
                    members_or_none(j.get("chat_template_kwargs"@)).union_prefer_right(extra),
                ),
            )
        } else {
            j
        },
        None => j,
    }
}

/// A request with the numbers and the effort assigned that a configuration sets.
pub open spec fn with_tuning(json: JsonView, p: ParamsView) -> JsonView {
    let j = assigned(json, "temperature"@, p.temperature);
    let j = assigned(j, "top_p"@, p.top_p);
    let j = assigned(j, "top_k"@, p.top_k);
    let j = assigned(j, "frequency_penalty"@, p.frequency_penalty);
    let j = assigned(j, "presence_penalty"@, p.presence_penalty);
    let j = assigned(j, "repetition_penalty"@, p.repetition_penalty);
    let j = assigned(j, "min_p"@, p.min_p);
    let j = assigned_if_absent(j, "max_tokens"@, p.max_tokens);
    let j = assigned(j, "reasoning_budget"@, p.reasoning_budget);
    let j = assigned(
        j,
        "reasoning_effort"@,
        match p.reasoning_effort {
            Some(s) => Some(JsonView::Str(s)),
            None => None,
        },
    );
    assigned(j, "seed"@, p.seed)
}

/// A request after `apply_model_params`.
pub open spec fn with_params(json: JsonView, p: ParamsView) -> JsonView {
    kwargs_merged(stream_defaulted(with_tuning(json, p), p.stream), p.chat_template_kwargs)
}

/// Whether a configuration assigns members by key to a value that has none.
pub open spec fn assigns_members(p: ParamsView) -> bool {
    ||| p.temperature is Some
    ||| p.top_p is Some
    ||| p.top_k is Some
    ||| p.frequency_penalty is Some
    ||| p.presence_penalty is Some
    ||| p.repetition_penalty is Some
    ||| p.min_p is Some
    ||| p.max_tokens is Some
    ||| p.reasoning_budget is Some
    ||| p.reasoning_effort is Some
    ||| p.seed is Some
    ||| p.stream == Some(false)
}

impl ModelParams {
    /// Whether the configuration assigns members by key to a value that has none.
    pub fn assigns_any(&self) -> (r: bool)
        ensures
            r == assigns_members(self@),
    {
        let not_streaming: bool = match self.stream {
            Some(b) => !b,
            None => false,
        };
        self.temperature.is_some() || self.top_p.is_some() || self.top_k.is_some()
            || self.frequency_penalty.is_some() || self.presence_penalty.is_some()
            || self.repetition_penalty.is_some() || self.min_p.is_some()
            || self.max_tokens.is_some() || self.reasoning_budget.is_some()
            || self.reasoning_effort.is_some() || self.seed.is_some() || not_streaming
    }
}

fn assign(json: &mut Json, key: &str, value: &Option<Json>)
    requires
        value is Some ==> old(json)@.assignable(),
    ensures
        final(json)@ == assigned(old(json)@, key@, option_json(*value)),
        old(json)@.assignable() ==> final(json)@.assignable(),
{
    match value {
        Some(v) => json.put(key, copy_json(v)),
        None => {},
    }
}

proof fn lemma_member_merged(
    base: Map<Seq<char>, JsonView>,
    members: Seq<(String, Json)>,
    n: int,
)
    requires
        0 <= n < members.len(),
    ensures
        base.union_prefer_right(members_view(members.take(n))).insert(
            members[n].0@,
            json_view(members[n].1),
        ) == base.union_prefer_right(members_view(members.take(n + 1))),
{
    assert(members.take(n + 1).drop_last() =~= members.take(n));
    assert(base.union_prefer_right(members_view(members.take(n))).insert(
        members[n].0@,
        json_view(members[n].1),
    ) =~= base.union_prefer_right(members_view(members.take(n + 1))));
}

fn merge_kwargs(json: &mut Json, kwargs: &Vec<(String, Json)>)
    ensures
        final(json)@ == kwargs_merged(old(json)@, Some(members_view(kwargs@))),
{
    if json.is_object() {
        let ghost before = json@;
        let entry: Option<Json> = json.take("chat_template_kwargs");
        let mut target: Json = match entry {
            Some(Json::Obj(members)) => Json::Obj(members),
            _ => Json::Obj(Vec::new()),
        };
        let ghost base = members_or_none(before.get("chat_template_kwargs"@));
        assert(target@ == JsonView::Obj(base));
        let mut i: usize = 0;
        proof {
            assert(kwargs@.take(0) =~= Seq::empty());
            assert(base.union_prefer_right(Map::empty()) =~= base);
        }
        while i < kwargs.len()
            invariant
                i <= kwargs@.len(),
                target@ == JsonView::Obj(
                    base.union_prefer_right(members_view(kwargs@.take(i as int))),
                ),
            decreases kwargs@.len() - i,
        {
            proof {
                lemma_member_merged(base, kwargs@, i as int);
            }
            target.put(kwargs[i].0.as_str(), copy_json(&kwargs[i].1));
            i = i + 1;
        }
        assert(kwargs@.take(kwargs@.len() as int) =~= kwargs@);
        let ghost merged = target@;
        json.put("chat_template_kwargs", target);
        proof {
            let m = before->Obj_0;
            let key = "chat_template_kwargs"@;
            assert(m.remove(key).insert(key, merged) =~= m.insert(key, merged));
        }
    }
}

/// Adds what a model's configuration sets to a request. The token limit and the response
/// mode that the caller chose stay. A value that is neither an object nor null takes no
/// members by key.
pub fn apply_model_params(json: &mut Json, params: &ModelParams)
    requires
        old(json)@.assignable() || !assigns_members(params@),
    ensures
        final(json)@ == with_params(old(json)@, params@),
{
    assign(json, "temperature", &params.temperature);
    assign(json, "top_p", &params.top_p);
    assign(json, "top_k", &params.top_k);
    assign(json, "frequency_penalty", &params.frequency_penalty);
    assign(json, "presence_penalty", &params.presence_penalty);
    assign(json, "repetition_penalty", &params.repetition_penalty);
    assign(json, "min_p", &params.min_p);
    if json.get("max_tokens").is_none() {
        assign(json, "max_tokens", &params.max_tokens);
    }
    assign(json, "reasoning_budget", &params.reasoning_budget);
    match &params.reasoning_effort {
        Some(effort) => json.put("reasoning_effort", Json::Str(effort.clone())),
        None => {},
    }
    assign(json, "seed", &params.seed);
    assert(json@ == with_tuning(old(json)@, params@));
    match params.stream {
        Some(stream) => {
            let chosen: bool = match json.get("stream") {
                Some(v) => !v.is_null(),
                None => false,
            };
            if !chosen && !stream {
                json.put("stream", Json::Bool(false));
            }
        },
        None => {},
    }
    match &params.chat_template_kwargs {
        Some(kwargs) => merge_kwargs(json, kwargs),
        None => {},
    }
}

/// Whether a request asks for a stream.
pub open spec fn asks_for_stream(json: JsonView) -> bool {
    json.get("stream"@) == Some(JsonView::Bool(true))
}

/// The media type that a request asks for.
pub open spec fn accepted_type(json: JsonView) -> Seq<char> {
    if asks_for_stream(json) {
        "text/event-stream"@
    } else {
        "application/json"@
    }
}

/// The media type that the text of a request asks for.
pub open spec fn accepted_type_of_body(body: Seq<u8>) -> Seq<char> {
    match json_parse(body) {
        Some(json) => accepted_type(json),
        None => "application/json"@,
    }
}

/// The media type that a request asks for.
pub fn accept_header_for_json(json: &Json) -> (r: &'static str)
    ensures
        r@ == accepted_type(json@),
{
    let stream: bool = match json.get("stream") {
        Some(v) => match v.as_bool() {
            Some(b) => b,
            None => false,
        },
        None => false,
    };
    if stream {
        "text/event-stream"
    } else {
        "application/json"
    }
}

/// The media type that the text of a request asks for; JSON where the text cannot be read.
pub fn accept_header_for_body(body: &[u8]) -> (r: &'static str)
    ensures
        r@ == accepted_type_of_body(body@),
{
    match parse_json(body) {
        Some(json) => accept_header_for_json(&json),
        None => "application/json",
    }
}

} // verus!
