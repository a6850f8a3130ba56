//! What the gateway answers, and what it notes on the way.

use vstd::prelude::*;
use vstd::string::*;

use crate::mistral::{remark_view, IdRemark};
use crate::number::{decimal, decimal_string};
use crate::params::option_text;

verus! {

/// The record of one exchange with a model.
pub struct TurnLog<S> {
    pub requested_model: S,
    pub responding_model: S,
    pub latency_ms: u64,
    pub success: bool,
    pub status_code: u16,
    pub message_count: usize,
    pub response_message_count: usize,
    pub has_tool_calls: bool,
    pub tool_call_count: usize,
    pub key_label: Option<S>,
    pub is_racing: bool,
    pub error: Option<S>,
}

/// Something to note: in the gateway's counters, on a key, on a model, or in the log.
pub enum Effect<S> {
    /// A request came in, and races or does not.
    Request { racing: bool },
    /// A time limit passed.
    Timeout,
    /// The limit on the whole request passed.
    DeadlineExceeded,
    /// A request or an attempt found the gateway full.
    Overload,
    /// A request found no usable key.
    NoKey,
    /// Upstream turned a key away.
    RateLimit,
    /// A request is tried on one model at a time.
    SoloFallback,
    /// It is tried on several models, one after the other.
    SequentialFallback,
    /// A race ended without a winner.
    AllRacersFailed,
    /// A number of models started to race.
    Fanout(usize),
    /// A model won.
    RacingWin(S),
    /// A key has to pause.
    KeyRateLimited { key: usize, secs: u64 },
    /// A key was turned away.
    KeyThrottled(usize),
    /// A key served a request.
    KeySucceeded(usize),
    /// A model answered or failed.
    ModelOutcome { model: S, key_label: Option<S>, latency_ms: u64, ok: bool },
    /// A model did not answer in time.
    ModelTimeout { model: S, key_label: Option<S>, elapsed_ms: u64 },
    /// A model answered, and its answer was looked at.
    ModelQuality {
        model: S,
        latency_ms: u64,
        ok: bool,
        output_tokens: u32,
        repetitions: u32,
        tool_call: bool,
    },
    /// A model rejects the shape of a request.
    HardError { model: S, error: S },
    /// A model is blocked upstream.
    ServerDegraded(S),
    /// An exchange is over.
    Turn(TurnLog<S>),
    /// The id of a tool call is doubtful.
    Remark(IdRemark<S>),
}

/// The model of a log record.
pub open spec fn turn_view(t: TurnLog<String>) -> TurnLog<Seq<char>> {
    TurnLog {
        requested_model: t.requested_model@,
        responding_model: t.responding_model@,
        latency_ms: t.latency_ms,
        success: t.success,
        status_code: t.status_code,
        message_count: t.message_count,
        response_message_count: t.response_message_count,
        has_tool_calls: t.has_tool_calls,
        tool_call_count: t.tool_call_count,
        key_label: option_text(t.key_label),
        is_racing: t.is_racing,
        error: option_text(t.error),
    }
}

/// The model of an effect.
pub open spec fn effect_view(e: Effect<String>) -> Effect<Seq<char>> {
    match e {
        Effect::Request { racing } => Effect::Request { racing },
        Effect::Timeout => Effect::Timeout,
        Effect::DeadlineExceeded => Effect::DeadlineExceeded,
        Effect::Overload => Effect::Overload,
        Effect::NoKey => Effect::NoKey,
        Effect::RateLimit => Effect::RateLimit,
        Effect::SoloFallback => Effect::SoloFallback,
        Effect::SequentialFallback => Effect::SequentialFallback,
        Effect::AllRacersFailed => Effect::AllRacersFailed,
        Effect::Fanout(n) => Effect::Fanout(n),
        Effect::RacingWin(m) => Effect::RacingWin(m@),
        Effect::KeyRateLimited { key, secs } => Effect::KeyRateLimited { key, secs },
        Effect::KeyThrottled(key) => Effect::KeyThrottled(key),
        Effect::KeySucceeded(key) => Effect::KeySucceeded(key),
        Effect::ModelOutcome { model, key_label, latency_ms, ok } => Effect::ModelOutcome {
            model: model@,
            key_label: option_text(key_label),
            latency_ms,
            ok,
        },
        Effect::ModelTimeout { model, key_label, elapsed_ms } => Effect::ModelTimeout {
            model: model@,
            key_label: option_text(key_label),
            elapsed_ms,
        },
        Effect::ModelQuality { model, latency_ms, ok, output_tokens, repetitions, tool_call } =>
            Effect::ModelQuality {
            model: model@,
            latency_ms,
            ok,
            output_tokens,
            repetitions,
            tool_call,
        },
        Effect::HardError { model, error } => Effect::HardError { model: model@, error: error@ },
        Effect::ServerDegraded(m) => Effect::ServerDegraded(m@),
        Effect::Turn(t) => Effect::Turn(turn_view(t)),
        Effect::Remark(w) => Effect::Remark(remark_view(w)),
    }
}

/// The models of effects.
pub open spec fn effects_view(es: Seq<Effect<String>>) -> Seq<Effect<Seq<char>>> {
    es.map_values(|e: Effect<String>| effect_view(e))
}

/// What a client is answered.
pub enum Reply {
    /// A plain text.
    Text { status: u16, message: String },
    /// A body with its media type: what upstream answered, or JSON.
    Forward {
        status: u16,
        content_type: String,
        key_label: Option<String>,
        /// Whether the client is told not to cache or buffer.
        unbuffered: bool,
        body: Vec<u8>,
    },
}

/// The model of an answer.
pub enum ReplyView {
    Text { status: u16, message: Seq<char> },
    Forward {
        status: u16,
        content_type: Seq<char>,
        key_label: Option<Seq<char>>,
        unbuffered: bool,
        body: Seq<u8>,
    },
}

impl View for Reply {
    type V = ReplyView;

    open spec fn view(&self) -> ReplyView {
        match self {
            Reply::Text { status, message } => ReplyView::Text {
                status: *status,
                message: message@,
            },
            Reply::Forward { status, content_type, key_label, unbuffered, body } =>
                ReplyView::Forward {
                status: *status,
                content_type: content_type@,
                key_label: option_text(*key_label),
                unbuffered: *unbuffered,
                body: body@,
            },
        }
    }
}

/// A plain answer.
pub fn text_reply(status: u16, message: &str) -> (r: Reply)
    ensures
        r@ == (ReplyView::Text { status, message: message@ }),
{
    Reply::Text { status, message: message.to_owned() }
}

/// A text with a number of milliseconds behind it.
pub open spec fn after_ms(prefix: Seq<char>, ms: u64) -> Seq<char> {
    prefix + decimal(ms as nat) + "ms"@
}

/// Writes a text with a number of milliseconds behind it.
pub fn say_after_ms(prefix: &str, ms: u64) -> (r: String)
    ensures
        r@ == after_ms(prefix@, ms),
{
    let mut s: String = prefix.to_owned();
    s.append(decimal_string(ms).as_str());
    s.append("ms");
    s
}

/// What is said when the limit on the whole request has passed.
pub open spec fn deadline_message(max_total_ms: u64) -> Seq<char> {
    after_ms("racing deadline exceeded after "@, max_total_ms)
}

/// The answer when the limit on the whole request has passed.
pub open spec fn deadline_reply(max_total_ms: u64) -> ReplyView {
    ReplyView::Text { status: 504, message: deadline_message(max_total_ms) }
}

/// What is noted when the limit on the whole request has passed.
pub open spec fn deadline_effects() -> Seq<Effect<Seq<char>>> {
    seq![Effect::Timeout, Effect::DeadlineExceeded]
}

/// Answers that the limit on the whole request has passed.
pub fn racing_deadline_response(max_total_ms: u64) -> (r: (Reply, Vec<Effect<String>>))
    ensures
        r.0@ == deadline_reply(max_total_ms),
        effects_view(r.1@) == deadline_effects(),
{
    let mut effects: Vec<Effect<String>> = Vec::new();
    effects.push(Effect::Timeout);
    effects.push(Effect::DeadlineExceeded);
    assert(effects_view(effects@) =~= deadline_effects());
    let message: String = say_after_ms("racing deadline exceeded after ", max_total_ms);
    (Reply::Text { status: 504, message }, effects)
}

/// The answer when the gateway is full.
pub open spec fn overloaded_reply() -> ReplyView {
    ReplyView::Text { status: 503, message: "gateway overloaded; retry later"@ }
}

/// Answers that the gateway is full.
pub fn gateway_overloaded_response() -> (r: (Reply, Vec<Effect<String>>))
    ensures
        r.0@ == overloaded_reply(),
        effects_view(r.1@) == seq![Effect::<Seq<char>>::Overload],
{
    let mut effects: Vec<Effect<String>> = Vec::new();
    effects.push(Effect::Overload);
    assert(effects_view(effects@) =~= seq![Effect::<Seq<char>>::Overload]);
    (text_reply(503, "gateway overloaded; retry later"), effects)
}

/// The answer when there is no usable key.
pub open spec fn no_key_reply() -> ReplyView {
    ReplyView::Text { status: 429, message: "all API keys rate-limited"@ }
}

/// Answers that there is no usable key.
pub fn no_key_response() -> (r: (Reply, Vec<Effect<String>>))
    ensures
        r.0@ == no_key_reply(),
        effects_view(r.1@) == seq![Effect::<Seq<char>>::NoKey],
{
    let mut effects: Vec<Effect<String>> = Vec::new();
    effects.push(Effect::NoKey);
    assert(effects_view(effects@) =~= seq![Effect::<Seq<char>>::NoKey]);
    (text_reply(429, "all API keys rate-limited"), effects)
}

/// The answer when every attempt was turned away.
pub open spec fn exhausted_reply() -> ReplyView {
    ReplyView::Text { status: 429, message: "all keys exhausted after retries"@ }
}

/// What an exchange is about: the models, and the messages of the request.
pub struct Exchange {
    pub requested_model: String,
    pub responding_model: String,
    pub message_count: usize,
    pub has_tool_calls: bool,
    pub tool_call_count: usize,
    pub is_racing: bool,
}

/// The record of an exchange and its outcome.
pub open spec fn turn_entry(
    x: Exchange,
    key_label: Option<Seq<char>>,
    latency_ms: u64,
    success: bool,
    status_code: u16,
    error: Option<Seq<char>>,
) -> Effect<Seq<char>> {
    Effect::Turn(
        TurnLog {
            requested_model: x.requested_model@,
            responding_model: x.responding_model@,
            latency_ms,
            success,
            status_code,
            message_count: x.message_count,
            response_message_count: 1,
            has_tool_calls: x.has_tool_calls,
            tool_call_count: x.tool_call_count,
            key_label,
            is_racing: x.is_racing,
            error,
        },
    )
}

/// Records an exchange and its outcome.
pub fn log_turn_request(
    x: &Exchange,
    key_label: &Option<String>,
    latency_ms: u64,
    success: bool,
    status_code: u16,
    error: Option<String>,
) -> (r: Effect<String>)
    ensures
        effect_view(r) == turn_entry(
            *x,
            option_text(*key_label),
            latency_ms,
            success,
            status_code,
            option_text(error),
        ),
{
    Effect::Turn(
        TurnLog {
            requested_model: x.requested_model.clone(),
            responding_model: x.responding_model.clone(),
            latency_ms,
            success,
            status_code,
            message_count: x.message_count,
            response_message_count: 1,
            has_tool_calls: x.has_tool_calls,
            tool_call_count: x.tool_call_count,
            key_label: crate::pool::copy_label(key_label),
            is_racing: x.is_racing,
            error,
        },
    )
}

/// Notes that a model did not answer in time.
pub fn record_model_timeout(model_id: &str, key_label: &Option<String>, elapsed_ms: u64) -> (r:
    Effect<String>)
    ensures
        effect_view(r) == (Effect::ModelTimeout {
            model: model_id@,
            key_label: option_text(*key_label),
            elapsed_ms,
        }),
{
    Effect::ModelTimeout {
        model: model_id.to_owned(),
        key_label: crate::pool::copy_label(key_label),
        elapsed_ms,
    }
}

/// Notes that a model answered or failed.
pub fn record_model_outcome(
    model_id: &str,
    key_label: &Option<String>,
    latency_ms: u64,
    ok: bool,
) -> (r: Effect<String>)
    ensures
        effect_view(r) == (Effect::ModelOutcome {
            model: model_id@,
            key_label: option_text(*key_label),
            latency_ms,
            ok,
        }),
{
    Effect::ModelOutcome {
        model: model_id.to_owned(),
        key_label: crate::pool::copy_label(key_label),
        latency_ms,
        ok,
    }
}

} // verus!
