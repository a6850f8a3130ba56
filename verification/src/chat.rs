//! A chat request that goes to one model at a time.

use vstd::prelude::*;
use vstd::utf8::encode_utf8;

use crate::effect::{
    after_ms, effects_view, exhausted_reply, log_turn_request, record_model_outcome,
    record_model_timeout, say_after_ms, text_reply, turn_entry, Effect, Exchange, Reply, ReplyView,
};
use crate::mistral::{body_remarks, mistral_validation_error};
use crate::model_id::{normalize_requested_model, normalized_model};
use crate::params::option_text;
use crate::pool::KeyLease;
use crate::prepare::{
    after_turn, body_resolution, body_resolvable, carries_resolution, requested_model,
    requested_model_of, resolve_any_model, slice_copy, takes_turn,
};
use crate::repetition::repetitions;
use crate::state::{
    model_admitted, timeout_for_model, unknown_model_message, validate_model_exists, AppState,
};
use crate::stats::{model_timeout, record_of};
use crate::text::{contains, has_text, lowercase_of, str_eq, words_of};
use crate::turn::{
    extract_response_metrics, output_calls_tools, output_tokens, request_turn_summary,
    turn_summary,
};
use crate::upstream::{
    answer_effect, attempt_count, attempts_for, body_text, clean_cut, content_type_or_json, cuts_cleanly, error_excerpt,
    excerpt_of, forward_reply, forwarded, is_success, media_type, note_answer, note_remarks,
    pause_asked, remark_effects, retry_after_secs, success_status, take_attempt, text_of_body,
    BodyOutcome, KeyUse, ResponseHead, SendOutcome,
};
use crate::wire::json_parse;

verus! {

/// A chat request on its way to a model.
pub struct ChatTurn {
    pub exchange: Exchange,
    /// Whether the client left the choice of the model open by name.
    pub automatic: bool,
    /// The text that goes upstream.
    pub body: Vec<u8>,
    pub attempts_left: usize,
}

/// What a chat request waits for.
pub enum ChatPhase {
    /// A key.
    Admission,
    /// The head of an answer.
    Answer { key: KeyUse, limit_ms: u64 },
    /// The body of an answer.
    Body { key: KeyUse, limit_ms: u64, ttfc_ms: u64, head: ResponseHead },
    /// Another model.
    Reroute,
    /// Nothing.
    Over,
}

/// The course of a chat request that goes to one model at a time.
pub struct ChatFlow {
    pub turn: ChatTurn,
    /// The client's text.
    pub original: Vec<u8>,
    pub phase: ChatPhase,
}

/// How a chat request starts.
pub enum ChatStart {
    /// It is answered at once.
    Reject(Reply),
    /// Several models race for it.
    Race,
    /// It goes to one model at a time, and waits for a key.
    Direct(ChatFlow),
    /// It is JSON that takes no members, and gets no answer.
    Unanswerable,
}

/// Whether a request that asks for a model races.
pub open spec fn races(asked: Seq<char>, state: AppState) -> bool {
    normalized_model(asked) == "auto"@ && state.racing_models@.len() >= 2
}

/// What is known of a turn that goes to one model at a time. Its first attempt is on its way.
pub open spec fn direct_turn(turn: ChatTurn, asked: Seq<char>, body: Seq<u8>, state: AppState) -> bool {
    &&& turn.exchange.requested_model@ == asked
    &&& (turn.exchange.responding_model@, turn.body@) == body_resolution(body, state)
    &&& carries_resolution(turn.body@, body, state)
    &&& !turn.exchange.is_racing
    &&& (turn.exchange.message_count, turn.exchange.has_tool_calls, turn.exchange.tool_call_count)
        == turn_summary(json_parse(turn.body@))
    &&& turn.automatic == (normalized_model(asked) == "auto"@)
    &&& turn.attempts_left == attempts_for(state.pool.slots@.len() as usize) - 1
}

/// Starts a chat request: a model that is not configured is rejected; an automatic choice
/// races where at least two models can; anything else is resolved and goes to one model.
pub fn chat_completions(state: &mut AppState, body: &[u8]) -> (r: (ChatStart, Vec<Effect<String>>))
    requires
        old(state).wf(),
    ensures
        final(state).wf(),
        ({
            let asked = requested_model(json_parse(body@));
            match r.0 {
                ChatStart::Reject(reply) => {
                    &&& !model_admitted(asked, old(state).configured_names())
                    &&& reply@ == (ReplyView::Text {
                        status: 400,
                        message: unknown_model_message(asked),
                    })
                    &&& effects_view(r.1@) == Seq::<Effect<Seq<char>>>::empty()
                    &&& *final(state) == *old(state)
                },
                ChatStart::Race => {
                    &&& model_admitted(asked, old(state).configured_names())
                    &&& races(asked, *old(state))
                    &&& effects_view(r.1@) == seq![Effect::<Seq<char>>::Request { racing: true }]
                    &&& *final(state) == *old(state)
                },
                ChatStart::Direct(flow) => {
                    &&& model_admitted(asked, old(state).configured_names())
                    &&& !races(asked, *old(state))
                    &&& body_resolvable(body@, *old(state))
                    &&& direct_turn(flow.turn, asked, body@, *old(state))
                    &&& flow.original@ == body@
                    &&& flow.phase is Admission
                    &&& effects_view(r.1@) == seq![
                        Effect::<Seq<char>>::Request { racing: false },
                    ] + remark_effects(
                        body_remarks(flow.turn.body@, flow.turn.exchange.responding_model@),
                    )
                    &&& after_turn(
                        *old(state),
                        *final(state),
                        takes_turn(json_parse(body@), *old(state)),
                    )
                },
                ChatStart::Unanswerable => {
                    &&& model_admitted(asked, old(state).configured_names())
                    &&& !races(asked, *old(state))
                    &&& !body_resolvable(body@, *old(state))
                    &&& effects_view(r.1@) == seq![Effect::<Seq<char>>::Request { racing: false }]
                    &&& *final(state) == *old(state)
                },
            }
        }),
{
    let mut effects: Vec<Effect<String>> = Vec::new();
    let original_model: String = requested_model_of(body);
    match validate_model_exists(original_model.as_str(), state) {
        Err(msg) => {
            assert(effects_view(effects@) =~= Seq::empty());
            return (ChatStart::Reject(Reply::Text { status: 400, message: msg }), effects);
        },
        Ok(()) => {},
    }
    let automatic: bool = str_eq(normalize_requested_model(original_model.as_str()), "auto");
    if automatic && state.racing_models.len() >= 2 {
        effects.push(Effect::Request { racing: true });
        assert(effects_view(effects@) =~= seq![
            Effect::<Seq<char>>::Request { racing: true },
        ]);
        return (ChatStart::Race, effects);
    }
    effects.push(Effect::Request { racing: false });
    assert(effects_view(effects@) =~= seq![Effect::<Seq<char>>::Request { racing: false }]);
    let keys: usize = state.pool.len();
    match resolve_any_model(body, state) {
        None => (ChatStart::Unanswerable, effects),
        Some((model_id, text)) => {
            let (_, remarks) = mistral_validation_error(model_id.as_str(), text.as_slice());
            note_remarks(&mut effects, remarks);
            let (message_count, has_tool_calls, tool_call_count) = request_turn_summary(
                text.as_slice(),
            );
            let turn: ChatTurn = ChatTurn {
                exchange: Exchange {
                    requested_model: original_model,
                    responding_model: model_id,
                    message_count,
                    has_tool_calls,
                    tool_call_count,
                    is_racing: false,
                },
                automatic,
                body: text,
                attempts_left: attempt_count(keys) - 1,
            };
            let flow: ChatFlow = ChatFlow {
                turn,
                original: slice_copy(body),
                phase: ChatPhase::Admission,
            };
            (ChatStart::Direct(flow), effects)
        },
    }
}

/// What follows a request that was sent.
pub enum SendStep {
    Finish(Reply),
    Retry,
    ReadBody,
}

/// The model of `SendStep`.
pub enum SendStepView {
    Finish(ReplyView),
    Retry,
    ReadBody,
}

impl View for SendStep {
    type V = SendStepView;

    open spec fn view(&self) -> SendStepView {
        match self {
            SendStep::Finish(reply) => SendStepView::Finish(reply@),
            SendStep::Retry => SendStepView::Retry,
            SendStep::ReadBody => SendStepView::ReadBody,
        }
    }
}

/// What is noted, and what follows, when upstream did not answer a chat request in time.
pub open spec fn chat_timeout(
    x: Exchange,
    key_label: Option<Seq<char>>,
    timeout_ms: u64,
    prefix: Seq<char>,
) -> (Seq<Effect<Seq<char>>>, ReplyView) {
    let message = after_ms(prefix, timeout_ms);
    (
        seq![
            Effect::Timeout,
            Effect::ModelTimeout {
                model: x.responding_model@,
                key_label,
                elapsed_ms: timeout_ms,
            },
            turn_entry(x, key_label, timeout_ms, false, 504, Some(message)),
        ],
        ReplyView::Text { status: 504, message },
    )
}

fn answer_timeout(x: &Exchange, key_label: &Option<String>, timeout_ms: u64, prefix: &str) -> (r: (
    Vec<Effect<String>>,
    Reply,
))
    ensures
        (effects_view(r.0@), r.1@) == chat_timeout(
            *x,
            option_text(*key_label),
            timeout_ms,
            prefix@,
        ),
{
    let message: String = say_after_ms(prefix, timeout_ms);
    let mut effects: Vec<Effect<String>> = Vec::new();
    effects.push(Effect::Timeout);
    effects.push(record_model_timeout(x.responding_model.as_str(), key_label, timeout_ms));
    effects.push(
        log_turn_request(x, key_label, timeout_ms, false, 504, Some(message.clone())),
    );
    assert(effects_view(effects@) =~= chat_timeout(
        *x,
        option_text(*key_label),
        timeout_ms,
        prefix@,
    ).0);
    (effects, Reply::Text { status: 504, message })
}

/// What is noted, and what follows, when a chat request was sent.
pub open spec fn chat_sent(
    turn: ChatTurn,
    key: KeyUse,
    timeout_ms: u64,
    elapsed_ms: u64,
    outcome: SendOutcome,
) -> (Seq<Effect<Seq<char>>>, SendStepView) {
    let x = turn.exchange;
    let label = option_text(key.label);
    match outcome {
        SendOutcome::TimedOut => {
            let (effects, reply) = chat_timeout(x, label, timeout_ms, "upstream timeout after "@);
            (effects, SendStepView::Finish(reply))
        },
        SendOutcome::Failed(e) => (
            seq![
                Effect::ModelOutcome {
                    model: x.responding_model@,
                    key_label: label,
                    latency_ms: elapsed_ms,
                    ok: false,
                },
                turn_entry(x, label, elapsed_ms, false, 502, Some(e@)),
            ],
            SendStepView::Finish(ReplyView::Text { status: 502, message: e@ }),
        ),
        SendOutcome::Answered(head) => if head.status == 429 {
            (
                seq![
                    Effect::RateLimit,
                    Effect::KeyRateLimited { key: key.idx, secs: pause_asked(head.retry_after) },
                ],
                SendStepView::Retry,
            )
        } else if success_status(head.status) {
            (seq![Effect::KeySucceeded(key.idx)], SendStepView::ReadBody)
        } else {
            (Seq::empty(), SendStepView::ReadBody)
        },
    }
}

/// Decides what follows when a chat request was sent: silence and failure end it, a key that
/// is turned away pauses and the next attempt follows, any other answer is read.
pub fn chat_after_send(
    turn: &ChatTurn,
    key: &KeyUse,
    timeout_ms: u64,
    elapsed_ms: u64,
    outcome: &SendOutcome,
) -> (r: (Vec<Effect<String>>, SendStep))
    ensures
        (effects_view(r.0@), r.1@) == chat_sent(*turn, *key, timeout_ms, elapsed_ms, *outcome),
{
    let x: &Exchange = &turn.exchange;
    match outcome {
        SendOutcome::TimedOut => {
            let (effects, reply) = answer_timeout(
                x,
                &key.label,
                timeout_ms,
                "upstream timeout after ",
            );
            (effects, SendStep::Finish(reply))
        },
        SendOutcome::Failed(e) => {
            let mut effects: Vec<Effect<String>> = Vec::new();
            effects.push(
                record_model_outcome(x.responding_model.as_str(), &key.label, elapsed_ms, false),
            );
            effects.push(
                log_turn_request(x, &key.label, elapsed_ms, false, 502, Some(e.clone())),
            );
            assert(effects_view(effects@) =~= chat_sent(
                *turn,
                *key,
                timeout_ms,
                elapsed_ms,
                *outcome,
            ).0);
            (effects, SendStep::Finish(text_reply(502, e.as_str())))
        },
        SendOutcome::Answered(head) => {
            let mut effects: Vec<Effect<String>> = Vec::new();
            if head.status == 429 {
                effects.push(Effect::RateLimit);
                effects.push(
                    Effect::KeyRateLimited {
                        key: key.idx,
                        secs: retry_after_secs(&head.retry_after),
                    },
                );
                assert(effects_view(effects@) =~= chat_sent(
                    *turn,
                    *key,
                    timeout_ms,
                    elapsed_ms,
                    *outcome,
                ).0);
                (effects, SendStep::Retry)
            } else {
                if is_success(head.status) {
                    effects.push(Effect::KeySucceeded(key.idx));
                }
                assert(effects_view(effects@) =~= chat_sent(
                    *turn,
                    *key,
                    timeout_ms,
                    elapsed_ms,
                    *outcome,
                ).0);
                (effects, SendStep::ReadBody)
            }
        },
    }
}

/// What follows the body of an answer.
pub enum BodyStep {
    Finish(Reply),
    /// The next attempt, with the same request.
    Retry,
    /// The next attempt, with the choice of the model made again.
    Reroute,
    /// Nothing: the request is broken off.
    Break,
}

/// The model of `BodyStep`.
pub enum BodyStepView {
    Finish(ReplyView),
    Retry,
    Reroute,
    Break,
}

impl View for BodyStep {
    type V = BodyStepView;

    open spec fn view(&self) -> BodyStepView {
        match self {
            BodyStep::Finish(reply) => BodyStepView::Finish(reply@),
            BodyStep::Retry => BodyStepView::Retry,
            BodyStep::Reroute => BodyStepView::Reroute,
            BodyStep::Break => BodyStepView::Break,
        }
    }
}

/// Whether an answer says that the model is blocked upstream.
pub open spec fn says_degraded(status: u16, text: Seq<char>) -> bool {
    status == 400 && (has_text(text, "DEGRADED"@) || has_text(text, "degraded"@))
}

/// Whether an answer says that the assistant's messages have the wrong shape.
pub open spec fn says_invalid_assistant(status: u16, text: Seq<char>) -> bool {
    status == 400 && (has_text(text, "Invalid assistant message"@) || has_text(
        text,
        "invalid assistant"@,
    ))
}

/// What is noted, and what follows, when the text of an answer was read and looked at.
pub open spec fn chat_settled(
    turn: ChatTurn,
    key: KeyUse,
    ttfc_ms: u64,
    head: ResponseHead,
    body: Seq<u8>,
    metrics: (u32, u32, bool),
) -> (Seq<Effect<Seq<char>>>, BodyStepView) {
    let x = turn.exchange;
    let label = option_text(key.label);
    let text = body_text(body);
    let ok = success_status(head.status);
    if says_degraded(head.status, text) {
        (
            seq![Effect::ServerDegraded(x.responding_model@)],
            if turn.automatic {
                BodyStepView::Reroute
            } else {
                BodyStepView::Retry
            },
        )
    } else if says_invalid_assistant(head.status, text) && !clean_cut(text, 200) {
        (Seq::empty(), BodyStepView::Break)
    } else if says_invalid_assistant(head.status, text) {
        (
            seq![
                Effect::HardError { model: x.responding_model@, error: text },
                turn_entry(x, label, ttfc_ms, false, head.status, Some(excerpt_of(text))),
            ],
            BodyStepView::Retry,
        )
    } else {
        let content_type = media_type(head.content_type);
        (
            seq![
                answer_effect(x.responding_model@, label, ttfc_ms, ok, metrics),
                turn_entry(
                    x,
                    label,
                    ttfc_ms,
                    ok,
                    head.status,
                    if ok {
                        None
                    } else {
                        Some(excerpt_of(text))
                    },
                ),
            ],
            BodyStepView::Finish(
                forwarded(
                    head.status,
                    content_type,
                    key.label,
                    has_text(content_type, "event-stream"@),
                    body,
                ),
            ),
        )
    }
}

/// Decides what follows when the body of an answer was read and looked at: a blocked model
/// or a rejected shape leads to the next attempt, anything else is passed on. A rejected shape
/// breaks the request off where the first 200 bytes of the text end within a character.
pub fn chat_settle(
    turn: &ChatTurn,
    key: &KeyUse,
    ttfc_ms: u64,
    head: &ResponseHead,
    body: &[u8],
    metrics: (u32, u32, bool),
) -> (r: (Vec<Effect<String>>, BodyStep))
    ensures
        (effects_view(r.0@), r.1@) == chat_settled(*turn, *key, ttfc_ms, *head, body@, metrics),
{
    let x: &Exchange = &turn.exchange;
    let text: String = text_of_body(body);
    let ok: bool = is_success(head.status);
    let mut effects: Vec<Effect<String>> = Vec::new();
    if head.status == 400 && (contains(text.as_str(), "DEGRADED") || contains(
        text.as_str(),
        "degraded",
    )) {
        effects.push(Effect::ServerDegraded(x.responding_model.clone()));
        assert(effects_view(effects@) =~= chat_settled(
            *turn,
            *key,
            ttfc_ms,
            *head,
            body@,
            metrics,
        ).0);
        if turn.automatic {
            return (effects, BodyStep::Reroute);
        }
        return (effects, BodyStep::Retry);
    }
    if head.status == 400 && (contains(text.as_str(), "Invalid assistant message") || contains(
        text.as_str(),
        "invalid assistant",
    )) {
        if !cuts_cleanly(text.as_str(), 200) {
            assert(effects_view(effects@) =~= Seq::empty());
            return (effects, BodyStep::Break);
        }
        let excerpt: String = error_excerpt(text.as_str());
        effects.push(Effect::HardError { model: x.responding_model.clone(), error: text });
        effects.push(
            log_turn_request(x, &key.label, ttfc_ms, false, head.status, Some(excerpt)),
        );
        assert(effects_view(effects@) =~= chat_settled(
            *turn,
            *key,
            ttfc_ms,
            *head,
            body@,
            metrics,
        ).0);
        return (effects, BodyStep::Retry);
    }
    effects.push(note_answer(x.responding_model.as_str(), &key.label, ttfc_ms, ok, metrics));
    let error: Option<String> = if ok {
        None
    } else {
        Some(error_excerpt(text.as_str()))
    };
    effects.push(log_turn_request(x, &key.label, ttfc_ms, ok, head.status, error));
    assert(effects_view(effects@) =~= chat_settled(
        *turn,
        *key,
        ttfc_ms,
        *head,
        body@,
        metrics,
    ).0);
    let content_type: String = content_type_or_json(&head.content_type);
    let unbuffered: bool = contains(content_type.as_str(), "event-stream");
    let reply: Reply = forward_reply(head.status, content_type, &key.label, unbuffered, body);
    (effects, BodyStep::Finish(reply))
}

/// The output tokens, repetitions and tool calls of an answer.
pub open spec fn answer_metrics(body: Seq<u8>) -> (u32, u32, bool) {
    let text = body_text(body);
    let json = json_parse(encode_utf8(text));
    (
        output_tokens(json, encode_utf8(text).len() as usize),
        repetitions(words_of(lowercase_of(text))) as u32,
        output_calls_tools(json),
    )
}

/// What is noted, and what follows, when the body of an answer was to be read.
pub open spec fn chat_read(
    turn: ChatTurn,
    key: KeyUse,
    timeout_ms: u64,
    ttfc_ms: u64,
    head: ResponseHead,
    outcome: BodyOutcome,
) -> (Seq<Effect<Seq<char>>>, BodyStepView) {
    match outcome {
        BodyOutcome::Failed(e) => (
            Seq::empty(),
            BodyStepView::Finish(ReplyView::Text { status: 502, message: e@ }),
        ),
        BodyOutcome::TimedOut => {
            let (effects, reply) = chat_timeout(
                turn.exchange,
                option_text(key.label),
                timeout_ms,
                "upstream body timeout after "@,
            );
            (effects, BodyStepView::Finish(reply))
        },
        BodyOutcome::Read(body) => chat_settled(
            turn,
            key,
            ttfc_ms,
            head,
            body@,
            answer_metrics(body@),
        ),
    }
}

/// Decides what follows when the body of an answer was to be read.
pub fn chat_after_body(
    turn: &ChatTurn,
    key: &KeyUse,
    timeout_ms: u64,
    ttfc_ms: u64,
    head: &ResponseHead,
    outcome: &BodyOutcome,
) -> (r: (Vec<Effect<String>>, BodyStep))
    ensures
        (effects_view(r.0@), r.1@) == chat_read(*turn, *key, timeout_ms, ttfc_ms, *head, *outcome),
{
    match outcome {
        BodyOutcome::Failed(e) => {
            let effects: Vec<Effect<String>> = Vec::new();
            assert(effects_view(effects@) =~= Seq::empty());
            (effects, BodyStep::Finish(text_reply(502, e.as_str())))
        },
        BodyOutcome::TimedOut => {
            let (effects, reply) = answer_timeout(
                &turn.exchange,
                &key.label,
                timeout_ms,
                "upstream body timeout after ",
            );
            (effects, BodyStep::Finish(reply))
        },
        BodyOutcome::Read(body) => {
            let text: String = text_of_body(body.as_slice());
            let metrics: (u32, u32, bool) = extract_response_metrics(text.as_str());
            chat_settle(turn, key, ttfc_ms, head, body.as_slice(), metrics)
        },
    }
}

// ---------------------------------------------------------------------------------------
// The course of a request
// ---------------------------------------------------------------------------------------

/// What happened to a chat request.
pub enum ChatEvent {
    /// It got a key.
    Admitted(KeyLease),
    /// It was sent, and this came of it after so many milliseconds.
    Sent { elapsed_ms: u64, outcome: SendOutcome },
    /// The body of its answer was read, or not.
    Read(BodyOutcome),
}

/// What to do for a chat request.
pub enum ChatAction {
    /// Get it a key.
    Admit,
    /// Send it, within a time limit.
    Send { limit_ms: u64 },
    /// Read the body of its answer, within a time limit.
    Read { limit_ms: u64 },
    /// Choose another model for it.
    Reroute,
    /// Answer it.
    Finish(Reply),
    /// Break it off: the text of its answer cannot be cut.
    Break,
}

/// The model of `ChatAction`.
pub enum ChatActionView {
    Admit,
    Send { limit_ms: u64 },
    Read { limit_ms: u64 },
    Reroute,
    Finish(ReplyView),
    Break,
}

impl View for ChatAction {
    type V = ChatActionView;

    open spec fn view(&self) -> ChatActionView {
        match self {
            ChatAction::Admit => ChatActionView::Admit,
            ChatAction::Send { limit_ms } => ChatActionView::Send { limit_ms: *limit_ms },
            ChatAction::Read { limit_ms } => ChatActionView::Read { limit_ms: *limit_ms },
            ChatAction::Reroute => ChatActionView::Reroute,
            ChatAction::Finish(reply) => ChatActionView::Finish(reply@),
            ChatAction::Break => ChatActionView::Break,
        }
    }
}

/// Whether an event is what a phase waits for.
pub open spec fn chat_awaits(phase: ChatPhase, event: ChatEvent) -> bool {
    match (phase, event) {
        (ChatPhase::Admission, ChatEvent::Admitted(_)) => true,
        (ChatPhase::Answer { .. }, ChatEvent::Sent { .. }) => true,
        (ChatPhase::Body { .. }, ChatEvent::Read(_)) => true,
        _ => false,
    }
}

/// Whether a flow follows another by its end.
pub open spec fn chat_over(before: ChatFlow, after: ChatFlow) -> bool {
    after == (ChatFlow { phase: ChatPhase::Over, ..before })
}

/// Whether a flow follows another by the next attempt, or by its end where no attempt is left.
pub open spec fn next_attempt(before: ChatFlow, after: ChatFlow, action: ChatActionView) -> bool {
    if before.turn.attempts_left > 0 {
        &&& action == ChatActionView::Admit
        &&& after == (ChatFlow {
            turn: ChatTurn {
                attempts_left: (before.turn.attempts_left - 1) as usize,
                ..before.turn
            },
            phase: ChatPhase::Admission,
            ..before
        })
    } else {
        &&& action == ChatActionView::Finish(exhausted_reply())
        &&& chat_over(before, after)
    }
}

/// Whether a flow follows another by an event, with what is noted and what is to be done.
pub open spec fn chat_step(
    before: ChatFlow,
    event: ChatEvent,
    state: AppState,
    after: ChatFlow,
    effects: Seq<Effect<Seq<char>>>,
    action: ChatActionView,
) -> bool {
    match (before.phase, event) {
        (ChatPhase::Admission, ChatEvent::Admitted(lease)) => {
            let limit_ms = model_timeout(
                record_of(state.model_stats.records(), before.turn.exchange.responding_model@),
                state.racing_timeout_ms,
                state.controls.min_dynamic_timeout_ms,
                state.controls.dynamic_sample_floor,
            );
            &&& effects == Seq::<Effect<Seq<char>>>::empty()
            &&& action == (ChatActionView::Send { limit_ms })
            &&& after == (ChatFlow {
                phase: ChatPhase::Answer {
                    key: KeyUse { idx: lease.idx, label: lease.label },
                    limit_ms,
                },
                ..before
            })
        },
        (ChatPhase::Answer { key, limit_ms }, ChatEvent::Sent { elapsed_ms, outcome }) => {
            let (noted, step) = chat_sent(before.turn, key, limit_ms, elapsed_ms, outcome);
            &&& effects == noted
            &&& match step {
                SendStepView::Finish(reply) => {
                    &&& action == ChatActionView::Finish(reply)
                    &&& chat_over(before, after)
                },
                SendStepView::Retry => next_attempt(before, after, action),
                SendStepView::ReadBody => {
                    &&& action == (ChatActionView::Read { limit_ms })
                    &&& outcome matches SendOutcome::Answered(head) && after == (ChatFlow {
                        phase: ChatPhase::Body { key, limit_ms, ttfc_ms: elapsed_ms, head },
                        ..before
                    })
                },
            }
        },
        (ChatPhase::Body { key, limit_ms, ttfc_ms, head }, ChatEvent::Read(outcome)) => {
            let (noted, step) = chat_read(before.turn, key, limit_ms, ttfc_ms, head, outcome);
            &&& effects == noted
            &&& match step {
                BodyStepView::Finish(reply) => {
                    &&& action == ChatActionView::Finish(reply)
                    &&& chat_over(before, after)
                },
                BodyStepView::Retry => next_attempt(before, after, action),
                BodyStepView::Reroute => {
                    &&& action == ChatActionView::Reroute
                    &&& after == (ChatFlow { phase: ChatPhase::Reroute, ..before })
                },
                BodyStepView::Break => {
                    &&& action == ChatActionView::Break
                    &&& chat_over(before, after)
                },
            }
        },
        _ => false,
    }
}

fn try_again(flow: &mut ChatFlow) -> (r: ChatAction)
    ensures
        next_attempt(*old(flow), *final(flow), r@),
{
    match take_attempt(&mut flow.turn.attempts_left) {
        Some(reply) => {
            flow.phase = ChatPhase::Over;
            ChatAction::Finish(reply)
        },
        None => {
            flow.phase = ChatPhase::Admission;
            ChatAction::Admit
        },
    }
}

/// Takes a chat request one step further: from a key to a request, from a request to an
/// answer, from an answer to the client or to the next attempt.
pub fn chat_next(flow: &mut ChatFlow, state: &AppState, event: ChatEvent) -> (r: (
    Vec<Effect<String>>,
    ChatAction,
))
    requires
        chat_awaits(old(flow).phase, event),
    ensures
        chat_step(*old(flow), event, *state, *final(flow), effects_view(r.0@), r.1@),
{
    let mut phase: ChatPhase = ChatPhase::Over;
    std::mem::swap(&mut phase, &mut flow.phase);
    match (phase, event) {
        (ChatPhase::Admission, ChatEvent::Admitted(lease)) => {
            let effects: Vec<Effect<String>> = Vec::new();
            assert(effects_view(effects@) =~= Seq::empty());
            let limit_ms: u64 = timeout_for_model(
                state,
                flow.turn.exchange.responding_model.as_str(),
            );
            let key: KeyUse = KeyUse { idx: lease.idx, label: lease.label };
            flow.phase = ChatPhase::Answer { key, limit_ms };
            (effects, ChatAction::Send { limit_ms })
        },
        (ChatPhase::Answer { key, limit_ms }, ChatEvent::Sent { elapsed_ms, outcome }) => {
            let (effects, step) = chat_after_send(&flow.turn, &key, limit_ms, elapsed_ms, &outcome);
            match step {
                SendStep::Finish(reply) => (effects, ChatAction::Finish(reply)),
                SendStep::Retry => {
                    let action: ChatAction = try_again(flow);
                    (effects, action)
                },
                SendStep::ReadBody => match outcome {
                    SendOutcome::Answered(head) => {
                        flow.phase = ChatPhase::Body { key, limit_ms, ttfc_ms: elapsed_ms, head };
                        (effects, ChatAction::Read { limit_ms })
                    },
                    // Only an answer is read.
                    _ => (effects, ChatAction::Reroute),
                },
            }
        },
        (ChatPhase::Body { key, limit_ms, ttfc_ms, head }, ChatEvent::Read(outcome)) => {
            let (effects, step) = chat_after_body(
                &flow.turn,
                &key,
                limit_ms,
                ttfc_ms,
                &head,
                &outcome,
            );
            match step {
                BodyStep::Finish(reply) => (effects, ChatAction::Finish(reply)),
                BodyStep::Retry => {
                    let action: ChatAction = try_again(flow);
                    (effects, action)
                },
                BodyStep::Reroute => {
                    flow.phase = ChatPhase::Reroute;
                    (effects, ChatAction::Reroute)
                },
                BodyStep::Break => (effects, ChatAction::Break),
            }
        },
        // Nothing else is waited for.
        _ => (Vec::new(), ChatAction::Reroute),
    }
}

/// Makes the choice of the model again for the client's request, and goes on to the next
/// attempt. The summary of the messages stays. Nothing comes back, and nothing changes, where
/// the request cannot be resolved.
pub fn reroute_chat(flow: &mut ChatFlow, state: &mut AppState) -> (r: Option<
    (Vec<Effect<String>>, ChatAction),
>)
    requires
        old(state).wf(),
        old(flow).phase is Reroute,
    ensures
        final(state).wf(),
        match r {
            Some((effects, action)) => {
                let body = old(flow).original@;
                &&& body_resolvable(body, *old(state))
                &&& (final(flow).turn.exchange.responding_model@, final(flow).turn.body@)
                    == body_resolution(body, *old(state))
                &&& carries_resolution(final(flow).turn.body@, body, *old(state))
                &&& next_attempt(
                    ChatFlow {
                        turn: ChatTurn {
                            exchange: Exchange {
                                responding_model: final(flow).turn.exchange.responding_model,
                                ..old(flow).turn.exchange
                            },
                            body: final(flow).turn.body,
                            ..old(flow).turn
                        },
                        ..*old(flow)
                    },
                    *final(flow),
                    action@,
                )
                &&& effects_view(effects@) == remark_effects(
                    body_remarks(
                        final(flow).turn.body@,
                        final(flow).turn.exchange.responding_model@,
                    ),
                )
                &&& after_turn(
                    *old(state),
                    *final(state),
                    takes_turn(json_parse(body), *old(state)),
                )
            },
            None => {
                &&& !body_resolvable(old(flow).original@, *old(state))
                &&& *final(state) == *old(state)
                &&& *final(flow) == *old(flow)
            },
        },
{
    match resolve_any_model(flow.original.as_slice(), state) {
        Some((model_id, text)) => {
            let mut effects: Vec<Effect<String>> = Vec::new();
            let (_, remarks) = mistral_validation_error(model_id.as_str(), text.as_slice());
            assert(effects_view(effects@) =~= Seq::empty());
            note_remarks(&mut effects, remarks);
            assert(effects_view(effects@) =~= remark_effects(body_remarks(text@, model_id@)));
            flow.turn.exchange.responding_model = model_id;
            flow.turn.body = text;
            let action: ChatAction = try_again(flow);
            Some((effects, action))
        },
        None => None,
    }
}

/// How many steps a chat request can still take, at most.
pub open spec fn chat_steps_left(flow: ChatFlow) -> int {
    flow.turn.attempts_left * 4 + match flow.phase {
        ChatPhase::Admission => 4int,
        ChatPhase::Answer { .. } => 3,
        ChatPhase::Body { .. } => 2,
        ChatPhase::Reroute => 1,
        ChatPhase::Over => 0,
    }
}

/// A chat request comes to an end: every step uses one of those that are left, and a step
/// after which nothing is left answers the client or breaks the request off.
pub proof fn law_chat_comes_to_an_end(
    before: ChatFlow,
    event: ChatEvent,
    state: AppState,
    after: ChatFlow,
    effects: Seq<Effect<Seq<char>>>,
    action: ChatActionView,
)
    requires
        chat_step(before, event, state, after, effects, action),
    ensures
        0 <= chat_steps_left(after) < chat_steps_left(before),
        after.phase is Over <==> action is Finish || action is Break,
        after.turn.attempts_left <= before.turn.attempts_left,
{
}

/// A key that is turned away costs an attempt, not the request: while attempts are left the
/// same text goes out again with another key, and the key pauses for as long as upstream asks.
pub proof fn law_chat_retries_when_turned_away(
    before: ChatFlow,
    key: KeyUse,
    limit_ms: u64,
    elapsed_ms: u64,
    head: ResponseHead,
    state: AppState,
    after: ChatFlow,
    effects: Seq<Effect<Seq<char>>>,
    action: ChatActionView,
)
    requires
        before.phase == (ChatPhase::Answer { key, limit_ms }),
        head.status == 429,
        chat_step(
            before,
            ChatEvent::Sent { elapsed_ms, outcome: SendOutcome::Answered(head) },
            state,
            after,
            effects,
            action,
        ),
    ensures
        effects == seq![
            Effect::<Seq<char>>::RateLimit,
            Effect::<Seq<char>>::KeyRateLimited {
                key: key.idx,
                secs: pause_asked(head.retry_after),
            },
        ],
        before.turn.attempts_left > 0 ==> action == ChatActionView::Admit && after.turn.body
            == before.turn.body && after.turn.exchange == before.turn.exchange,
        before.turn.attempts_left == 0 ==> action == ChatActionView::Finish(exhausted_reply()),
{
}

/// An answer reaches the client byte for byte, with its status, its media type and the label of
/// its key, unless it says that the model is blocked or that a message has the wrong shape.
pub proof fn law_answers_pass_unchanged(
    before: ChatFlow,
    key: KeyUse,
    limit_ms: u64,
    ttfc_ms: u64,
    head: ResponseHead,
    bytes: Vec<u8>,
    state: AppState,
    after: ChatFlow,
    effects: Seq<Effect<Seq<char>>>,
    action: ChatActionView,
)
    requires
        before.phase == (ChatPhase::Body { key, limit_ms, ttfc_ms, head }),
        !says_degraded(head.status, body_text(bytes@)),
        !says_invalid_assistant(head.status, body_text(bytes@)),
        chat_step(
            before,
            ChatEvent::Read(BodyOutcome::Read(bytes)),
            state,
            after,
            effects,
            action,
        ),
    ensures
        action == ChatActionView::Finish(
            ReplyView::Forward {
                status: head.status,
                content_type: media_type(head.content_type),
                key_label: option_text(key.label),
                unbuffered: has_text(media_type(head.content_type), "event-stream"@),
                body: bytes@,
            },
        ),
{
}

} // verus!
