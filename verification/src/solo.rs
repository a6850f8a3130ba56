//! A chat request that is tried on models one after the other.

use vstd::prelude::*;
use vstd::string::*;

use crate::deadline::{time_before, timeout_before_deadline};
use crate::effect::{
    after_ms, deadline_effects, deadline_message, deadline_reply, effects_view, log_turn_request,
    no_key_reply, no_key_response, racing_deadline_response, record_model_outcome,
    record_model_timeout, say_after_ms, text_reply, turn_entry, Effect, Exchange, Reply,
    ReplyView,
};
use crate::mistral::{body_remarks, mistral_validation_error};
use crate::params::option_text;
use crate::pool::KeyLease;
use crate::prepare::{body_assignable, body_for, carries_request, prepare_any_body, Prepared};
use crate::state::{timeout_for_model, AppState};
use crate::stats::{model_timeout, record_of};
use crate::turn::{request_turn_summary, turn_summary};
use crate::upstream::{
    attempt_count, attempts_for, body_text, content_type_or_json, error_excerpt, excerpt_of,
    forward_reply, forwarded, hard_model_error, is_hard_model_error, is_server_error, is_success,
    media_type, note_remarks, pause_asked, remark_effects, retry_after_secs, server_error_status,
    success_status, text_of_body, BodyOutcome, KeyUse, ResponseHead, SendOutcome, MAX_RETRIES,
};
use crate::wire::json_parse;

verus! {

/// What a chat request that is tried on models one after the other waits for.
pub enum SoloPhase {
    /// A key.
    Admission,
    /// The head of an answer.
    Answer { key: KeyUse, full_ms: u64, limit_ms: u64 },
    /// The body of an answer.
    Body { key: KeyUse, full_ms: u64, limit_ms: u64, ttfc_ms: u64, head: ResponseHead },
    /// Nothing.
    Over,
}

/// A chat request on its way through a list of models.
pub struct SoloFlow {
    /// The client's text.
    pub body: Vec<u8>,
    pub models: Vec<String>,
    /// How many models had their turn.
    pub tried: usize,
    pub deadline_ns: Option<u128>,
    /// How often the model that has its turn may still be tried.
    pub attempts_left: usize,
    /// The text for the model that has its turn.
    pub text: Vec<u8>,
    pub exchange: Exchange,
    /// What the last failure is answered.
    pub last_error: Option<(u16, String)>,
    pub phase: SoloPhase,
}

/// Starts to try models one after the other.
pub fn solo_model_fallback(body: Vec<u8>, models: Vec<String>, deadline_ns: Option<u128>) -> (r: (
    SoloFlow,
    Vec<Effect<String>>,
))
    ensures
        r.0.body == body,
        r.0.models == models,
        r.0.tried == 0,
        r.0.deadline_ns == deadline_ns,
        r.0.attempts_left == 0,
        r.0.last_error is None,
        r.0.phase is Over,
        r.0.exchange.requested_model@ == "auto"@,
        r.0.exchange.is_racing,
        effects_view(r.1@) == (if models@.len() > 1 {
            seq![Effect::<Seq<char>>::SoloFallback, Effect::<Seq<char>>::SequentialFallback]
        } else {
            seq![Effect::<Seq<char>>::SoloFallback]
        }),
{
    let mut effects: Vec<Effect<String>> = Vec::new();
    effects.push(Effect::SoloFallback);
    if models.len() > 1 {
        effects.push(Effect::SequentialFallback);
        assert(effects_view(effects@) =~= seq![
            Effect::<Seq<char>>::SoloFallback,
            Effect::<Seq<char>>::SequentialFallback,
        ]);
    } else {
        assert(effects_view(effects@) =~= seq![Effect::<Seq<char>>::SoloFallback]);
    }
    let flow: SoloFlow = SoloFlow {
        body,
        models,
        tried: 0,
        deadline_ns,
        attempts_left: 0,
        text: Vec::new(),
        exchange: Exchange {
            requested_model: "auto".to_owned(),
            responding_model: "".to_owned(),
            message_count: 0,
            has_tool_calls: false,
            tool_call_count: 0,
            is_racing: true,
        },
        last_error: None,
        phase: SoloPhase::Over,
    };
    (flow, effects)
}

/// Where a request that is tried on models one after the other goes on.
pub enum SoloStep {
    /// Answer the client.
    Finish(Reply),
    /// Try the model that has its turn.
    Try,
    /// The request is JSON that takes no members, and gets no answer.
    Unanswerable,
}

/// The model of `SoloStep`.
pub enum SoloStepView {
    Finish(ReplyView),
    Try,
    Unanswerable,
}

impl View for SoloStep {
    type V = SoloStepView;

    open spec fn view(&self) -> SoloStepView {
        match self {
            SoloStep::Finish(reply) => SoloStepView::Finish(reply@),
            SoloStep::Try => SoloStepView::Try,
            SoloStep::Unanswerable => SoloStepView::Unanswerable,
        }
    }
}

/// Whether two flows are about the same request and the same models, and in the same phase.
pub open spec fn same_request(before: SoloFlow, after: SoloFlow) -> bool {
    &&& after.body == before.body
    &&& after.models == before.models
    &&& after.deadline_ns == before.deadline_ns
    &&& after.exchange.requested_model@ == before.exchange.requested_model@
    &&& after.exchange.is_racing == before.exchange.is_racing
    &&& after.phase == before.phase
}

/// Whether a flow follows another by one more attempt with the same model.
pub open spec fn tries_again(before: SoloFlow, after: SoloFlow) -> bool {
    after == (SoloFlow { attempts_left: (before.attempts_left - 1) as usize, ..before })
}

/// Whether a flow follows another by the turn of the next model.
pub open spec fn turns_to_next(before: SoloFlow, after: SoloFlow, state: AppState) -> bool {
    let model = before.models@[before.tried as int]@;
    &&& same_request(before, after)
    &&& after.tried == before.tried + 1
    &&& after.attempts_left == attempts_for(state.pool.slots@.len() as usize) - 1
    &&& after.exchange.responding_model@ == model
    &&& body_for(before.body@, model, state) == Some(after.text@)
    &&& carries_request(after.text@, before.body@, model, state)
    &&& (
        after.exchange.message_count,
        after.exchange.has_tool_calls,
        after.exchange.tool_call_count,
    ) == turn_summary(json_parse(after.text@))
    &&& after.last_error == before.last_error
}

/// What is answered when every model failed.
pub open spec fn solo_end(flow: SoloFlow) -> (Seq<Effect<Seq<char>>>, ReplyView) {
    match flow.last_error {
        Some(e) => (Seq::empty(), ReplyView::Text { status: e.0, message: e.1@ }),
        None => (seq![Effect::NoKey], no_key_reply()),
    }
}

/// Whether a flow follows another by going on, with what is noted and where it goes on: the
/// model that has its turn is tried while it may be, then the next one has its turn; a
/// deadline that passed, a text that is not JSON and the end of the list are answered.
pub open spec fn solo_advanced(
    before: SoloFlow,
    state: AppState,
    now_ns: u128,
    after: SoloFlow,
    effects: Seq<Effect<Seq<char>>>,
    step: SoloStepView,
) -> bool {
    let left = time_before(before.deadline_ns, now_ns, state.racing_timeout_ms);
    if before.attempts_left > 0 {
        &&& step == SoloStepView::Try
        &&& tries_again(before, after)
        &&& effects == Seq::<Effect<Seq<char>>>::empty()
    } else if before.tried >= before.models@.len() {
        &&& step is Finish
        &&& (effects, step->Finish_0) == solo_end(before)
        &&& after == before
    } else if left is None {
        &&& step == SoloStepView::Finish(
            deadline_reply(state.controls.racing_max_total_request_ms),
        )
        &&& effects == deadline_effects()
        &&& after == before
    } else if json_parse(before.body@) is None {
        &&& step == SoloStepView::Finish(
            ReplyView::Text { status: 400, message: "invalid JSON body"@ },
        )
        &&& effects == Seq::<Effect<Seq<char>>>::empty()
        &&& after == before
    } else if !body_assignable(before.body@) {
        &&& step == SoloStepView::Unanswerable
        &&& effects == Seq::<Effect<Seq<char>>>::empty()
        &&& after == before
    } else {
        &&& step == SoloStepView::Try
        &&& turns_to_next(before, after, state)
        &&& effects == remark_effects(
            body_remarks(after.text@, after.exchange.responding_model@),
        )
    }
}

/// Goes on with a request that is tried on models one after the other.
pub fn solo_advance(flow: &mut SoloFlow, state: &AppState, now_ns: u128) -> (r: (
    SoloStep,
    Vec<Effect<String>>,
))
    ensures
        solo_advanced(*old(flow), *state, now_ns, *final(flow), effects_view(r.1@), r.0@),
{
    let mut effects: Vec<Effect<String>> = Vec::new();
    assert(effects_view(effects@) =~= Seq::empty());
    if flow.attempts_left > 0 {
        flow.attempts_left = flow.attempts_left - 1;
        return (SoloStep::Try, effects);
    }
    if flow.tried >= flow.models.len() {
        match &flow.last_error {
            Some(e) => {
                let reply: Reply = text_reply(e.0, e.1.as_str());
                return (SoloStep::Finish(reply), effects);
            },
            None => {
                let (reply, effects) = no_key_response();
                return (SoloStep::Finish(reply), effects);
            },
        }
    }
    if timeout_before_deadline(flow.deadline_ns, now_ns, state.racing_timeout_ms).is_none() {
        let (reply, effects) = racing_deadline_response(
            state.controls.racing_max_total_request_ms,
        );
        return (SoloStep::Finish(reply), effects);
    }
    let model_id: String = flow.models[flow.tried].clone();
    match prepare_any_body(state, flow.body.as_slice(), model_id.as_str()) {
        Prepared::NotJson => (SoloStep::Finish(text_reply(400, "invalid JSON body")), effects),
        Prepared::NotAssignable => (SoloStep::Unanswerable, effects),
        Prepared::Ready(text) => {
            let (_, remarks) = mistral_validation_error(model_id.as_str(), text.as_slice());
            note_remarks(&mut effects, remarks);
            assert(effects_view(effects@) =~= remark_effects(body_remarks(text@, model_id@)));
            let (message_count, has_tool_calls, tool_call_count) = request_turn_summary(
                text.as_slice(),
            );
            flow.exchange.responding_model = model_id;
            flow.exchange.message_count = message_count;
            flow.exchange.has_tool_calls = has_tool_calls;
            flow.exchange.tool_call_count = tool_call_count;
            flow.text = text;
            flow.tried = flow.tried + 1;
            flow.attempts_left = attempt_count(state.pool.len()) - 1;
            (SoloStep::Try, effects)
        },
    }
}

/// The time that an attempt gets, without and with the deadline; none where the deadline has
/// passed.
pub open spec fn times_for(
    state: AppState,
    model: Seq<char>,
    deadline_ns: Option<u128>,
    now_ns: u128,
) -> (u64, Option<u64>) {
    let full = model_timeout(
        record_of(state.model_stats.records(), model),
        state.racing_timeout_ms,
        state.controls.min_dynamic_timeout_ms,
        state.controls.dynamic_sample_floor,
    );
    (full, time_before(deadline_ns, now_ns, full))
}

/// Decides how long an attempt may take: the time that the model gets, and what the deadline
/// leaves of it; or answers that the deadline has passed.
pub fn attempt_times(state: &AppState, model_id: &str, deadline_ns: Option<u128>, now_ns: u128) -> (r:
    Result<(u64, u64), (Reply, Vec<Effect<String>>)>)
    ensures
        match r {
            Ok((full, left)) => times_for(*state, model_id@, deadline_ns, now_ns) == (
                full,
                Some(left),
            ),
            Err((reply, effects)) => {
                &&& times_for(*state, model_id@, deadline_ns, now_ns).1 is None
                &&& reply@ == deadline_reply(state.controls.racing_max_total_request_ms)
                &&& effects_view(effects@) == deadline_effects()
            },
        },
{
    let full: u64 = timeout_for_model(state, model_id);
    match timeout_before_deadline(deadline_ns, now_ns, full) {
        Some(left) => Ok((full, left)),
        None => Err(racing_deadline_response(state.controls.racing_max_total_request_ms)),
    }
}

/// What is said when an attempt took too long: that the deadline passed, if the deadline cut
/// the time of the attempt, else how long the attempt took.
pub open spec fn late_message(
    full_ms: u64,
    given_ms: u64,
    max_total_ms: u64,
    prefix: Seq<char>,
) -> Seq<char> {
    if given_ms < full_ms {
        deadline_message(max_total_ms)
    } else {
        after_ms(prefix, full_ms)
    }
}

/// Says that an attempt took too long.
pub fn say_late(full_ms: u64, given_ms: u64, max_total_ms: u64, prefix: &str) -> (r: String)
    ensures
        r@ == late_message(full_ms, given_ms, max_total_ms, prefix@),
{
    if given_ms < full_ms {
        say_after_ms("racing deadline exceeded after ", max_total_ms)
    } else {
        say_after_ms(prefix, full_ms)
    }
}

/// Whether a flow follows another by a failure after which the model is not tried again.
pub open spec fn gave_up(before: SoloFlow, after: SoloFlow, status: u16, message: Seq<char>) -> bool {
    &&& same_request(before, after)
    &&& after.tried == before.tried
    &&& after.attempts_left == 0
    &&& after.text == before.text
    &&& after.exchange == before.exchange
    &&& after.last_error matches Some(e) && e.0 == status && e.1@ == message
}

/// Whether a flow follows another by a failure after which the model may be tried again.
pub open spec fn failed_once(
    before: SoloFlow,
    after: SoloFlow,
    status: u16,
    message: Seq<char>,
) -> bool {
    &&& same_request(before, after)
    &&& after.tried == before.tried
    &&& after.attempts_left == before.attempts_left
    &&& after.text == before.text
    &&& after.exchange == before.exchange
    &&& after.last_error matches Some(e) && e.0 == status && e.1@ == message
}

/// What is noted when an attempt took too long.
pub open spec fn late_effects(
    x: Exchange,
    key_label: Option<Seq<char>>,
    given_ms: u64,
    message: Seq<char>,
) -> Seq<Effect<Seq<char>>> {
    seq![
        Effect::Timeout,
        Effect::ModelTimeout { model: x.responding_model@, key_label, elapsed_ms: given_ms },
        turn_entry(x, key_label, given_ms, false, 504, Some(message)),
    ]
}

pub(crate) fn note_late(x: &Exchange, key_label: &Option<String>, given_ms: u64, message: &String) -> (r: Vec<
    Effect<String>,
>)
    ensures
        effects_view(r@) == late_effects(*x, option_text(*key_label), given_ms, message@),
{
    let mut effects: Vec<Effect<String>> = Vec::new();
    effects.push(Effect::Timeout);
    effects.push(record_model_timeout(x.responding_model.as_str(), key_label, given_ms));
    effects.push(log_turn_request(x, key_label, given_ms, false, 504, Some(message.clone())));
    assert(effects_view(effects@) =~= late_effects(
        *x,
        option_text(*key_label),
        given_ms,
        message@,
    ));
    effects
}

/// What follows an attempt's request.
pub enum SoloSent {
    /// Go on with the flow.
    Advance,
    ReadBody,
}

/// Whether a flow follows another by an attempt's request, with what is noted and what
/// follows: silence and failure end the turn of the model, a key that is turned away pauses,
/// any other answer is read.
pub open spec fn solo_sent(
    before: SoloFlow,
    key: KeyUse,
    full_ms: u64,
    given_ms: u64,
    max_total_ms: u64,
    elapsed_ms: u64,
    outcome: SendOutcome,
    after: SoloFlow,
    effects: Seq<Effect<Seq<char>>>,
    sent: SoloSent,
) -> bool {
    let x = before.exchange;
    let label = option_text(key.label);
    match outcome {
        SendOutcome::Failed(e) => {
            &&& sent is Advance
            &&& gave_up(before, after, 502, e@)
            &&& effects == seq![
                Effect::ModelOutcome {
                    model: x.responding_model@,
                    key_label: label,
                    latency_ms: elapsed_ms,
                    ok: false,
                },
                turn_entry(x, label, elapsed_ms, false, 502, Some(e@)),
            ]
        },
        SendOutcome::TimedOut => {
            let message = late_message(full_ms, given_ms, max_total_ms, "upstream timeout after "@);
            &&& sent is Advance
            &&& gave_up(before, after, 504, message)
            &&& effects == late_effects(x, label, given_ms, message)
        },
        SendOutcome::Answered(head) => if head.status == 429 {
            &&& sent is Advance
            &&& failed_once(before, after, 429, "all API keys rate-limited"@)
            &&& effects == seq![
                Effect::<Seq<char>>::RateLimit,
                Effect::<Seq<char>>::KeyRateLimited {
                    key: key.idx,
                    secs: pause_asked(head.retry_after),
                },
            ]
        } else {
            &&& sent is ReadBody
            &&& after == before
            &&& effects == Seq::<Effect<Seq<char>>>::empty()
        },
    }
}

/// Decides what follows when an attempt's request was sent.
pub fn solo_after_send(
    flow: &mut SoloFlow,
    key: &KeyUse,
    full_ms: u64,
    given_ms: u64,
    max_total_ms: u64,
    elapsed_ms: u64,
    outcome: &SendOutcome,
) -> (r: (Vec<Effect<String>>, SoloSent))
    ensures
        solo_sent(
            *old(flow),
            *key,
            full_ms,
            given_ms,
            max_total_ms,
            elapsed_ms,
            *outcome,
            *final(flow),
            effects_view(r.0@),
            r.1,
        ),
{
    match outcome {
        SendOutcome::Failed(e) => {
            let mut effects: Vec<Effect<String>> = Vec::new();
            effects.push(
                record_model_outcome(
                    flow.exchange.responding_model.as_str(),
                    &key.label,
                    elapsed_ms,
                    false,
                ),
            );
            effects.push(
                log_turn_request(
                    &flow.exchange,
                    &key.label,
                    elapsed_ms,
                    false,
                    502,
                    Some(e.clone()),
                ),
            );
            assert(effects_view(effects@) =~= seq![
                Effect::ModelOutcome {
                    model: flow.exchange.responding_model@,
                    key_label: option_text(key.label),
                    latency_ms: elapsed_ms,
                    ok: false,
                },
                turn_entry(
                    flow.exchange,
                    option_text(key.label),
                    elapsed_ms,
                    false,
                    502,
                    Some(e@),
                ),
            ]);
            flow.last_error = Some((502, e.clone()));
            flow.attempts_left = 0;
            (effects, SoloSent::Advance)
        },
        SendOutcome::TimedOut => {
            let message: String = say_late(
                full_ms,
                given_ms,
                max_total_ms,
                "upstream timeout after ",
            );
            let effects: Vec<Effect<String>> = note_late(
                &flow.exchange,
                &key.label,
                given_ms,
                &message,
            );
            flow.last_error = Some((504, message));
            flow.attempts_left = 0;
            (effects, SoloSent::Advance)
        },
        SendOutcome::Answered(head) => {
            let mut effects: Vec<Effect<String>> = Vec::new();
            if head.status == 429 {
                effects.push(Effect::RateLimit);
                effects.push(
                    Effect::KeyRateLimited {
                        key: key.idx,
                        secs: retry_after_secs(&head.retry_after),
                    },
                );
                assert(effects_view(effects@) =~= seq![
                    Effect::<Seq<char>>::RateLimit,
                    Effect::<Seq<char>>::KeyRateLimited {
                        key: key.idx,
                        secs: pause_asked(head.retry_after),
                    },
                ]);
                flow.last_error = Some((429, "all API keys rate-limited".to_owned()));
                (effects, SoloSent::Advance)
            } else {
                assert(effects_view(effects@) =~= Seq::empty());
                (effects, SoloSent::ReadBody)
            }
        },
    }
}

/// Decides how long the body of an attempt's answer may take, or answers that the deadline
/// has passed.
pub fn solo_body_time(flow: &SoloFlow, full_ms: u64, max_total_ms: u64, now_ns: u128) -> (r: Result<
    u64,
    (Reply, Vec<Effect<String>>),
>)
    ensures
        match r {
            Ok(ms) => time_before(flow.deadline_ns, now_ns, full_ms) == Some(ms),
            Err((reply, effects)) => {
                &&& time_before(flow.deadline_ns, now_ns, full_ms) is None
                &&& reply@ == deadline_reply(max_total_ms)
                &&& effects_view(effects@) == deadline_effects()
            },
        },
{
    match timeout_before_deadline(flow.deadline_ns, now_ns, full_ms) {
        Some(ms) => Ok(ms),
        None => Err(racing_deadline_response(max_total_ms)),
    }
}

/// What follows the body of an attempt's answer.
pub enum SoloRead {
    /// Answer the client.
    Finish(Reply),
    /// Go on with the flow.
    Advance,
}

/// The model of `SoloRead`.
pub enum SoloReadView {
    Finish(ReplyView),
    Advance,
}

impl View for SoloRead {
    type V = SoloReadView;

    open spec fn view(&self) -> SoloReadView {
        match self {
            SoloRead::Finish(reply) => SoloReadView::Finish(reply@),
            SoloRead::Advance => SoloReadView::Advance,
        }
    }
}

/// Whether an answer shows that the model rejects the shape of the request.
pub open spec fn rejects_shape(status: u16, text: Seq<char>) -> bool {
    status == 400 && hard_model_error("HTTP 400 "@ + text)
}

/// What is noted of an answer that was read.
pub open spec fn solo_read_effects(
    x: Exchange,
    key: KeyUse,
    ttfc_ms: u64,
    status: u16,
    text: Seq<char>,
) -> Seq<Effect<Seq<char>>> {
    let label = option_text(key.label);
    let model = x.responding_model@;
    let ok = success_status(status);
    let first: Seq<Effect<Seq<char>>> = if rejects_shape(status, text) {
        seq![Effect::HardError { model, error: text }]
    } else if ok {
        seq![Effect::KeySucceeded(key.idx)]
    } else {
        Seq::empty()
    };
    let last: Seq<Effect<Seq<char>>> = if ok {
        seq![Effect::RacingWin(model)]
    } else {
        Seq::empty()
    };
    first + seq![
        Effect::ModelOutcome { model, key_label: label, latency_ms: ttfc_ms, ok },
        turn_entry(
            x,
            label,
            ttfc_ms,
            ok,
            status,
            if ok {
                None
            } else {
                Some(excerpt_of(text))
            },
        ),
    ] + last
}

fn note_solo_read(
    x: &Exchange,
    key: &KeyUse,
    ttfc_ms: u64,
    status: u16,
    text: &str,
    rejected: bool,
) -> (r: Vec<Effect<String>>)
    requires
        rejected == rejects_shape(status, text@),
    ensures
        effects_view(r@) == solo_read_effects(*x, *key, ttfc_ms, status, text@),
{
    let ok: bool = is_success(status);
    let mut effects: Vec<Effect<String>> = Vec::new();
    if rejected {
        effects.push(
            Effect::HardError { model: x.responding_model.clone(), error: text.to_owned() },
        );
    }
    if ok {
        effects.push(Effect::KeySucceeded(key.idx));
    }
    effects.push(record_model_outcome(x.responding_model.as_str(), &key.label, ttfc_ms, ok));
    let error: Option<String> = if ok {
        None
    } else {
        Some(error_excerpt(text))
    };
    effects.push(log_turn_request(x, &key.label, ttfc_ms, ok, status, error));
    if ok {
        effects.push(Effect::RacingWin(x.responding_model.clone()));
    }
    assert(effects_view(effects@) =~= solo_read_effects(*x, *key, ttfc_ms, status, text@));
    effects
}

/// Whether a flow follows another by the body of an attempt's answer, with what is noted and
/// what follows: a success and a client's error are passed on; a failing server and a rejected
/// shape end the turn of the model, as silence and failure do.
pub open spec fn solo_read(
    before: SoloFlow,
    key: KeyUse,
    full_ms: u64,
    given_ms: u64,
    max_total_ms: u64,
    elapsed_ms: u64,
    ttfc_ms: u64,
    head: ResponseHead,
    outcome: BodyOutcome,
    after: SoloFlow,
    effects: Seq<Effect<Seq<char>>>,
    read: SoloReadView,
) -> bool {
    let x = before.exchange;
    let label = option_text(key.label);
    match outcome {
        BodyOutcome::Failed(e) => {
            &&& read == SoloReadView::Advance
            &&& gave_up(before, after, 502, e@)
            &&& effects == seq![turn_entry(x, label, elapsed_ms, false, 502, Some(e@))]
        },
        BodyOutcome::TimedOut => {
            let message = late_message(
                full_ms,
                given_ms,
                max_total_ms,
                "upstream body timeout after "@,
            );
            &&& read == SoloReadView::Advance
            &&& gave_up(before, after, 504, message)
            &&& effects == late_effects(x, label, given_ms, message)
        },
        BodyOutcome::Read(bytes) => {
            let text = body_text(bytes@);
            &&& effects == solo_read_effects(x, key, ttfc_ms, head.status, text)
            &&& if server_error_status(head.status) || rejects_shape(head.status, text) {
                &&& read == SoloReadView::Advance
                &&& gave_up(before, after, head.status, excerpt_of(text))
            } else {
                &&& read == SoloReadView::Finish(
                    forwarded(
                        head.status,
                        media_type(head.content_type),
                        key.label,
                        false,
                        bytes@,
                    ),
                )
                &&& after == before
            }
        },
    }
}

/// Decides what follows when the body of an attempt's answer was to be read.
pub fn solo_after_body(
    flow: &mut SoloFlow,
    key: &KeyUse,
    full_ms: u64,
    given_ms: u64,
    max_total_ms: u64,
    elapsed_ms: u64,
    ttfc_ms: u64,
    head: &ResponseHead,
    outcome: &BodyOutcome,
) -> (r: (Vec<Effect<String>>, SoloRead))
    ensures
        solo_read(
            *old(flow),
            *key,
            full_ms,
            given_ms,
            max_total_ms,
            elapsed_ms,
            ttfc_ms,
            *head,
            *outcome,
            *final(flow),
            effects_view(r.0@),
            r.1@,
        ),
{
    match outcome {
        BodyOutcome::Failed(e) => {
            let mut effects: Vec<Effect<String>> = Vec::new();
            effects.push(
                log_turn_request(
                    &flow.exchange,
                    &key.label,
                    elapsed_ms,
                    false,
                    502,
                    Some(e.clone()),
                ),
            );
            assert(effects_view(effects@) =~= seq![
                turn_entry(
                    flow.exchange,
                    option_text(key.label),
                    elapsed_ms,
                    false,
                    502,
                    Some(e@),
                ),
            ]);
            flow.last_error = Some((502, e.clone()));
            flow.attempts_left = 0;
            (effects, SoloRead::Advance)
        },
        BodyOutcome::TimedOut => {
            let message: String = say_late(
                full_ms,
                given_ms,
                max_total_ms,
                "upstream body timeout after ",
            );
            let effects: Vec<Effect<String>> = note_late(
                &flow.exchange,
                &key.label,
                given_ms,
                &message,
            );
            flow.last_error = Some((504, message));
            flow.attempts_left = 0;
            (effects, SoloRead::Advance)
        },
        BodyOutcome::Read(bytes) => {
            let text: String = text_of_body(bytes.as_slice());
            let mut err: String = "HTTP 400 ".to_owned();
            err.append(text.as_str());
            let rejected: bool = head.status == 400 && is_hard_model_error(err.as_str());
            let effects: Vec<Effect<String>> = note_solo_read(
                &flow.exchange,
                key,
                ttfc_ms,
                head.status,
                text.as_str(),
                rejected,
            );
            if is_server_error(head.status) || rejected {
                flow.last_error = Some((head.status, error_excerpt(text.as_str())));
                flow.attempts_left = 0;
                return (effects, SoloRead::Advance);
            }
            let reply: Reply = forward_reply(
                head.status,
                content_type_or_json(&head.content_type),
                &key.label,
                false,
                bytes.as_slice(),
            );
            (effects, SoloRead::Finish(reply))
        },
    }
}

// ---------------------------------------------------------------------------------------
// The course of a request
// ---------------------------------------------------------------------------------------

/// What happened to a request that is tried on models one after the other.
#[allow(inconsistent_fields)]
pub enum SoloEvent {
    /// It got a key.
    Admitted(KeyLease),
    /// It was sent, and this came of it after so many milliseconds.
    Sent { elapsed_ms: u64, outcome: SendOutcome },
    /// The body of its answer was read, or not, so many milliseconds after it was sent.
    Read { elapsed_ms: u64, outcome: BodyOutcome },
}

/// What to do for a request that is tried on models one after the other.
pub enum SoloAction {
    /// Get it a key.
    Admit,
    /// Send it, within a time limit.
    Send { limit_ms: u64 },
    /// Read the body of its answer, within a time limit.
    Read { limit_ms: u64 },
    /// Answer it.
    Finish(Reply),
    /// The request is JSON that takes no members, and gets no answer.
    Unanswerable,
}

/// The model of `SoloAction`.
pub enum SoloActionView {
    Admit,
    Send { limit_ms: u64 },
    Read { limit_ms: u64 },
    Finish(ReplyView),
    Unanswerable,
}

impl View for SoloAction {
    type V = SoloActionView;

    open spec fn view(&self) -> SoloActionView {
        match self {
            SoloAction::Admit => SoloActionView::Admit,
            SoloAction::Send { limit_ms } => SoloActionView::Send { limit_ms: *limit_ms },
            SoloAction::Read { limit_ms } => SoloActionView::Read { limit_ms: *limit_ms },
            SoloAction::Finish(reply) => SoloActionView::Finish(reply@),
            SoloAction::Unanswerable => SoloActionView::Unanswerable,
        }
    }
}

/// A flow that waits for nothing.
pub open spec fn at_rest(flow: SoloFlow) -> SoloFlow {
    SoloFlow { phase: SoloPhase::Over, ..flow }
}

/// Whether a flow follows another that waits for nothing, by going on, with what is noted and
/// what is to be done.
pub open spec fn solo_goes_on(
    before: SoloFlow,
    state: AppState,
    now_ns: u128,
    after: SoloFlow,
    effects: Seq<Effect<Seq<char>>>,
    action: SoloActionView,
) -> bool {
    &&& solo_advanced(
        before,
        state,
        now_ns,
        at_rest(after),
        effects,
        match action {
            SoloActionView::Finish(reply) => SoloStepView::Finish(reply),
            SoloActionView::Unanswerable => SoloStepView::Unanswerable,
            _ => SoloStepView::Try,
        },
    )
    &&& match action {
        SoloActionView::Admit => after.phase is Admission,
        SoloActionView::Finish(_) => after.phase is Over,
        SoloActionView::Unanswerable => after.phase is Over,
        _ => false,
    }
}

/// Goes on with a request: to a key for the model whose turn it is, or to its end.
pub fn solo_begin(flow: &mut SoloFlow, state: &AppState, now_ns: u128) -> (r: (
    Vec<Effect<String>>,
    SoloAction,
))
    requires
        old(flow).phase is Over,
    ensures
        solo_goes_on(*old(flow), *state, now_ns, *final(flow), effects_view(r.0@), r.1@),
{
    let (step, effects) = solo_advance(flow, state, now_ns);
    let ghost advanced = *flow;
    match step {
        SoloStep::Finish(reply) => {
            assert(at_rest(*flow) == advanced);
            (effects, SoloAction::Finish(reply))
        },
        SoloStep::Unanswerable => {
            assert(at_rest(*flow) == advanced);
            (effects, SoloAction::Unanswerable)
        },
        SoloStep::Try => {
            flow.phase = SoloPhase::Admission;
            assert(at_rest(*flow) == advanced);
            (effects, SoloAction::Admit)
        },
    }
}

/// Whether an event is what a phase waits for.
pub open spec fn solo_awaits(phase: SoloPhase, event: SoloEvent) -> bool {
    match (phase, event) {
        (SoloPhase::Admission, SoloEvent::Admitted(_)) => true,
        (SoloPhase::Answer { .. }, SoloEvent::Sent { .. }) => true,
        (SoloPhase::Body { .. }, SoloEvent::Read { .. }) => true,
        _ => false,
    }
}

/// Whether a flow follows another by a key.
pub open spec fn solo_admitted(
    before: SoloFlow,
    lease: KeyLease,
    state: AppState,
    now_ns: u128,
    after: SoloFlow,
    effects: Seq<Effect<Seq<char>>>,
    action: SoloActionView,
) -> bool {
    let (full_ms, left) = times_for(
        state,
        before.exchange.responding_model@,
        before.deadline_ns,
        now_ns,
    );
    match left {
        Some(limit_ms) => {
            &&& effects == Seq::<Effect<Seq<char>>>::empty()
            &&& action == (SoloActionView::Send { limit_ms })
            &&& after == (SoloFlow {
                phase: SoloPhase::Answer {
                    key: KeyUse { idx: lease.idx, label: lease.label },
                    full_ms,
                    limit_ms,
                },
                ..before
            })
        },
        None => {
            &&& effects == deadline_effects()
            &&& action == SoloActionView::Finish(
                deadline_reply(state.controls.racing_max_total_request_ms),
            )
            &&& after == at_rest(before)
        },
    }
}

/// Whether a flow follows another by an answer whose body is to be read.
pub open spec fn solo_to_read(
    before: SoloFlow,
    key: KeyUse,
    full_ms: u64,
    ttfc_ms: u64,
    head: ResponseHead,
    state: AppState,
    now_ns: u128,
    after: SoloFlow,
    effects: Seq<Effect<Seq<char>>>,
    action: SoloActionView,
) -> bool {
    match time_before(before.deadline_ns, now_ns, full_ms) {
        Some(limit_ms) => {
            &&& effects == Seq::<Effect<Seq<char>>>::empty()
            &&& action == (SoloActionView::Read { limit_ms })
            &&& after == (SoloFlow {
                phase: SoloPhase::Body { key, full_ms, limit_ms, ttfc_ms, head },
                ..before
            })
        },
        None => {
            &&& effects == deadline_effects()
            &&& action == SoloActionView::Finish(
                deadline_reply(state.controls.racing_max_total_request_ms),
            )
            &&& after == at_rest(before)
        },
    }
}

/// Whether a flow follows another by an event, with what is noted and what is to be done.
pub open spec fn solo_step(
    before: SoloFlow,
    event: SoloEvent,
    state: AppState,
    now_ns: u128,
    after: SoloFlow,
    effects: Seq<Effect<Seq<char>>>,
    action: SoloActionView,
) -> bool {
    let total_ms = state.controls.racing_max_total_request_ms;
    match (before.phase, event) {
        (SoloPhase::Admission, SoloEvent::Admitted(lease)) => solo_admitted(
            before,
            lease,
            state,
            now_ns,
            after,
            effects,
            action,
        ),
        (
            SoloPhase::Answer { key, full_ms, limit_ms },
            SoloEvent::Sent { elapsed_ms, outcome },
        ) => match outcome {
            SendOutcome::Answered(head) if head.status != 429 => solo_to_read(
                before,
                key,
                full_ms,
                elapsed_ms,
                head,
                state,
                now_ns,
                after,
                effects,
                action,
            ),
            _ => exists|failed: SoloFlow, first: Seq<Effect<Seq<char>>>, later: Seq<
                Effect<Seq<char>>,
            >|
                {
                    &&& #[trigger] solo_sent(
                        at_rest(before),
                        key,
                        full_ms,
                        limit_ms,
                        total_ms,
                        elapsed_ms,
                        outcome,
                        failed,
                        first,
                        SoloSent::Advance,
                    )
                    &&& #[trigger] solo_goes_on(failed, state, now_ns, after, later, action)
                    &&& effects == first + later
                },
        },
        (
            SoloPhase::Body { key, full_ms, limit_ms, ttfc_ms, head },
            SoloEvent::Read { elapsed_ms, outcome },
        ) => {
            ||| action matches SoloActionView::Finish(reply) && after == at_rest(before)
                && solo_read(
                at_rest(before),
                key,
                full_ms,
                limit_ms,
                total_ms,
                elapsed_ms,
                ttfc_ms,
                head,
                outcome,
                after,
                effects,
                SoloReadView::Finish(reply),
            )
            ||| exists|failed: SoloFlow, first: Seq<Effect<Seq<char>>>, later: Seq<
                Effect<Seq<char>>,
            >|
                {
                    &&& #[trigger] solo_read(
                        at_rest(before),
                        key,
                        full_ms,
                        limit_ms,
                        total_ms,
                        elapsed_ms,
                        ttfc_ms,
                        head,
                        outcome,
                        failed,
                        first,
                        SoloReadView::Advance,
                    )
                    &&& #[trigger] solo_goes_on(failed, state, now_ns, after, later, action)
                    &&& effects == first + later
                }
        },
        _ => false,
    }
}

fn go_on_after(
    flow: &mut SoloFlow,
    state: &AppState,
    now_ns: u128,
    effects: Vec<Effect<String>>,
) -> (r: (Vec<Effect<String>>, SoloAction))
    requires
        old(flow).phase is Over,
    ensures
        exists|later: Seq<Effect<Seq<char>>>|
            {
                &&& #[trigger] solo_goes_on(
                    *old(flow),
                    *state,
                    now_ns,
                    *final(flow),
                    later,
                    r.1@,
                )
                &&& effects_view(r.0@) == effects_view(effects@) + later
            },
{
    let mut all: Vec<Effect<String>> = effects;
    let ghost first = effects_view(all@);
    let (mut more, action) = solo_begin(flow, state, now_ns);
    let ghost later = effects_view(more@);
    all.append(&mut more);
    assert(effects_view(all@) =~= first + later);
    let r: (Vec<Effect<String>>, SoloAction) = (all, action);
    assert(solo_goes_on(*old(flow), *state, now_ns, *flow, later, r.1@));
    r
}

/// Takes a request that is tried on models one after the other one step further: from a key to
/// a request, from a request to an answer, from an answer to the client, and from a failure to
/// the next attempt or the next model.
pub fn solo_next(flow: &mut SoloFlow, state: &AppState, event: SoloEvent, now_ns: u128) -> (r: (
    Vec<Effect<String>>,
    SoloAction,
))
    requires
        solo_awaits(old(flow).phase, event),
    ensures
        solo_step(*old(flow), event, *state, now_ns, *final(flow), effects_view(r.0@), r.1@),
{
    let ghost before = *flow;
    let total_ms: u64 = state.controls.racing_max_total_request_ms;
    let mut phase: SoloPhase = SoloPhase::Over;
    std::mem::swap(&mut phase, &mut flow.phase);
    assert(*flow == at_rest(before));
    match (phase, event) {
        (SoloPhase::Admission, SoloEvent::Admitted(lease)) => {
            let times: Result<(u64, u64), (Reply, Vec<Effect<String>>)> = attempt_times(
                state,
                flow.exchange.responding_model.as_str(),
                flow.deadline_ns,
                now_ns,
            );
            match times {
                Ok((full_ms, limit_ms)) => {
                    let effects: Vec<Effect<String>> = Vec::new();
                    assert(effects_view(effects@) =~= Seq::empty());
                    let key: KeyUse = KeyUse { idx: lease.idx, label: lease.label };
                    flow.phase = SoloPhase::Answer { key, full_ms, limit_ms };
                    (effects, SoloAction::Send { limit_ms })
                },
                Err((reply, effects)) => (effects, SoloAction::Finish(reply)),
            }
        },
        (
            SoloPhase::Answer { key, full_ms, limit_ms },
            SoloEvent::Sent { elapsed_ms, outcome },
        ) => {
            let (effects, sent) = solo_after_send(
                flow,
                &key,
                full_ms,
                limit_ms,
                total_ms,
                elapsed_ms,
                &outcome,
            );
            let ghost failed = *flow;
            match sent {
                SoloSent::Advance => {
                    let ghost first = effects_view(effects@);
                    let r: (Vec<Effect<String>>, SoloAction) = go_on_after(
                        flow,
                        state,
                        now_ns,
                        effects,
                    );
                    assert(solo_sent(
                        at_rest(before),
                        key,
                        full_ms,
                        limit_ms,
                        total_ms,
                        elapsed_ms,
                        outcome,
                        failed,
                        first,
                        SoloSent::Advance,
                    ));
                    r
                },
                SoloSent::ReadBody => match outcome {
                    SendOutcome::Answered(head) => match solo_body_time(
                        flow,
                        full_ms,
                        total_ms,
                        now_ns,
                    ) {
                        Ok(limit_ms) => {
                            flow.phase = SoloPhase::Body {
                                key,
                                full_ms,
                                limit_ms,
                                ttfc_ms: elapsed_ms,
                                head,
                            };
                            (effects, SoloAction::Read { limit_ms })
                        },
                        Err((reply, effects)) => (effects, SoloAction::Finish(reply)),
                    },
                    // Only an answer is read.
                    _ => (effects, SoloAction::Unanswerable),
                },
            }
        },
        (
            SoloPhase::Body { key, full_ms, limit_ms, ttfc_ms, head },
            SoloEvent::Read { elapsed_ms, outcome },
        ) => {
            let (effects, read) = solo_after_body(
                flow,
                &key,
                full_ms,
                limit_ms,
                total_ms,
                elapsed_ms,
                ttfc_ms,
                &head,
                &outcome,
            );
            let ghost failed = *flow;
            let ghost first = effects_view(effects@);
            match read {
                SoloRead::Finish(reply) => (effects, SoloAction::Finish(reply)),
                SoloRead::Advance => {
                    let r: (Vec<Effect<String>>, SoloAction) = go_on_after(
                        flow,
                        state,
                        now_ns,
                        effects,
                    );
                    assert(solo_read(
                        at_rest(before),
                        key,
                        full_ms,
                        limit_ms,
                        total_ms,
                        elapsed_ms,
                        ttfc_ms,
                        head,
                        outcome,
                        failed,
                        first,
                        SoloReadView::Advance,
                    ));
                    r
                },
            }
        },
        // Nothing else is waited for.
        _ => (Vec::new(), SoloAction::Unanswerable),
    }
}

/// How often models can still be tried, at most.
pub open spec fn tries_left(flow: SoloFlow) -> int {
    (flow.models@.len() - flow.tried) * (MAX_RETRIES as int) + flow.attempts_left
}

/// How many steps a request can still take, at most.
pub open spec fn solo_steps_left(flow: SoloFlow) -> int {
    tries_left(flow) * 3 + match flow.phase {
        SoloPhase::Admission => 3int,
        SoloPhase::Answer { .. } => 2,
        SoloPhase::Body { .. } => 1,
        SoloPhase::Over => 0,
    }
}

proof fn lemma_going_on_uses_a_try(
    before: SoloFlow,
    state: AppState,
    now_ns: u128,
    after: SoloFlow,
    effects: Seq<Effect<Seq<char>>>,
    action: SoloActionView,
)
    requires
        before.tried <= before.models@.len(),
        solo_goes_on(before, state, now_ns, after, effects, action),
    ensures
        after.tried <= after.models@.len(),
        action is Admit ==> 0 <= tries_left(after) < tries_left(before),
        !(action is Admit) ==> 0 <= tries_left(after) == tries_left(before),
{
    assert(tries_left(at_rest(after)) == tries_left(after));
    assert((before.models@.len() - before.tried) * (MAX_RETRIES as int) >= 0) by (nonlinear_arith)
        requires
            before.tried <= before.models@.len(),
            MAX_RETRIES >= 0,
    ;
    if before.attempts_left == 0 && action is Admit {
        let n = before.models@.len() - before.tried;
        assert((n - 1) * (MAX_RETRIES as int) == n * (MAX_RETRIES as int) - (MAX_RETRIES as int))
            by (nonlinear_arith);
        assert((n - 1) * (MAX_RETRIES as int) >= 0) by (nonlinear_arith)
            requires
                n >= 1,
                MAX_RETRIES >= 0,
        ;
    }
}

/// A request that is tried on models one after the other comes to an end: every step uses one
/// of those that are left, and a step after which nothing is waited for answers the client, or
/// breaks off a request that cannot be answered.
pub proof fn law_solo_comes_to_an_end(
    before: SoloFlow,
    event: SoloEvent,
    state: AppState,
    now_ns: u128,
    after: SoloFlow,
    effects: Seq<Effect<Seq<char>>>,
    action: SoloActionView,
)
    requires
        before.tried <= before.models@.len(),
        solo_step(before, event, state, now_ns, after, effects, action),
    ensures
        after.tried <= after.models@.len(),
        0 <= solo_steps_left(after) < solo_steps_left(before),
        after.phase is Over <==> action is Finish || action is Unanswerable,
{
    let total_ms = state.controls.racing_max_total_request_ms;
    assert((before.models@.len() - before.tried) * (MAX_RETRIES as int) >= 0) by (nonlinear_arith)
        requires
            before.tried <= before.models@.len(),
            MAX_RETRIES >= 0,
    ;
    match (before.phase, event) {
        (
            SoloPhase::Answer { key, full_ms, limit_ms },
            SoloEvent::Sent { elapsed_ms, outcome },
        ) => {
            if !(outcome matches SendOutcome::Answered(head) && head.status != 429) {
                let (failed, first, later) = choose|
                    failed: SoloFlow,
                    first: Seq<Effect<Seq<char>>>,
                    later: Seq<Effect<Seq<char>>>,
                |
                    {
                        &&& #[trigger] solo_sent(
                            at_rest(before),
                            key,
                            full_ms,
                            limit_ms,
                            total_ms,
                            elapsed_ms,
                            outcome,
                            failed,
                            first,
                            SoloSent::Advance,
                        )
                        &&& #[trigger] solo_goes_on(failed, state, now_ns, after, later, action)
                        &&& effects == first + later
                    };
                lemma_going_on_uses_a_try(failed, state, now_ns, after, later, action);
            }
        },
        (
            SoloPhase::Body { key, full_ms, limit_ms, ttfc_ms, head },
            SoloEvent::Read { elapsed_ms, outcome },
        ) => {
            if exists|failed: SoloFlow, first: Seq<Effect<Seq<char>>>, later: Seq<
                Effect<Seq<char>>,
            >|
                {
                    &&& #[trigger] solo_read(
                        at_rest(before),
                        key,
                        full_ms,
                        limit_ms,
                        total_ms,
                        elapsed_ms,
                        ttfc_ms,
                        head,
                        outcome,
                        failed,
                        first,
                        SoloReadView::Advance,
                    )
                    &&& #[trigger] solo_goes_on(failed, state, now_ns, after, later, action)
                    &&& effects == first + later
                } {
                let (failed, first, later) = choose|
                    failed: SoloFlow,
                    first: Seq<Effect<Seq<char>>>,
                    later: Seq<Effect<Seq<char>>>,
                |
                    {
                        &&& #[trigger] solo_read(
                            at_rest(before),
                            key,
                            full_ms,
                            limit_ms,
                            total_ms,
                            elapsed_ms,
                            ttfc_ms,
                            head,
                            outcome,
                            failed,
                            first,
                            SoloReadView::Advance,
                        )
                        &&& #[trigger] solo_goes_on(failed, state, now_ns, after, later, action)
                        &&& effects == first + later
                    };
                lemma_going_on_uses_a_try(failed, state, now_ns, after, later, action);
            }
        },
        _ => {},
    }
}

} // verus!
