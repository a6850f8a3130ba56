//! Requests that go upstream as they are: legacy completions and embeddings.

use vstd::prelude::*;

use crate::chat::{answer_metrics, SendStep, SendStepView};
use crate::chat_laws::{chars_in, passed_as_it_came, tells_of_answer};
use crate::effect::{
    effects_view, exhausted_reply, record_model_outcome, text_reply, Effect, Reply, ReplyView,
};
use crate::params::option_text;
use crate::pool::KeyLease;
use crate::prepare::{requested_model, requested_model_of, slice_copy};
use crate::state::AppState;
use crate::turn::extract_response_metrics;
use crate::upstream::{
    answer_effect, attempt_count, attempts_for, content_type_or_json, forward_reply, forwarded,
    is_success, media_type, note_answer, success_status, take_attempt, text_of_body, KeyUse,
    ResponseHead,
};
use crate::wire::json_parse;

verus! {

/// What a request that goes upstream as it is waits for.
pub enum PassPhase {
    /// A key.
    Admission,
    /// The head of an answer.
    Answer(KeyUse),
    /// The body of an answer.
    Body { key: KeyUse, ttfc_ms: u64, head: ResponseHead },
    /// Nothing.
    Over,
}

/// A request that goes upstream as it is.
pub struct Passthrough {
    /// The model that it asks for; empty where it asks for none.
    pub model: String,
    /// The text that goes upstream: the client's.
    pub text: Vec<u8>,
    /// Whether answers are looked at.
    pub inspects: bool,
    /// How many attempts are left after the one that is on its way.
    pub attempts_left: usize,
    pub phase: PassPhase,
}

fn start_passthrough(state: &AppState, body: &[u8], inspects: bool) -> (r: (
    Passthrough,
    Vec<Effect<String>>,
))
    ensures
        r.0.model@ == requested_model(json_parse(body@)),
        r.0.text@ == body@,
        r.0.inspects == inspects,
        r.0.attempts_left == attempts_for(state.pool.slots@.len() as usize) - 1,
        r.0.phase is Admission,
        effects_view(r.1@) == seq![Effect::<Seq<char>>::Request { racing: false }],
{
    let mut effects: Vec<Effect<String>> = Vec::new();
    effects.push(Effect::Request { racing: false });
    assert(effects_view(effects@) =~= seq![Effect::<Seq<char>>::Request { racing: false }]);
    let flow: Passthrough = Passthrough {
        model: requested_model_of(body),
        text: slice_copy(body),
        inspects,
        attempts_left: attempt_count(state.pool.len()) - 1,
        phase: PassPhase::Admission,
    };
    (flow, effects)
}

/// Starts a request for a legacy completion, which waits for a key. Its answers are looked at.
pub fn completions(state: &AppState, body: &[u8]) -> (r: (Passthrough, Vec<Effect<String>>))
    ensures
        r.0.model@ == requested_model(json_parse(body@)),
        r.0.text@ == body@,
        r.0.inspects,
        r.0.attempts_left == attempts_for(state.pool.slots@.len() as usize) - 1,
        r.0.phase is Admission,
        effects_view(r.1@) == seq![Effect::<Seq<char>>::Request { racing: false }],
{
    start_passthrough(state, body, true)
}

/// Starts a request for embeddings, which waits for a key. Its answers are not looked at.
pub fn embeddings(state: &AppState, body: &[u8]) -> (r: (Passthrough, Vec<Effect<String>>))
    ensures
        r.0.model@ == requested_model(json_parse(body@)),
        r.0.text@ == body@,
        !r.0.inspects,
        r.0.attempts_left == attempts_for(state.pool.slots@.len() as usize) - 1,
        r.0.phase is Admission,
        effects_view(r.1@) == seq![Effect::<Seq<char>>::Request { racing: false }],
{
    start_passthrough(state, body, false)
}

/// What is noted, and what follows, when the request was sent; an error stands for a failure.
pub open spec fn passed_on(
    flow: Passthrough,
    key: KeyUse,
    elapsed_ms: u64,
    outcome: Result<ResponseHead, String>,
) -> (Seq<Effect<Seq<char>>>, SendStepView) {
    match outcome {
        Err(e) => (
            seq![
                Effect::ModelOutcome {
                    model: flow.model@,
                    key_label: option_text(key.label),
                    latency_ms: elapsed_ms,
                    ok: false,
                },
            ],
            SendStepView::Finish(ReplyView::Text { status: 502, message: e@ }),
        ),
        Ok(head) => if head.status == 429 {
            (
                seq![
                    Effect::<Seq<char>>::RateLimit,
                    Effect::<Seq<char>>::KeyRateLimited { key: key.idx, secs: 60 },
                ],
                SendStepView::Retry,
            )
        } else if success_status(head.status) {
            (seq![Effect::<Seq<char>>::KeySucceeded(key.idx)], SendStepView::ReadBody)
        } else {
            (Seq::empty(), SendStepView::ReadBody)
        },
    }
}

/// Decides what follows when the request was sent: a failure ends it, a key that is turned
/// away pauses for a minute and the next attempt follows, any other answer is read.
pub fn passthrough_after_send(
    flow: &Passthrough,
    key: &KeyUse,
    elapsed_ms: u64,
    outcome: &Result<ResponseHead, String>,
) -> (r: (Vec<Effect<String>>, SendStep))
    ensures
        (effects_view(r.0@), r.1@) == passed_on(*flow, *key, elapsed_ms, *outcome),
{
    let mut effects: Vec<Effect<String>> = Vec::new();
    let step: SendStep = match outcome {
        Err(e) => {
            effects.push(
                record_model_outcome(flow.model.as_str(), &key.label, elapsed_ms, false),
            );
            SendStep::Finish(text_reply(502, e.as_str()))
        },
        Ok(head) => {
            if head.status == 429 {
                effects.push(Effect::RateLimit);
                effects.push(Effect::KeyRateLimited { key: key.idx, secs: 60 });
                SendStep::Retry
            } else {
                if is_success(head.status) {
                    effects.push(Effect::KeySucceeded(key.idx));
                }
                SendStep::ReadBody
            }
        },
    };
    assert(effects_view(effects@) =~= passed_on(*flow, *key, elapsed_ms, *outcome).0);
    (effects, step)
}

/// What is noted of an answer whose body was read and looked at.
pub open spec fn passed_back(
    flow: Passthrough,
    key: KeyUse,
    ttfc_ms: u64,
    head: ResponseHead,
    metrics: (u32, u32, bool),
) -> Effect<Seq<char>> {
    let label = option_text(key.label);
    let ok = success_status(head.status);
    if flow.inspects {
        answer_effect(flow.model@, label, ttfc_ms, ok, metrics)
    } else {
        Effect::ModelOutcome { model: flow.model@, key_label: label, latency_ms: ttfc_ms, ok }
    }
}

/// The answer that is passed back.
pub open spec fn passed_reply(key: KeyUse, head: ResponseHead, body: Seq<u8>) -> ReplyView {
    forwarded(head.status, media_type(head.content_type), key.label, false, body)
}

/// Passes an answer back. `metrics` is what its text shows, where answers are looked at.
pub fn passthrough_settle(
    flow: &Passthrough,
    key: &KeyUse,
    ttfc_ms: u64,
    head: &ResponseHead,
    body: &[u8],
    metrics: (u32, u32, bool),
) -> (r: (Vec<Effect<String>>, Reply))
    ensures
        effects_view(r.0@) == seq![passed_back(*flow, *key, ttfc_ms, *head, metrics)],
        r.1@ == passed_reply(*key, *head, body@),
{
    let ok: bool = is_success(head.status);
    let mut effects: Vec<Effect<String>> = Vec::new();
    if flow.inspects {
        effects.push(note_answer(flow.model.as_str(), &key.label, ttfc_ms, ok, metrics));
    } else {
        effects.push(record_model_outcome(flow.model.as_str(), &key.label, ttfc_ms, ok));
    }
    assert(effects_view(effects@) =~= seq![passed_back(*flow, *key, ttfc_ms, *head, metrics)]);
    let reply: Reply = forward_reply(
        head.status,
        content_type_or_json(&head.content_type),
        &key.label,
        false,
        body,
    );
    (effects, reply)
}

/// Decides what is answered when the body of an answer was to be read; an error stands for a
/// failure.
pub fn passthrough_after_body(
    flow: &Passthrough,
    key: &KeyUse,
    ttfc_ms: u64,
    head: &ResponseHead,
    outcome: &Result<Vec<u8>, String>,
) -> (r: (Vec<Effect<String>>, Reply))
    ensures
        match *outcome {
            Err(e) => {
                &&& effects_view(r.0@) == Seq::<Effect<Seq<char>>>::empty()
                &&& r.1@ == (ReplyView::Text { status: 502, message: e@ })
            },
            Ok(body) => {
                &&& effects_view(r.0@) == seq![
                    passed_back(*flow, *key, ttfc_ms, *head, answer_metrics(body@)),
                ]
                &&& r.1@ == passed_reply(*key, *head, body@)
            },
        },
{
    match outcome {
        Err(e) => {
            let effects: Vec<Effect<String>> = Vec::new();
            assert(effects_view(effects@) =~= Seq::empty());
            (effects, text_reply(502, e.as_str()))
        },
        Ok(body) => {
            let text: String = text_of_body(body.as_slice());
            let metrics: (u32, u32, bool) = extract_response_metrics(text.as_str());
            passthrough_settle(flow, key, ttfc_ms, head, body.as_slice(), metrics)
        },
    }
}

// ---------------------------------------------------------------------------------------
// The course of a request
// ---------------------------------------------------------------------------------------

/// What happened to a request that goes upstream as it is; errors stand for failures.
pub enum PassEvent {
    /// It got a key.
    Admitted(KeyLease),
    /// It was sent, and this came of it after so many milliseconds.
    Sent { elapsed_ms: u64, outcome: Result<ResponseHead, String> },
    /// The body of its answer was read, or not.
    Read(Result<Vec<u8>, String>),
}

/// What to do for a request that goes upstream as it is.
pub enum PassAction {
    /// Get it a key.
    Admit,
    /// Send it.
    Send,
    /// Read the body of its answer.
    Read,
    /// Answer it.
    Finish(Reply),
}

/// The model of `PassAction`.
pub enum PassActionView {
    Admit,
    Send,
    Read,
    Finish(ReplyView),
}

impl View for PassAction {
    type V = PassActionView;

    open spec fn view(&self) -> PassActionView {
        match self {
            PassAction::Admit => PassActionView::Admit,
            PassAction::Send => PassActionView::Send,
            PassAction::Read => PassActionView::Read,
            PassAction::Finish(reply) => PassActionView::Finish(reply@),
        }
    }
}

/// Whether an event is what a phase waits for.
pub open spec fn pass_awaits(phase: PassPhase, event: PassEvent) -> bool {
    match (phase, event) {
        (PassPhase::Admission, PassEvent::Admitted(_)) => true,
        (PassPhase::Answer(_), PassEvent::Sent { .. }) => true,
        (PassPhase::Body { .. }, PassEvent::Read(_)) => true,
        _ => false,
    }
}

/// Whether a flow follows another by an event, with what is noted and what is to be done.
pub open spec fn pass_step(
    before: Passthrough,
    event: PassEvent,
    after: Passthrough,
    effects: Seq<Effect<Seq<char>>>,
    action: PassActionView,
) -> bool {
    match (before.phase, event) {
        (PassPhase::Admission, PassEvent::Admitted(lease)) => {
            &&& effects == Seq::<Effect<Seq<char>>>::empty()
            &&& action == PassActionView::Send
            &&& after == (Passthrough {
                phase: PassPhase::Answer(KeyUse { idx: lease.idx, label: lease.label }),
                ..before
            })
        },
        (PassPhase::Answer(key), PassEvent::Sent { elapsed_ms, outcome }) => {
            let (noted, step) = passed_on(before, key, elapsed_ms, outcome);
            &&& effects == noted
            &&& match step {
                SendStepView::Finish(reply) => {
                    &&& action == PassActionView::Finish(reply)
                    &&& after == (Passthrough { phase: PassPhase::Over, ..before })
                },
                SendStepView::Retry => if before.attempts_left > 0 {
                    &&& action == PassActionView::Admit
                    &&& after == (Passthrough {
                        attempts_left: (before.attempts_left - 1) as usize,
                        phase: PassPhase::Admission,
                        ..before
                    })
                } else {
                    &&& action == PassActionView::Finish(exhausted_reply())
                    &&& after == (Passthrough { phase: PassPhase::Over, ..before })
                },
                SendStepView::ReadBody => {
                    &&& action == PassActionView::Read
                    &&& outcome matches Ok(head) && after == (Passthrough {
                        phase: PassPhase::Body { key, ttfc_ms: elapsed_ms, head },
                        ..before
                    })
                },
            }
        },
        (PassPhase::Body { key, ttfc_ms, head }, PassEvent::Read(outcome)) => {
            &&& after == (Passthrough { phase: PassPhase::Over, ..before })
            &&& match outcome {
                Err(e) => {
                    &&& effects == Seq::<Effect<Seq<char>>>::empty()
                    &&& action == PassActionView::Finish(
                        ReplyView::Text { status: 502, message: e@ },
                    )
                },
                Ok(body) => {
                    &&& effects == seq![
                        passed_back(before, key, ttfc_ms, head, answer_metrics(body@)),
                    ]
                    &&& action == PassActionView::Finish(passed_reply(key, head, body@))
                },
            }
        },
        _ => false,
    }
}

/// Takes a request that goes upstream as it is one step further: from a key to a request, from
/// a request to an answer or to the next attempt, from an answer to the client.
pub fn pass_next(flow: &mut Passthrough, event: PassEvent) -> (r: (Vec<Effect<String>>, PassAction))
    requires
        pass_awaits(old(flow).phase, event),
    ensures
        pass_step(*old(flow), event, *final(flow), effects_view(r.0@), r.1@),
{
    let mut phase: PassPhase = PassPhase::Over;
    std::mem::swap(&mut phase, &mut flow.phase);
    match (phase, event) {
        (PassPhase::Admission, PassEvent::Admitted(lease)) => {
            let effects: Vec<Effect<String>> = Vec::new();
            assert(effects_view(effects@) =~= Seq::empty());
            flow.phase = PassPhase::Answer(KeyUse { idx: lease.idx, label: lease.label });
            (effects, PassAction::Send)
        },
        (PassPhase::Answer(key), PassEvent::Sent { elapsed_ms, outcome }) => {
            let (effects, step) = passthrough_after_send(flow, &key, elapsed_ms, &outcome);
            match step {
                SendStep::Finish(reply) => (effects, PassAction::Finish(reply)),
                SendStep::Retry => match take_attempt(&mut flow.attempts_left) {
                    Some(reply) => (effects, PassAction::Finish(reply)),
                    None => {
                        flow.phase = PassPhase::Admission;
                        (effects, PassAction::Admit)
                    },
                },
                SendStep::ReadBody => match outcome {
                    Ok(head) => {
                        flow.phase = PassPhase::Body { key, ttfc_ms: elapsed_ms, head };
                        (effects, PassAction::Read)
                    },
                    // Only an answer is read.
                    Err(_) => (effects, PassAction::Read),
                },
            }
        },
        (PassPhase::Body { key, ttfc_ms, head }, PassEvent::Read(outcome)) => {
            let (effects, reply) = passthrough_after_body(flow, &key, ttfc_ms, &head, &outcome);
            (effects, PassAction::Finish(reply))
        },
        // Nothing else is waited for.
        _ => (Vec::new(), PassAction::Read),
    }
}

/// How many steps a request that goes upstream as it is can still take, at most.
pub open spec fn pass_steps_left(flow: Passthrough) -> int {
    flow.attempts_left * 3 + match flow.phase {
        PassPhase::Admission => 3int,
        PassPhase::Answer(_) => 2,
        PassPhase::Body { .. } => 1,
        PassPhase::Over => 0,
    }
}

/// A request that goes upstream as it is comes to an end: every step uses one of those that
/// are left, and a step after which nothing is left answers the client.
pub proof fn law_pass_comes_to_an_end(
    before: Passthrough,
    event: PassEvent,
    after: Passthrough,
    effects: Seq<Effect<Seq<char>>>,
    action: PassActionView,
)
    requires
        pass_step(before, event, after, effects, action),
    ensures
        0 <= pass_steps_left(after) < pass_steps_left(before),
        after.phase is Over <==> action is Finish,
{
}

/// The text of a request that goes upstream as it is stays the client's, whatever happens.
pub proof fn law_text_stays(
    before: Passthrough,
    event: PassEvent,
    after: Passthrough,
    effects: Seq<Effect<Seq<char>>>,
    action: PassActionView,
)
    requires
        pass_step(before, event, after, effects, action),
    ensures
        after.text == before.text,
        after.model == before.model,
        after.inspects == before.inspects,
{
}

/// An answer whose body was read reaches the client with its status, its media type, the label
/// of its key and every byte of its body. One outcome of the model is noted, as a success
/// exactly where the status is one; a body that does not come is answered with 502.
pub proof fn law_passed_answers_are_unchanged(
    before: Passthrough,
    key: KeyUse,
    ttfc_ms: u64,
    head: ResponseHead,
    outcome: Result<Vec<u8>, String>,
    after: Passthrough,
    effects: Seq<Effect<Seq<char>>>,
    action: PassActionView,
)
    requires
        before.phase == (PassPhase::Body { key, ttfc_ms, head }),
        pass_step(before, PassEvent::Read(outcome), after, effects, action),
    ensures
        after.phase is Over,
        match outcome {
            Ok(bytes) => {
                &&& action matches PassActionView::Finish(reply) && passed_as_it_came(
                    reply,
                    head,
                    key.label,
                    bytes@,
                ) && !reply->unbuffered
                &&& effects.len() == 1
                &&& tells_of_answer(effects[0], before.model@, ttfc_ms, 200 <= head.status <= 299)
                &&& !before.inspects ==> effects[0] == (Effect::ModelOutcome {
                    model: before.model@,
                    key_label: chars_in(key.label),
                    latency_ms: ttfc_ms,
                    ok: 200 <= head.status <= 299,
                })
            },
            Err(e) => {
                &&& action == PassActionView::Finish(
                    ReplyView::Text { status: 502, message: e@ },
                )
                &&& effects.len() == 0
            },
        },
{
}

/// The answer that is passed back has the status and the media type of its head, the label of
/// its key and the bytes of its body.
pub proof fn law_passed_reply_is_the_answer(key: KeyUse, head: ResponseHead, body: Seq<u8>)
    ensures
        passed_as_it_came(passed_reply(key, head, body), head, key.label, body),
        !passed_reply(key, head, body)->unbuffered,
{
}

/// A request that fails ends with 502 and the failure. A key that is turned away pauses for a
/// minute and the same text goes out again, while attempts are left. Any other answer is read,
/// and a success is credited to the key.
pub proof fn law_passed_request_goes_on(
    before: Passthrough,
    key: KeyUse,
    elapsed_ms: u64,
    outcome: Result<ResponseHead, String>,
    after: Passthrough,
    effects: Seq<Effect<Seq<char>>>,
    action: PassActionView,
)
    requires
        before.phase == PassPhase::Answer(key),
        pass_step(before, PassEvent::Sent { elapsed_ms, outcome }, after, effects, action),
    ensures
        match outcome {
            Err(e) => {
                &&& action == PassActionView::Finish(
                    ReplyView::Text { status: 502, message: e@ },
                )
                &&& effects.len() == 1
                &&& effects[0] == (Effect::ModelOutcome {
                    model: before.model@,
                    key_label: chars_in(key.label),
                    latency_ms: elapsed_ms,
                    ok: false,
                })
            },
            Ok(head) => if head.status == 429 {
                &&& effects.len() == 2
                &&& effects[0] is RateLimit
                &&& effects[1] == (Effect::<Seq<char>>::KeyRateLimited { key: key.idx, secs: 60 })
                &&& before.attempts_left > 0 ==> action == PassActionView::Admit
                    && after.attempts_left + 1 == before.attempts_left && after.phase is Admission
                &&& before.attempts_left == 0 ==> action == PassActionView::Finish(
                    ReplyView::Text { status: 429, message: "all keys exhausted after retries"@ },
                )
            } else {
                &&& action == PassActionView::Read
                &&& after == (Passthrough {
                    phase: PassPhase::Body { key, ttfc_ms: elapsed_ms, head },
                    ..before
                })
                &&& effects.len() == (if 200 <= head.status <= 299 {
                    1nat
                } else {
                    0
                })
                &&& 200 <= head.status <= 299 ==> effects[0] == Effect::<
                    Seq<char>,
                >::KeySucceeded(key.idx)
            },
        },
{
}

/// A request that got a key is sent with it.
pub proof fn law_passed_request_uses_its_key(
    before: Passthrough,
    lease: KeyLease,
    after: Passthrough,
    effects: Seq<Effect<Seq<char>>>,
    action: PassActionView,
)
    requires
        before.phase is Admission,
        pass_step(before, PassEvent::Admitted(lease), after, effects, action),
    ensures
        effects.len() == 0,
        action == PassActionView::Send,
        after == (Passthrough {
            phase: PassPhase::Answer(KeyUse { idx: lease.idx, label: lease.label }),
            ..before
        }),
{
}

/// Each phase of a request that goes upstream as it is waits for one kind of event.
pub proof fn law_pass_waits_for_what_comes(
    phase: PassPhase,
    lease: KeyLease,
    elapsed_ms: u64,
    outcome: Result<ResponseHead, String>,
    body: Result<Vec<u8>, String>,
)
    ensures
        pass_awaits(phase, PassEvent::Admitted(lease)) <==> phase is Admission,
        pass_awaits(phase, PassEvent::Sent { elapsed_ms, outcome }) <==> phase is Answer,
        pass_awaits(phase, PassEvent::Read(body)) <==> phase is Body,
{
}

} // verus!
