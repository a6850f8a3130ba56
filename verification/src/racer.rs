//! One model's part in a race, from its request to its answer.

use vstd::prelude::*;
use vstd::string::*;
use vstd::utf8::{decode_utf8, valid_utf8};

use crate::deadline::{time_before, timeout_before_deadline};
use crate::effect::{
    deadline_message, effects_view, log_turn_request, record_model_outcome, record_model_timeout,
    say_after_ms, turn_entry, Effect, Exchange, Reply, ReplyView,
};
use crate::number::{decimal, decimal_string};
use crate::params::option_text;
use crate::race::Racer;
use crate::solo::{late_effects, late_message, note_late, say_late};
use crate::upstream::{
    byte_excerpt, clean_cut, content_type_or_json, cut_of, cuts_cleanly, forward_reply, forwarded,
    hard_model_error, is_hard_model_error, is_success, lossy_text, lossy_text_of_body, media_type,
    pause_asked, retry_after_secs, success_status, BodyOutcome, ResponseHead, SendOutcome,
};

verus! {

/// What follows a racing model's request.
pub enum RacerSent {
    /// The model is out, for this reason.
    Out(String),
    /// The answer is an error, and its text is read.
    ReadError,
    /// The answer is read.
    ReadBody,
}

/// The model of `RacerSent`.
pub enum RacerSentView {
    Out(Seq<char>),
    ReadError,
    ReadBody,
}

impl View for RacerSent {
    type V = RacerSentView;

    open spec fn view(&self) -> RacerSentView {
        match self {
            RacerSent::Out(reason) => RacerSentView::Out(reason@),
            RacerSent::ReadError => RacerSentView::ReadError,
            RacerSent::ReadBody => RacerSentView::ReadBody,
        }
    }
}

/// Whether an answer is an error that says something of the model.
pub open spec fn error_status(status: u16) -> bool {
    status != 429 && status >= 400
}

/// What is noted, and what follows, when a racing model's request was sent.
pub open spec fn racer_sent(
    racer: Racer,
    max_total_ms: u64,
    elapsed_ms: u64,
    outcome: SendOutcome,
) -> (Seq<Effect<Seq<char>>>, RacerSentView) {
    let x = racer.exchange;
    let label = option_text(racer.lease.label);
    let model = x.responding_model@;
    match outcome {
        SendOutcome::Failed(e) => (
            seq![
                Effect::ModelOutcome {
                    model,
                    key_label: label,
                    latency_ms: racer.full_ms,
                    ok: false,
                },
                turn_entry(x, label, elapsed_ms, false, 502, Some(e@)),
            ],
            RacerSentView::Out("request error: "@ + e@),
        ),
        SendOutcome::TimedOut => {
            let message = late_message(
                racer.full_ms,
                racer.send_ms,
                max_total_ms,
                "timeout after "@,
            );
            (
                seq![
                    Effect::Timeout,
                    Effect::ModelTimeout { model, key_label: label, elapsed_ms: racer.send_ms },
                    turn_entry(x, label, racer.full_ms, false, 504, Some(message)),
                ],
                RacerSentView::Out(message),
            )
        },
        SendOutcome::Answered(head) => if error_status(head.status) {
            (Seq::empty(), RacerSentView::ReadError)
        } else {
            let ok = success_status(head.status);
            let first: Seq<Effect<Seq<char>>> = seq![
                Effect::ModelOutcome { model, key_label: label, latency_ms: elapsed_ms, ok },
            ];
            (
                if head.status == 429 {
                    first.push(Effect::KeyThrottled(racer.lease.idx))
                } else if ok {
                    first.push(Effect::KeySucceeded(racer.lease.idx))
                } else {
                    first
                },
                RacerSentView::ReadBody,
            )
        },
    }
}

/// Decides what follows when a racing model's request was sent, `elapsed_ms` milliseconds ago.
pub fn racer_after_send(racer: &Racer, max_total_ms: u64, elapsed_ms: u64, outcome: &SendOutcome) -> (r:
    (Vec<Effect<String>>, RacerSent))
    ensures
        (effects_view(r.0@), r.1@) == racer_sent(*racer, max_total_ms, elapsed_ms, *outcome),
{
    let x: &Exchange = &racer.exchange;
    let mut effects: Vec<Effect<String>> = Vec::new();
    let sent: RacerSent = match outcome {
        SendOutcome::Failed(e) => {
            effects.push(
                record_model_outcome(
                    x.responding_model.as_str(),
                    &racer.lease.label,
                    racer.full_ms,
                    false,
                ),
            );
            effects.push(
                log_turn_request(x, &racer.lease.label, elapsed_ms, false, 502, Some(e.clone())),
            );
            let mut reason: String = "request error: ".to_owned();
            reason.append(e.as_str());
            RacerSent::Out(reason)
        },
        SendOutcome::TimedOut => {
            let message: String = say_late(
                racer.full_ms,
                racer.send_ms,
                max_total_ms,
                "timeout after ",
            );
            effects.push(Effect::Timeout);
            effects.push(
                record_model_timeout(
                    x.responding_model.as_str(),
                    &racer.lease.label,
                    racer.send_ms,
                ),
            );
            effects.push(
                log_turn_request(
                    x,
                    &racer.lease.label,
                    racer.full_ms,
                    false,
                    504,
                    Some(message.clone()),
                ),
            );
            RacerSent::Out(message)
        },
        SendOutcome::Answered(head) => {
            if head.status != 429 && head.status >= 400 {
                RacerSent::ReadError
            } else {
                let ok: bool = is_success(head.status);
                effects.push(
                    record_model_outcome(
                        x.responding_model.as_str(),
                        &racer.lease.label,
                        elapsed_ms,
                        ok,
                    ),
                );
                if head.status == 429 {
                    effects.push(Effect::KeyThrottled(racer.lease.idx));
                } else if ok {
                    effects.push(Effect::KeySucceeded(racer.lease.idx));
                }
                RacerSent::ReadBody
            }
        },
    };
    assert(effects_view(effects@) =~= racer_sent(*racer, max_total_ms, elapsed_ms, *outcome).0);
    (effects, sent)
}

// ---------------------------------------------------------------------------------------
// An error as the answer
// ---------------------------------------------------------------------------------------

/// An error with its origin.
pub open spec fn error_from(status: u16, model: Seq<char>, text: Seq<char>) -> Seq<char> {
    "HTTP "@ + decimal(status as nat) + " from "@ + model + ": "@ + text
}

fn say_error_from(status: u16, model_id: &str, text: &str) -> (r: String)
    ensures
        r@ == error_from(status, model_id@, text@),
{
    let mut s: String = "HTTP ".to_owned();
    s.append(decimal_string(status as u64).as_str());
    s.append(" from ");
    s.append(model_id);
    s.append(": ");
    s.append(text);
    s
}

/// What is noted first when a racing model answered with an error.
pub open spec fn error_effects(
    racer: Racer,
    latency_ms: u64,
    status: u16,
    text: Seq<char>,
) -> Seq<Effect<Seq<char>>> {
    let model = racer.exchange.responding_model@;
    let error = error_from(400, model, text);
    let first: Seq<Effect<Seq<char>>> = seq![
        Effect::ModelOutcome {
            model,
            key_label: option_text(racer.lease.label),
            latency_ms,
            ok: false,
        },
    ];
    if status == 400 && hard_model_error(error) {
        first.push(Effect::HardError { model, error })
    } else {
        first
    }
}

/// The log record of a racing model that answered with an error.
pub open spec fn error_entry(
    racer: Racer,
    latency_ms: u64,
    status: u16,
    text: Seq<char>,
) -> Effect<Seq<char>> {
    turn_entry(
        racer.exchange,
        option_text(racer.lease.label),
        latency_ms,
        false,
        status,
        Some(cut_of(text)),
    )
}

fn note_error(racer: &Racer, latency_ms: u64, status: u16, text: &str) -> (r: Vec<Effect<String>>)
    ensures
        effects_view(r@) == error_effects(*racer, latency_ms, status, text@),
{
    let model_id: &str = racer.exchange.responding_model.as_str();
    let mut effects: Vec<Effect<String>> = Vec::new();
    effects.push(record_model_outcome(model_id, &racer.lease.label, latency_ms, false));
    if status == 400 {
        let error: String = say_error_from(400, model_id, text);
        if is_hard_model_error(error.as_str()) {
            effects.push(Effect::HardError { model: model_id.to_owned(), error });
        }
    }
    assert(effects_view(effects@) =~= error_effects(*racer, latency_ms, status, text@));
    effects
}

/// Puts a racing model that answered with an error out of the race. The reason and the log
/// hold the first 400 bytes of the error's text, which have to end with a character.
pub fn racer_rejected(racer: &Racer, latency_ms: u64, status: u16, text: &str) -> (r: (
    Vec<Effect<String>>,
    String,
))
    requires
        clean_cut(text@, 400),
    ensures
        effects_view(r.0@) == error_effects(*racer, latency_ms, status, text@).push(
            error_entry(*racer, latency_ms, status, text@),
        ),
        r.1@ == error_from(status, racer.exchange.responding_model@, cut_of(text@)),
{
    let mut effects: Vec<Effect<String>> = note_error(racer, latency_ms, status, text);
    let ghost first = effects@;
    let excerpt: String = byte_excerpt(text);
    let reason: String = say_error_from(
        status,
        racer.exchange.responding_model.as_str(),
        excerpt.as_str(),
    );
    effects.push(
        log_turn_request(
            &racer.exchange,
            &racer.lease.label,
            latency_ms,
            false,
            status,
            Some(excerpt),
        ),
    );
    assert(effects_view(effects@) =~= effects_view(first).push(
        error_entry(*racer, latency_ms, status, text@),
    ));
    (effects, reason)
}

/// What is noted of a racing model that answered with an error, and the reason why it is out.
/// There is no reason, and no log record, where the first 400 bytes of the error's text end
/// within a character.
pub open spec fn racer_error(
    racer: Racer,
    latency_ms: u64,
    status: u16,
    text: Seq<char>,
) -> (Seq<Effect<Seq<char>>>, Option<Seq<char>>) {
    let first = error_effects(racer, latency_ms, status, text);
    if clean_cut(text, 400) {
        (
            first.push(error_entry(racer, latency_ms, status, text)),
            Some(error_from(status, racer.exchange.responding_model@, cut_of(text))),
        )
    } else {
        (first, None)
    }
}

/// Puts a racing model that answered with an error out of the race, by the bytes of the
/// error.
pub fn racer_after_error(racer: &Racer, latency_ms: u64, status: u16, body: &[u8]) -> (r: (
    Vec<Effect<String>>,
    Option<String>,
))
    ensures
        (effects_view(r.0@), option_text(r.1)) == racer_error(
            *racer,
            latency_ms,
            status,
            lossy_text(body@),
        ),
        valid_utf8(body@) ==> lossy_text(body@) == decode_utf8(body@),
{
    let text: String = lossy_text_of_body(body);
    if cuts_cleanly(text.as_str(), 400) {
        let (effects, reason) = racer_rejected(racer, latency_ms, status, text.as_str());
        (effects, Some(reason))
    } else {
        (note_error(racer, latency_ms, status, text.as_str()), None)
    }
}

// ---------------------------------------------------------------------------------------
// Anything else as the answer
// ---------------------------------------------------------------------------------------

/// What is noted of a racing model whose answer comes when the deadline has passed.
pub open spec fn overdue_effects(racer: Racer, max_total_ms: u64, elapsed_ms: u64) -> Seq<
    Effect<Seq<char>>,
> {
    let label = option_text(racer.lease.label);
    seq![
        Effect::Timeout,
        Effect::ModelTimeout {
            model: racer.exchange.responding_model@,
            key_label: label,
            elapsed_ms: racer.full_ms,
        },
        turn_entry(
            racer.exchange,
            label,
            elapsed_ms,
            false,
            504,
            Some(deadline_message(max_total_ms)),
        ),
    ]
}

/// Decides how long the body of a racing model's answer may take. Where the deadline has
/// passed, the model is out.
pub fn racer_body_time(
    racer: &Racer,
    deadline_ns: Option<u128>,
    now_ns: u128,
    max_total_ms: u64,
    elapsed_ms: u64,
) -> (r: Result<u64, (Vec<Effect<String>>, String)>)
    ensures
        match r {
            Ok(ms) => time_before(deadline_ns, now_ns, racer.full_ms) == Some(ms),
            Err((effects, reason)) => {
                &&& time_before(deadline_ns, now_ns, racer.full_ms) is None
                &&& reason@ == deadline_message(max_total_ms)
                &&& effects_view(effects@) == overdue_effects(*racer, max_total_ms, elapsed_ms)
            },
        },
{
    match timeout_before_deadline(deadline_ns, now_ns, racer.full_ms) {
        Some(ms) => Ok(ms),
        None => {
            let reason: String = say_after_ms("racing deadline exceeded after ", max_total_ms);
            let mut effects: Vec<Effect<String>> = Vec::new();
            effects.push(Effect::Timeout);
            effects.push(
                record_model_timeout(
                    racer.exchange.responding_model.as_str(),
                    &racer.lease.label,
                    racer.full_ms,
                ),
            );
            effects.push(
                log_turn_request(
                    &racer.exchange,
                    &racer.lease.label,
                    elapsed_ms,
                    false,
                    504,
                    Some(reason.clone()),
                ),
            );
            assert(effects_view(effects@) =~= overdue_effects(*racer, max_total_ms, elapsed_ms));
            Err((effects, reason))
        },
    }
}

/// A racing model's answer.
pub struct Finisher {
    pub model: String,
    pub reply: Reply,
    pub status: u16,
    pub key: usize,
    pub retry_after_secs: u64,
}

/// The model of `Finisher`.
pub struct FinisherView {
    pub model: Seq<char>,
    pub reply: ReplyView,
    pub status: u16,
    pub key: usize,
    pub retry_after_secs: u64,
}

impl View for Finisher {
    type V = FinisherView;

    open spec fn view(&self) -> FinisherView {
        FinisherView {
            model: self.model@,
            reply: self.reply@,
            status: self.status,
            key: self.key,
            retry_after_secs: self.retry_after_secs,
        }
    }
}

/// How a racing model came in.
pub enum Arrival {
    /// With an answer.
    Answered(Finisher),
    /// Out of the race, for this reason.
    Out(String),
    /// Its task broke off, with this message.
    Crashed(String),
}

/// The model of `Arrival`.
pub enum ArrivalView {
    Answered(FinisherView),
    Out(Seq<char>),
    Crashed(Seq<char>),
}

impl View for Arrival {
    type V = ArrivalView;

    open spec fn view(&self) -> ArrivalView {
        match self {
            Arrival::Answered(f) => ArrivalView::Answered(f@),
            Arrival::Out(reason) => ArrivalView::Out(reason@),
            Arrival::Crashed(message) => ArrivalView::Crashed(message@),
        }
    }
}

/// A racing model's answer, with its head and body.
pub open spec fn finisher_for(racer: Racer, head: ResponseHead, body: Seq<u8>) -> FinisherView {
    FinisherView {
        model: racer.exchange.responding_model@,
        reply: forwarded(
            head.status,
            media_type(head.content_type),
            racer.lease.label,
            false,
            body,
        ),
        status: head.status,
        key: racer.lease.idx,
        retry_after_secs: pause_asked(head.retry_after),
    }
}

/// What is noted of a racing model's answer.
pub open spec fn finish_entry(racer: Racer, latency_ms: u64, status: u16) -> Effect<Seq<char>> {
    turn_entry(
        racer.exchange,
        option_text(racer.lease.label),
        latency_ms,
        success_status(status),
        status,
        if success_status(status) {
            None
        } else {
            Some("HTTP "@ + decimal(status as nat))
        },
    )
}

/// What is noted, and how a racing model comes in, when the body of its answer was to be read.
/// `latency_ms` is the time to the head of the answer, `elapsed_ms` the time until now.
pub open spec fn racer_read(
    racer: Racer,
    body_ms: u64,
    max_total_ms: u64,
    elapsed_ms: u64,
    latency_ms: u64,
    head: ResponseHead,
    outcome: BodyOutcome,
) -> (Seq<Effect<Seq<char>>>, ArrivalView) {
    let x = racer.exchange;
    let label = option_text(racer.lease.label);
    match outcome {
        BodyOutcome::Failed(e) => (
            seq![turn_entry(x, label, elapsed_ms, false, 502, Some(e@))],
            ArrivalView::Out("body error: "@ + e@),
        ),
        BodyOutcome::TimedOut => {
            let message = late_message(
                racer.full_ms,
                body_ms,
                max_total_ms,
                "body timeout after "@,
            );
            (late_effects(x, label, body_ms, message), ArrivalView::Out(message))
        },
        BodyOutcome::Read(bytes) => (
            seq![finish_entry(racer, latency_ms, head.status)],
            ArrivalView::Answered(finisher_for(racer, head, bytes@)),
        ),
    }
}

/// Decides how a racing model comes in when the body of its answer was to be read.
pub fn racer_after_body(
    racer: &Racer,
    body_ms: u64,
    max_total_ms: u64,
    elapsed_ms: u64,
    latency_ms: u64,
    head: &ResponseHead,
    outcome: &BodyOutcome,
) -> (r: (Vec<Effect<String>>, Arrival))
    ensures
        (effects_view(r.0@), r.1@) == racer_read(
            *racer,
            body_ms,
            max_total_ms,
            elapsed_ms,
            latency_ms,
            *head,
            *outcome,
        ),
{
    let x: &Exchange = &racer.exchange;
    match outcome {
        BodyOutcome::Failed(e) => {
            let mut effects: Vec<Effect<String>> = Vec::new();
            effects.push(
                log_turn_request(x, &racer.lease.label, elapsed_ms, false, 502, Some(e.clone())),
            );
            assert(effects_view(effects@) =~= seq![
                turn_entry(
                    *x,
                    option_text(racer.lease.label),
                    elapsed_ms,
                    false,
                    502,
                    Some(e@),
                ),
            ]);
            let mut reason: String = "body error: ".to_owned();
            reason.append(e.as_str());
            (effects, Arrival::Out(reason))
        },
        BodyOutcome::TimedOut => {
            let message: String = say_late(
                racer.full_ms,
                body_ms,
                max_total_ms,
                "body timeout after ",
            );
            let effects: Vec<Effect<String>> = note_late(x, &racer.lease.label, body_ms, &message);
            (effects, Arrival::Out(message))
        },
        BodyOutcome::Read(bytes) => {
            let ok: bool = is_success(head.status);
            let error: Option<String> = if ok {
                None
            } else {
                let mut s: String = "HTTP ".to_owned();
                s.append(decimal_string(head.status as u64).as_str());
                Some(s)
            };
            let mut effects: Vec<Effect<String>> = Vec::new();
            effects.push(
                log_turn_request(x, &racer.lease.label, latency_ms, ok, head.status, error),
            );
            assert(effects_view(effects@) =~= seq![
                finish_entry(*racer, latency_ms, head.status),
            ]);
            let finisher: Finisher = Finisher {
                model: x.responding_model.clone(),
                reply: forward_reply(
                    head.status,
                    content_type_or_json(&head.content_type),
                    &racer.lease.label,
                    false,
                    bytes.as_slice(),
                ),
                status: head.status,
                key: racer.lease.idx,
                retry_after_secs: retry_after_secs(&head.retry_after),
            };
            (effects, Arrival::Answered(finisher))
        },
    }
}

// ---------------------------------------------------------------------------------------
// The course of a racing model
// ---------------------------------------------------------------------------------------

/// What a racing model waits for.
pub enum RacerPhase {
    /// The head of its answer.
    Answer,
    /// The text of the error that it answered with.
    Error { latency_ms: u64, status: u16 },
    /// The body of its answer.
    Body { latency_ms: u64, limit_ms: u64, head: ResponseHead },
    /// Nothing.
    Over,
}

/// A racing model on its way.
pub struct RacerFlow {
    pub racer: Racer,
    pub deadline_ns: Option<u128>,
    pub phase: RacerPhase,
}

impl RacerFlow {
    /// A racing model whose request is being sent.
    pub fn new(racer: Racer, deadline_ns: Option<u128>) -> (r: RacerFlow)
        ensures
            r == (RacerFlow { racer, deadline_ns, phase: RacerPhase::Answer }),
    {
        RacerFlow { racer, deadline_ns, phase: RacerPhase::Answer }
    }
}

/// What happened to a racing model.
#[allow(inconsistent_fields)]
pub enum RacerEvent {
    /// Its request was sent, and this came of it after so many milliseconds.
    Sent { elapsed_ms: u64, outcome: SendOutcome },
    /// The bytes of the error that it answered with were read.
    ErrorRead(Vec<u8>),
    /// The body of its answer was read, or not, so many milliseconds after its request was
    /// sent.
    Read { elapsed_ms: u64, outcome: BodyOutcome },
}

/// What to do for a racing model.
pub enum RacerAction {
    /// Read the error that it answered with.
    ReadError,
    /// Read the body of its answer, within a time limit.
    Read { limit_ms: u64 },
    /// Let it come in.
    Done(Arrival),
    /// Break its task off: the text of its error cannot be cut.
    Break,
}

/// The model of `RacerAction`.
pub enum RacerActionView {
    ReadError,
    Read { limit_ms: u64 },
    Done(ArrivalView),
    Break,
}

impl View for RacerAction {
    type V = RacerActionView;

    open spec fn view(&self) -> RacerActionView {
        match self {
            RacerAction::ReadError => RacerActionView::ReadError,
            RacerAction::Read { limit_ms } => RacerActionView::Read { limit_ms: *limit_ms },
            RacerAction::Done(arrival) => RacerActionView::Done(arrival@),
            RacerAction::Break => RacerActionView::Break,
        }
    }
}

/// Whether an event is what a phase waits for.
pub open spec fn racer_awaits(phase: RacerPhase, event: RacerEvent) -> bool {
    match (phase, event) {
        (RacerPhase::Answer, RacerEvent::Sent { .. }) => true,
        (RacerPhase::Error { .. }, RacerEvent::ErrorRead(_)) => true,
        (RacerPhase::Body { .. }, RacerEvent::Read { .. }) => true,
        _ => false,
    }
}

/// Whether a racing model follows another by an event, with what is noted and what is to be
/// done. `max_total_ms` is the time that a request may take in all.
pub open spec fn racer_step(
    before: RacerFlow,
    event: RacerEvent,
    max_total_ms: u64,
    now_ns: u128,
    after: RacerFlow,
    effects: Seq<Effect<Seq<char>>>,
    action: RacerActionView,
) -> bool {
    let racer = before.racer;
    let over = RacerFlow { phase: RacerPhase::Over, ..before };
    match (before.phase, event) {
        (RacerPhase::Answer, RacerEvent::Sent { elapsed_ms, outcome }) => {
            let (noted, sent) = racer_sent(racer, max_total_ms, elapsed_ms, outcome);
            match sent {
                RacerSentView::Out(reason) => {
                    &&& effects == noted
                    &&& action == RacerActionView::Done(ArrivalView::Out(reason))
                    &&& after == over
                },
                RacerSentView::ReadError => {
                    &&& effects == noted
                    &&& action == RacerActionView::ReadError
                    &&& outcome matches SendOutcome::Answered(head) && after == (RacerFlow {
                        phase: RacerPhase::Error { latency_ms: elapsed_ms, status: head.status },
                        ..before
                    })
                },
                RacerSentView::ReadBody => match time_before(
                    before.deadline_ns,
                    now_ns,
                    racer.full_ms,
                ) {
                    Some(limit_ms) => {
                        &&& effects == noted
                        &&& action == (RacerActionView::Read { limit_ms })
                        &&& outcome matches SendOutcome::Answered(head) && after == (RacerFlow {
                            phase: RacerPhase::Body { latency_ms: elapsed_ms, limit_ms, head },
                            ..before
                        })
                    },
                    None => {
                        &&& effects == noted + overdue_effects(racer, max_total_ms, elapsed_ms)
                        &&& action == RacerActionView::Done(
                            ArrivalView::Out(deadline_message(max_total_ms)),
                        )
                        &&& after == over
                    },
                },
            }
        },
        (RacerPhase::Error { latency_ms, status }, RacerEvent::ErrorRead(body)) => {
            let (noted, reason) = racer_error(racer, latency_ms, status, lossy_text(body@));
            &&& effects == noted
            &&& action == match reason {
                Some(text) => RacerActionView::Done(ArrivalView::Out(text)),
                None => RacerActionView::Break,
            }
            &&& after == over
        },
        (
            RacerPhase::Body { latency_ms, limit_ms, head },
            RacerEvent::Read { elapsed_ms, outcome },
        ) => {
            let (noted, arrival) = racer_read(
                racer,
                limit_ms,
                max_total_ms,
                elapsed_ms,
                latency_ms,
                head,
                outcome,
            );
            &&& effects == noted
            &&& action == RacerActionView::Done(arrival)
            &&& after == over
        },
        _ => false,
    }
}

/// Takes a racing model one step further, from its request to its answer or out of the race.
pub fn racer_next(flow: &mut RacerFlow, event: RacerEvent, max_total_ms: u64, now_ns: u128) -> (r: (
    Vec<Effect<String>>,
    RacerAction,
))
    requires
        racer_awaits(old(flow).phase, event),
    ensures
        racer_step(
            *old(flow),
            event,
            max_total_ms,
            now_ns,
            *final(flow),
            effects_view(r.0@),
            r.1@,
        ),
{
    let mut phase: RacerPhase = RacerPhase::Over;
    std::mem::swap(&mut phase, &mut flow.phase);
    match (phase, event) {
        (RacerPhase::Answer, RacerEvent::Sent { elapsed_ms, outcome }) => {
            let (mut effects, sent) = racer_after_send(
                &flow.racer,
                max_total_ms,
                elapsed_ms,
                &outcome,
            );
            match (sent, outcome) {
                (RacerSent::Out(reason), _) => (effects, RacerAction::Done(Arrival::Out(reason))),
                (RacerSent::ReadError, SendOutcome::Answered(head)) => {
                    flow.phase = RacerPhase::Error { latency_ms: elapsed_ms, status: head.status };
                    (effects, RacerAction::ReadError)
                },
                (RacerSent::ReadBody, SendOutcome::Answered(head)) => match racer_body_time(
                    &flow.racer,
                    flow.deadline_ns,
                    now_ns,
                    max_total_ms,
                    elapsed_ms,
                ) {
                    Ok(limit_ms) => {
                        flow.phase = RacerPhase::Body { latency_ms: elapsed_ms, limit_ms, head };
                        (effects, RacerAction::Read { limit_ms })
                    },
                    Err((mut more, reason)) => {
                        let ghost first = effects_view(effects@);
                        let ghost later = effects_view(more@);
                        effects.append(&mut more);
                        assert(effects_view(effects@) =~= first + later);
                        (effects, RacerAction::Done(Arrival::Out(reason)))
                    },
                },
                // Only an answer is read.
                _ => (effects, RacerAction::Break),
            }
        },
        (RacerPhase::Error { latency_ms, status }, RacerEvent::ErrorRead(body)) => {
            let (effects, reason) = racer_after_error(
                &flow.racer,
                latency_ms,
                status,
                body.as_slice(),
            );
            let action: RacerAction = match reason {
                Some(text) => RacerAction::Done(Arrival::Out(text)),
                None => RacerAction::Break,
            };
            (effects, action)
        },
        (
            RacerPhase::Body { latency_ms, limit_ms, head },
            RacerEvent::Read { elapsed_ms, outcome },
        ) => {
            let (effects, arrival) = racer_after_body(
                &flow.racer,
                limit_ms,
                max_total_ms,
                elapsed_ms,
                latency_ms,
                &head,
                &outcome,
            );
            (effects, RacerAction::Done(arrival))
        },
        // Nothing else is waited for.
        _ => (Vec::new(), RacerAction::Break),
    }
}

/// A racing model comes in, or its task breaks off, after its answer was read at the latest;
/// until then there is something to be read.
pub proof fn law_racer_comes_in(
    before: RacerFlow,
    event: RacerEvent,
    max_total_ms: u64,
    now_ns: u128,
    after: RacerFlow,
    effects: Seq<Effect<Seq<char>>>,
    action: RacerActionView,
)
    requires
        racer_step(before, event, max_total_ms, now_ns, after, effects, action),
    ensures
        !(before.phase is Answer) ==> after.phase is Over,
        !(after.phase is Answer),
        after.phase is Over <==> action is Done || action is Break,
{
}

} // verus!
