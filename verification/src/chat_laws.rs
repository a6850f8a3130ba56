//! What holds of every chat request that goes to one model at a time.

use vstd::prelude::*;
use vstd::utf8::{decode_utf8, encode_utf8, is_char_boundary, valid_utf8};

use crate::chat::{
    chat_awaits, chat_settled, chat_step, direct_turn, races, BodyStepView, ChatActionView,
    ChatEvent, ChatFlow, ChatPhase, ChatTurn,
};
use crate::effect::{Effect, Exchange, ReplyView};
use crate::number::decimal;
use crate::pool::KeyLease;
use crate::prepare::body_resolution;
use crate::state::{model_admitted, unknown_model_message, AppState};
use crate::stats::{model_timeout, record_of};
use crate::text::has_text;
use crate::turn::turn_summary;
use crate::upstream::{pause_asked, BodyOutcome, KeyUse, ResponseHead, SendOutcome};
use crate::wire::json_parse;

verus! {

/// The text in the bytes of an answer; none where they are not UTF-8.
pub open spec fn text_in(bytes: Seq<u8>) -> Seq<char> {
    if valid_utf8(bytes) {
        decode_utf8(bytes)
    } else {
        Seq::empty()
    }
}

/// A string that may be missing, as characters.
pub open spec fn chars_in(s: Option<String>) -> Option<Seq<char>> {
    match s {
        Some(x) => Some(x@),
        None => None,
    }
}

/// Whether an answer reaches the client as it came: with the status and the media type of its
/// head, the label of the key and every byte of its body.
pub open spec fn passed_as_it_came(
    reply: ReplyView,
    head: ResponseHead,
    key_label: Option<String>,
    body: Seq<u8>,
) -> bool {
    match reply {
        ReplyView::Forward { status, content_type, key_label: label, unbuffered, body: sent } => {
            &&& status == head.status
            &&& content_type == match head.content_type {
                Some(t) => t@,
                None => "application/json"@,
            }
            &&& label == chars_in(key_label)
            &&& sent == body
        },
        ReplyView::Text { .. } => false,
    }
}

/// Whether an effect tells that a model answered, after so many milliseconds, and how.
pub open spec fn tells_of_answer(
    e: Effect<Seq<char>>,
    m: Seq<char>,
    ms: u64,
    success: bool,
) -> bool {
    match e {
        Effect::ModelOutcome { model, latency_ms, ok, .. } => model == m && latency_ms == ms && ok
            == success,
        Effect::ModelQuality { model, latency_ms, ok, .. } => model == m && latency_ms == ms && ok
            == success,
        _ => false,
    }
}

/// Whether an effect is the log record of an exchange with this outcome.
pub open spec fn logs_turn(
    e: Effect<Seq<char>>,
    x: Exchange,
    label: Option<String>,
    ms: u64,
    success: bool,
    status: u16,
    error: Option<Seq<char>>,
) -> bool {
    match e {
        Effect::Turn(t) => {
            &&& t.requested_model == x.requested_model@
            &&& t.responding_model == x.responding_model@
            &&& t.latency_ms == ms
            &&& t.success == success
            &&& t.status_code == status
            &&& t.message_count == x.message_count
            &&& t.response_message_count == 1
            &&& t.has_tool_calls == x.has_tool_calls
            &&& t.tool_call_count == x.tool_call_count
            &&& t.key_label == chars_in(label)
            &&& t.is_racing == x.is_racing
            &&& t.error == error
        },
        _ => false,
    }
}

/// Whether a text begins with as much of another as 400 characters hold, and ends there.
pub open spec fn first_400(part: Seq<char>, whole: Seq<char>) -> bool {
    &&& part.len() == (if whole.len() < 400 {
        whole.len()
    } else {
        400
    })
    &&& part == whole.take(part.len() as int)
}

/// Whether a request goes out once more, unchanged, or is answered that no attempt is left.
pub open spec fn sent_again(before: ChatFlow, after: ChatFlow, action: ChatActionView) -> bool {
    &&& after.turn.body == before.turn.body
    &&& after.turn.exchange == before.turn.exchange
    &&& after.turn.automatic == before.turn.automatic
    &&& after.original == before.original
    &&& if before.turn.attempts_left == 0 {
        &&& after.phase is Over
        &&& action == ChatActionView::Finish(
            ReplyView::Text { status: 429, message: "all keys exhausted after retries"@ },
        )
    } else {
        &&& after.phase is Admission
        &&& action == ChatActionView::Admit
        &&& after.turn.attempts_left + 1 == before.turn.attempts_left
    }
}

/// An answer passes whatever its status, unless it is a 400 that speaks of a degraded model or
/// of an invalid assistant message. One outcome of the model is noted and one record is logged,
/// as a success exactly where the status is one.
pub proof fn law_other_answers_pass(
    before: ChatFlow,
    key: KeyUse,
    limit_ms: u64,
    ttfc_ms: u64,
    head: ResponseHead,
    bytes: Vec<u8>,
    state: AppState,
    after: ChatFlow,
    effects: Seq<Effect<Seq<char>>>,
    action: ChatActionView,
)
    requires
        before.phase == (ChatPhase::Body { key, limit_ms, ttfc_ms, head }),
        chat_step(
            before,
            ChatEvent::Read(BodyOutcome::Read(bytes)),
            state,
            after,
            effects,
            action,
        ),
        head.status != 400 || {
            &&& !has_text(text_in(bytes@), "DEGRADED"@)
            &&& !has_text(text_in(bytes@), "degraded"@)
            &&& !has_text(text_in(bytes@), "Invalid assistant message"@)
            &&& !has_text(text_in(bytes@), "invalid assistant"@)
        },
    ensures
        action matches ChatActionView::Finish(reply) && passed_as_it_came(
            reply,
            head,
            key.label,
            bytes@,
        ) && (reply->unbuffered <==> has_text(reply->content_type, "event-stream"@)),
        after.phase is Over,
        effects.len() == 2,
        tells_of_answer(
            effects[0],
            before.turn.exchange.responding_model@,
            ttfc_ms,
            200 <= head.status <= 299,
        ),
        200 <= head.status <= 299 ==> logs_turn(
            effects[1],
            before.turn.exchange,
            key.label,
            ttfc_ms,
            true,
            head.status,
            None,
        ),
        !(200 <= head.status <= 299) ==> exists|part: Seq<char>| #[trigger]
            first_400(part, text_in(bytes@)) && logs_turn(
                effects[1],
                before.turn.exchange,
                key.label,
                ttfc_ms,
                false,
                head.status,
                Some(part),
            ),
{
    let text = text_in(bytes@);
    let part = if text.len() <= 400 {
        text
    } else {
        text.take(400)
    };
    assert(text.take(text.len() as int) =~= text);
    assert(first_400(part, text));
}

/// A 400 that speaks of a degraded model blocks the model. The choice of the model is made
/// again where the client left it open; else the request goes out once more.
pub proof fn law_degraded_model_is_left(
    before: ChatFlow,
    key: KeyUse,
    limit_ms: u64,
    ttfc_ms: u64,
    head: ResponseHead,
    bytes: Vec<u8>,
    state: AppState,
    after: ChatFlow,
    effects: Seq<Effect<Seq<char>>>,
    action: ChatActionView,
)
    requires
        before.phase == (ChatPhase::Body { key, limit_ms, ttfc_ms, head }),
        chat_step(
            before,
            ChatEvent::Read(BodyOutcome::Read(bytes)),
            state,
            after,
            effects,
            action,
        ),
        head.status == 400,
        has_text(text_in(bytes@), "DEGRADED"@) || has_text(text_in(bytes@), "degraded"@),
    ensures
        effects.len() == 1,
        effects[0] == Effect::ServerDegraded(before.turn.exchange.responding_model@),
        before.turn.automatic ==> action == ChatActionView::Reroute && after == (ChatFlow {
            phase: ChatPhase::Reroute,
            ..before
        }),
        !before.turn.automatic ==> sent_again(before, after, action),
{
}

/// A 400 that speaks of an invalid assistant message is noted against the model, and the
/// request goes out once more. Where the first 200 bytes of the text end within a character it
/// is broken off, with nothing noted.
pub proof fn law_invalid_message_is_tried_again(
    before: ChatFlow,
    key: KeyUse,
    limit_ms: u64,
    ttfc_ms: u64,
    head: ResponseHead,
    bytes: Vec<u8>,
    state: AppState,
    after: ChatFlow,
    effects: Seq<Effect<Seq<char>>>,
    action: ChatActionView,
)
    requires
        before.phase == (ChatPhase::Body { key, limit_ms, ttfc_ms, head }),
        chat_step(
            before,
            ChatEvent::Read(BodyOutcome::Read(bytes)),
            state,
            after,
            effects,
            action,
        ),
        head.status == 400,
        !has_text(text_in(bytes@), "DEGRADED"@) && !has_text(text_in(bytes@), "degraded"@),
        has_text(text_in(bytes@), "Invalid assistant message"@) || has_text(
            text_in(bytes@),
            "invalid assistant"@,
        ),
    ensures
        encode_utf8(text_in(bytes@)).len() <= 200 || is_char_boundary(
            encode_utf8(text_in(bytes@)),
            200,
        ) ==> {
            &&& effects.len() == 2
            &&& effects[0] == (Effect::HardError {
                model: before.turn.exchange.responding_model@,
                error: text_in(bytes@),
            })
            &&& exists|part: Seq<char>| #[trigger]
                first_400(part, text_in(bytes@)) && logs_turn(
                    effects[1],
                    before.turn.exchange,
                    key.label,
                    ttfc_ms,
                    false,
                    400,
                    Some(part),
                )
            &&& sent_again(before, after, action)
        },
        encode_utf8(text_in(bytes@)).len() > 200 && !is_char_boundary(
            encode_utf8(text_in(bytes@)),
            200,
        ) ==> effects.len() == 0 && action == ChatActionView::Break && after.phase is Over,
{
    let text = text_in(bytes@);
    let part = if text.len() <= 400 {
        text
    } else {
        text.take(400)
    };
    assert(text.take(text.len() as int) =~= text);
    assert(first_400(part, text));
}

/// A body that does not come is answered: 502 with the failure, or 504 with the time that it
/// had, which is then also noted against the model.
pub proof fn law_missing_body_is_told(
    before: ChatFlow,
    key: KeyUse,
    limit_ms: u64,
    ttfc_ms: u64,
    head: ResponseHead,
    outcome: BodyOutcome,
    state: AppState,
    after: ChatFlow,
    effects: Seq<Effect<Seq<char>>>,
    action: ChatActionView,
)
    requires
        before.phase == (ChatPhase::Body { key, limit_ms, ttfc_ms, head }),
        chat_step(before, ChatEvent::Read(outcome), state, after, effects, action),
    ensures
        after.phase is Over || outcome is Read,
        outcome matches BodyOutcome::Failed(e) ==> effects.len() == 0 && action
            == ChatActionView::Finish(ReplyView::Text { status: 502, message: e@ }),
        outcome is TimedOut ==> {
            let message = "upstream body timeout after "@ + decimal(limit_ms as nat) + "ms"@;
            &&& action == ChatActionView::Finish(ReplyView::Text { status: 504, message })
            &&& told_late(effects, before.turn.exchange, key.label, limit_ms, message)
        },
{
}

/// Whether a timeout is noted: in the counters, against the model, and in the log.
pub open spec fn told_late(
    effects: Seq<Effect<Seq<char>>>,
    x: Exchange,
    label: Option<String>,
    ms: u64,
    message: Seq<char>,
) -> bool {
    &&& effects.len() == 3
    &&& effects[0] is Timeout
    &&& effects[1] == (Effect::ModelTimeout {
        model: x.responding_model@,
        key_label: chars_in(label),
        elapsed_ms: ms,
    })
    &&& logs_turn(effects[2], x, label, ms, false, 504, Some(message))
}

/// A request with a key is sent. A request that fails or is not answered in time ends there:
/// the client gets 502 with the failure, or 504 with the time that the answer had.
pub proof fn law_silence_is_told(
    before: ChatFlow,
    key: KeyUse,
    limit_ms: u64,
    elapsed_ms: u64,
    outcome: SendOutcome,
    state: AppState,
    after: ChatFlow,
    effects: Seq<Effect<Seq<char>>>,
    action: ChatActionView,
)
    requires
        before.phase == (ChatPhase::Answer { key, limit_ms }),
        chat_step(
            before,
            ChatEvent::Sent { elapsed_ms, outcome },
            state,
            after,
            effects,
            action,
        ),
        !(outcome is Answered),
    ensures
        after.phase is Over,
        outcome matches SendOutcome::Failed(e) ==> {
            &&& action == ChatActionView::Finish(ReplyView::Text { status: 502, message: e@ })
            &&& effects.len() == 2
            &&& effects[0] == (Effect::ModelOutcome {
                model: before.turn.exchange.responding_model@,
                key_label: chars_in(key.label),
                latency_ms: elapsed_ms,
                ok: false,
            })
            &&& logs_turn(
                effects[1],
                before.turn.exchange,
                key.label,
                elapsed_ms,
                false,
                502,
                Some(e@),
            )
        },
        outcome is TimedOut ==> {
            let message = "upstream timeout after "@ + decimal(limit_ms as nat) + "ms"@;
            &&& action == ChatActionView::Finish(ReplyView::Text { status: 504, message })
            &&& told_late(effects, before.turn.exchange, key.label, limit_ms, message)
        },
{
}

/// An answer other than 429 is read, with the time limit of the request, and the key is
/// credited exactly where the status is a success. A 429 pauses the key, for as long as
/// upstream asks or a minute, and the request goes out once more.
pub proof fn law_answer_is_read_or_key_pauses(
    before: ChatFlow,
    key: KeyUse,
    limit_ms: u64,
    elapsed_ms: u64,
    head: ResponseHead,
    state: AppState,
    after: ChatFlow,
    effects: Seq<Effect<Seq<char>>>,
    action: ChatActionView,
)
    requires
        before.phase == (ChatPhase::Answer { key, limit_ms }),
        chat_step(
            before,
            ChatEvent::Sent { elapsed_ms, outcome: SendOutcome::Answered(head) },
            state,
            after,
            effects,
            action,
        ),
    ensures
        head.status != 429 ==> {
            &&& action == (ChatActionView::Read { limit_ms })
            &&& after == (ChatFlow {
                phase: ChatPhase::Body { key, limit_ms, ttfc_ms: elapsed_ms, head },
                ..before
            })
            &&& effects.len() == (if 200 <= head.status <= 299 {
                1nat
            } else {
                0
            })
            &&& 200 <= head.status <= 299 ==> effects[0] == Effect::<Seq<char>>::KeySucceeded(
                key.idx,
            )
        },
        head.status == 429 ==> {
            &&& effects.len() == 2
            &&& effects[0] is RateLimit
            &&& effects[1] matches Effect::KeyRateLimited { key: k, secs } && k == key.idx && secs
                == pause_asked(head.retry_after)
            &&& sent_again(before, after, action)
        },
{
}

/// A request that got a key is sent with it, as it is, within the time that its model gets.
pub proof fn law_key_is_used(
    before: ChatFlow,
    lease: KeyLease,
    state: AppState,
    after: ChatFlow,
    effects: Seq<Effect<Seq<char>>>,
    action: ChatActionView,
)
    requires
        before.phase is Admission,
        chat_step(before, ChatEvent::Admitted(lease), state, after, effects, action),
    ensures
        effects.len() == 0,
        after.turn == before.turn,
        after.original == before.original,
        action matches ChatActionView::Send { limit_ms } && after.phase == (ChatPhase::Answer {
            key: KeyUse { idx: lease.idx, label: lease.label },
            limit_ms,
        }) && limit_ms <= state.racing_timeout_ms && limit_ms == model_timeout(
            record_of(state.model_stats.records(), before.turn.exchange.responding_model@),
            state.racing_timeout_ms,
            state.controls.min_dynamic_timeout_ms,
            state.controls.dynamic_sample_floor,
        ),
{
}

/// A model that the client names is rejected exactly where models are configured and it is
/// none of them. A choice that is left open is never rejected, and races where two models can.
pub proof fn law_requests_start_right(
    asked: Seq<char>,
    configured: Seq<Seq<char>>,
    state: AppState,
)
    ensures
        model_admitted(asked, configured) <==> {
            ||| asked.len() == 0
            ||| asked == "auto"@
            ||| asked == "nimaproxy/auto"@
            ||| configured.len() == 0
            ||| configured.contains(asked)
        },
        races(asked, state) <==> (asked == "auto"@ || asked == "nimaproxy/auto"@)
            && state.racing_models@.len() >= 2,
        !model_admitted(asked, configured) ==> unknown_model_message(asked) == "model '"@ + asked
            + "' not found in configured models"@,
{
    reveal_strlit("auto");
    reveal_strlit("nimaproxy/auto");
    assert("auto"@.len() == 4);
    assert("nimaproxy/auto"@.len() == 14);
}

/// A request goes to the model that it was resolved to, with the text for it and a summary of
/// that text. It gets as many attempts as there are keys, at least one and at most eight, and its
/// model is chosen again after a block exactly where the client left the choice open.
pub proof fn law_direct_requests_get_their_attempts(
    turn: ChatTurn,
    asked: Seq<char>,
    body: Seq<u8>,
    state: AppState,
)
    requires
        direct_turn(turn, asked, body, state),
        state.pool.slots@.len() <= usize::MAX,
    ensures
        state.pool.slots@.len() == 0 ==> turn.attempts_left == 0,
        1 <= state.pool.slots@.len() <= 8 ==> turn.attempts_left + 1 == state.pool.slots@.len(),
        state.pool.slots@.len() > 8 ==> turn.attempts_left == 7,
        turn.automatic <==> asked == "auto"@ || asked == "nimaproxy/auto"@,
        turn.exchange.requested_model@ == asked,
        !turn.exchange.is_racing,
        (turn.exchange.responding_model@, turn.body@) == body_resolution(body, state),
        (
            turn.exchange.message_count,
            turn.exchange.has_tool_calls,
            turn.exchange.tool_call_count,
        ) == turn_summary(json_parse(turn.body@)),
{
    reveal_strlit("auto");
    reveal_strlit("nimaproxy/auto");
    assert("auto"@.len() == 4);
    assert("nimaproxy/auto"@.len() == 14);
}

/// Each phase of a chat request waits for one kind of event: for a key, for what came of sending
/// it, or for the body of its answer.
pub proof fn law_chat_waits_for_what_comes(
    phase: ChatPhase,
    lease: KeyLease,
    elapsed_ms: u64,
    outcome: SendOutcome,
    body: BodyOutcome,
)
    ensures
        chat_awaits(phase, ChatEvent::Admitted(lease)) <==> phase is Admission,
        chat_awaits(phase, ChatEvent::Sent { elapsed_ms, outcome }) <==> phase is Answer,
        chat_awaits(phase, ChatEvent::Read(body)) <==> phase is Body,
{
}

/// The same of an answer that was read and looked at, whatever was seen in it: where its text
/// holds none of the words that speak of a degraded model or an invalid message, it is what the
/// client gets.
pub proof fn law_settled_answers_pass(
    turn: ChatTurn,
    key: KeyUse,
    ttfc_ms: u64,
    head: ResponseHead,
    body: Seq<u8>,
    metrics: (u32, u32, bool),
)
    requires
        !has_text(text_in(body), "DEGRADED"@),
        !has_text(text_in(body), "degraded"@),
        !has_text(text_in(body), "Invalid assistant message"@),
        !has_text(text_in(body), "invalid assistant"@),
    ensures
        chat_settled(turn, key, ttfc_ms, head, body, metrics).1 matches BodyStepView::Finish(reply)
            && passed_as_it_came(reply, head, key.label, body) && (reply->unbuffered <==> has_text(
            reply->content_type,
            "event-stream"@,
        )),
        ({
            let noted = chat_settled(turn, key, ttfc_ms, head, body, metrics).0;
            &&& noted.len() == 2
            &&& tells_of_answer(
                noted[0],
                turn.exchange.responding_model@,
                ttfc_ms,
                200 <= head.status <= 299,
            )
            &&& noted[0] matches Effect::ModelQuality { output_tokens, repetitions, tool_call, .. }
                ==> (output_tokens, repetitions, tool_call) == metrics
            &&& metrics.0 > 0 || metrics.1 > 0 ==> noted[0] is ModelQuality
        }),
{
}

} // verus!
