//! What holds of every chat request that is tried on models one after the other.

use vstd::prelude::*;

use crate::chat_laws::{chars_in, first_400, logs_turn, passed_as_it_came, text_in, told_late};
use crate::deadline::time_before;
use crate::effect::{Effect, Exchange, ReplyView};
use crate::mistral::body_remarks;
use crate::number::decimal;
use crate::pool::KeyLease;
use crate::prepare::{body_for, carries_request};
use crate::solo::{
    at_rest, rejects_shape, solo_awaits, solo_goes_on, solo_read, solo_sent, solo_step,
    SoloActionView, SoloEvent, SoloFlow, SoloPhase, SoloReadView, SoloSent,
};
use crate::state::AppState;
use crate::stats::{model_timeout, record_of};
use crate::text::{has_text, lemma_prefix_adds_nothing, occurs_at};
use crate::turn::turn_summary;
use crate::upstream::{pause_asked, BodyOutcome, KeyUse, ResponseHead, SendOutcome};
use crate::wire::json_parse;

verus! {

/// Whether a text speaks of a request whose shape a model does not take.
pub open spec fn speaks_of_shape(text: Seq<char>) -> bool {
    ||| has_text(text, "Invalid assistant message"@)
    ||| has_text(text, "invalid assistant"@)
    ||| has_text(text, "tool_calls=None"@)
    ||| has_text(text, "BadRequestError"@)
}

proof fn lemma_shape_words(text: Seq<char>)
    ensures
        rejects_shape(400, text) == speaks_of_shape(text),
        forall|status: u16| status != 400 ==> !rejects_shape(status, text),
{
    let prefix = "HTTP 400 "@;
    reveal_strlit("HTTP 400 ");
    reveal_strlit("HTTP 400");
    reveal_strlit("Invalid assistant message");
    reveal_strlit("invalid assistant");
    reveal_strlit("tool_calls=None");
    reveal_strlit("BadRequestError");
    assert(prefix.len() == 9);
    assert forall|c: char| prefix.contains(c) implies c != 'I' && c != 'i' && c != 't' && c != 'B' by {
        let k = choose|k: int| 0 <= k < 9 && prefix[k] == c;
        assert(prefix[0] == 'H' && prefix[1] == 'T' && prefix[2] == 'T' && prefix[3] == 'P');
        assert(prefix[4] == ' ' && prefix[5] == '4' && prefix[6] == '0' && prefix[7] == '0');
        assert(prefix[8] == ' ');
    }
    lemma_prefix_adds_nothing(prefix, text, "Invalid assistant message"@);
    lemma_prefix_adds_nothing(prefix, text, "invalid assistant"@);
    lemma_prefix_adds_nothing(prefix, text, "tool_calls=None"@);
    lemma_prefix_adds_nothing(prefix, text, "BadRequestError"@);
    assert((prefix + text).subrange(0, 8) =~= "HTTP 400"@);
    assert(occurs_at(prefix + text, "HTTP 400"@, 0));
}

proof fn lemma_excerpt(text: Seq<char>)
    ensures
        first_400(crate::upstream::excerpt_of(text), text),
{
    assert(text.take(text.len() as int) =~= text);
}

/// Whether a flow is another with an outcome to tell of, and no attempt left for the model
/// whose turn it was.
pub open spec fn model_given_up(
    before: SoloFlow,
    after: SoloFlow,
    status: u16,
    message: Seq<char>,
) -> bool {
    &&& after.body == before.body
    &&& after.models == before.models
    &&& after.tried == before.tried
    &&& after.deadline_ns == before.deadline_ns
    &&& after.text == before.text
    &&& after.exchange == before.exchange
    &&& after.phase == before.phase
    &&& after.attempts_left == 0
    &&& after.last_error matches Some(e) && e.0 == status && e.1@ == message
}

/// What is noted of an answer that the client gets: the model's outcome and one record, as a
/// success exactly where the status is one; a success is credited to the key and to the model.
pub open spec fn solo_answer_noted(
    effects: Seq<Effect<Seq<char>>>,
    x: Exchange,
    key: KeyUse,
    ttfc_ms: u64,
    status: u16,
    text: Seq<char>,
) -> bool {
    let outcome = Effect::ModelOutcome {
        model: x.responding_model@,
        key_label: chars_in(key.label),
        latency_ms: ttfc_ms,
        ok: 200 <= status <= 299,
    };
    if 200 <= status <= 299 {
        &&& effects.len() == 4
        &&& effects[0] == Effect::<Seq<char>>::KeySucceeded(key.idx)
        &&& effects[1] == outcome
        &&& logs_turn(effects[2], x, key.label, ttfc_ms, true, status, None)
        &&& effects[3] == Effect::RacingWin(x.responding_model@)
    } else {
        &&& effects.len() == 2
        &&& effects[0] == outcome
        &&& exists|part: Seq<char>| #[trigger]
            first_400(part, text) && logs_turn(
                effects[1],
                x,
                key.label,
                ttfc_ms,
                false,
                status,
                Some(part),
            )
    }
}

/// An answer that was read reaches the client with its status, its media type, the label of
/// its key and every byte of its body, unless the server failed or the model rejects the shape
/// of the request. The request is left as it is.
pub proof fn law_solo_answer_passes(
    before: SoloFlow,
    key: KeyUse,
    full_ms: u64,
    given_ms: u64,
    max_total_ms: u64,
    elapsed_ms: u64,
    ttfc_ms: u64,
    head: ResponseHead,
    bytes: Vec<u8>,
    after: SoloFlow,
    effects: Seq<Effect<Seq<char>>>,
    read: SoloReadView,
)
    requires
        solo_read(
            before,
            key,
            full_ms,
            given_ms,
            max_total_ms,
            elapsed_ms,
            ttfc_ms,
            head,
            BodyOutcome::Read(bytes),
            after,
            effects,
            read,
        ),
        !(500 <= head.status <= 599),
        head.status != 400 || !speaks_of_shape(text_in(bytes@)),
    ensures
        read matches SoloReadView::Finish(reply) && passed_as_it_came(
            reply,
            head,
            key.label,
            bytes@,
        ) && !reply->unbuffered,
        after == before,
        solo_answer_noted(
            effects,
            before.exchange,
            key,
            ttfc_ms,
            head.status,
            text_in(bytes@),
        ),
{
    lemma_shape_words(text_in(bytes@));
    lemma_excerpt(text_in(bytes@));
}

/// The same over the steps of a request: it ends with that answer.
pub proof fn law_solo_request_ends_with_the_answer(
    before: SoloFlow,
    key: KeyUse,
    full_ms: u64,
    limit_ms: u64,
    ttfc_ms: u64,
    head: ResponseHead,
    elapsed_ms: u64,
    bytes: Vec<u8>,
    state: AppState,
    now_ns: u128,
    after: SoloFlow,
    effects: Seq<Effect<Seq<char>>>,
    action: SoloActionView,
)
    requires
        before.phase == (SoloPhase::Body { key, full_ms, limit_ms, ttfc_ms, head }),
        solo_step(
            before,
            SoloEvent::Read { elapsed_ms, outcome: BodyOutcome::Read(bytes) },
            state,
            now_ns,
            after,
            effects,
            action,
        ),
        !(500 <= head.status <= 599),
        head.status != 400 || !speaks_of_shape(text_in(bytes@)),
    ensures
        action matches SoloActionView::Finish(reply) && passed_as_it_came(
            reply,
            head,
            key.label,
            bytes@,
        ) && !reply->unbuffered,
        after.phase is Over,
        solo_answer_noted(
            effects,
            before.exchange,
            key,
            ttfc_ms,
            head.status,
            text_in(bytes@),
        ),
{
    lemma_shape_words(text_in(bytes@));
    lemma_excerpt(text_in(bytes@));
}

/// A server that failed and a model that rejects the shape of the request end the model's
/// turn: what is told of it is its status and the first 400 characters of its text. Only a
/// rejected shape is held against the model as such.
pub proof fn law_solo_failing_model_is_left(
    before: SoloFlow,
    key: KeyUse,
    full_ms: u64,
    given_ms: u64,
    max_total_ms: u64,
    elapsed_ms: u64,
    ttfc_ms: u64,
    head: ResponseHead,
    bytes: Vec<u8>,
    after: SoloFlow,
    effects: Seq<Effect<Seq<char>>>,
    read: SoloReadView,
)
    requires
        solo_read(
            before,
            key,
            full_ms,
            given_ms,
            max_total_ms,
            elapsed_ms,
            ttfc_ms,
            head,
            BodyOutcome::Read(bytes),
            after,
            effects,
            read,
        ),
        500 <= head.status <= 599 || (head.status == 400 && speaks_of_shape(text_in(bytes@))),
    ensures
        read == SoloReadView::Advance,
        exists|part: Seq<char>| #[trigger]
            first_400(part, text_in(bytes@)) && model_given_up(before, after, head.status, part)
                && logs_turn(
                effects.last(),
                before.exchange,
                key.label,
                ttfc_ms,
                false,
                head.status,
                Some(part),
            ),
        effects.len() == (if head.status == 400 {
            3nat
        } else {
            2
        }),
        effects[effects.len() - 2] == (Effect::ModelOutcome {
            model: before.exchange.responding_model@,
            key_label: chars_in(key.label),
            latency_ms: ttfc_ms,
            ok: false,
        }),
        head.status == 400 ==> effects[0] == (Effect::HardError {
            model: before.exchange.responding_model@,
            error: text_in(bytes@),
        }),
{
    lemma_shape_words(text_in(bytes@));
    lemma_excerpt(text_in(bytes@));
}

/// What is said when an attempt took too long: how long it had, or that the deadline cut its
/// time short.
pub open spec fn says_late(
    message: Seq<char>,
    full_ms: u64,
    given_ms: u64,
    max_total_ms: u64,
    words: Seq<char>,
) -> bool {
    if given_ms < full_ms {
        message == "racing deadline exceeded after "@ + decimal(max_total_ms as nat) + "ms"@
    } else {
        message == words + decimal(full_ms as nat) + "ms"@
    }
}

/// A body that does not come ends the model's turn: with 502 and the failure, or with 504 and
/// the time that it had.
pub proof fn law_solo_missing_body_is_told(
    before: SoloFlow,
    key: KeyUse,
    full_ms: u64,
    given_ms: u64,
    max_total_ms: u64,
    elapsed_ms: u64,
    ttfc_ms: u64,
    head: ResponseHead,
    outcome: BodyOutcome,
    after: SoloFlow,
    effects: Seq<Effect<Seq<char>>>,
    read: SoloReadView,
)
    requires
        solo_read(
            before,
            key,
            full_ms,
            given_ms,
            max_total_ms,
            elapsed_ms,
            ttfc_ms,
            head,
            outcome,
            after,
            effects,
            read,
        ),
        !(outcome is Read),
    ensures
        read == SoloReadView::Advance,
        outcome matches BodyOutcome::Failed(e) ==> {
            &&& model_given_up(before, after, 502, e@)
            &&& effects.len() == 1
            &&& logs_turn(
                effects[0],
                before.exchange,
                key.label,
                elapsed_ms,
                false,
                502,
                Some(e@),
            )
        },
        outcome is TimedOut ==> exists|message: Seq<char>|
            {
                &&& #[trigger] says_late(
                    message,
                    full_ms,
                    given_ms,
                    max_total_ms,
                    "upstream body timeout after "@,
                )
                &&& model_given_up(before, after, 504, message)
                &&& told_late(effects, before.exchange, key.label, given_ms, message)
            },
{
    if outcome is TimedOut {
        let message = after.last_error->Some_0.1@;
        assert(says_late(
            message,
            full_ms,
            given_ms,
            max_total_ms,
            "upstream body timeout after "@,
        ));
    }
}

/// A request that fails or is not answered in time ends the model's turn, with 502 or 504; a
/// key that is turned away pauses, and the model may be tried again with another.
pub proof fn law_solo_request_without_answer(
    before: SoloFlow,
    key: KeyUse,
    full_ms: u64,
    given_ms: u64,
    max_total_ms: u64,
    elapsed_ms: u64,
    outcome: SendOutcome,
    after: SoloFlow,
    effects: Seq<Effect<Seq<char>>>,
    sent: SoloSent,
)
    requires
        solo_sent(
            before,
            key,
            full_ms,
            given_ms,
            max_total_ms,
            elapsed_ms,
            outcome,
            after,
            effects,
            sent,
        ),
    ensures
        sent is ReadBody <==> (outcome matches SendOutcome::Answered(head) && head.status != 429),
        sent is ReadBody ==> after == before && effects.len() == 0,
        outcome matches SendOutcome::Failed(e) ==> {
            &&& model_given_up(before, after, 502, e@)
            &&& effects.len() == 2
            &&& effects[0] == (Effect::ModelOutcome {
                model: before.exchange.responding_model@,
                key_label: chars_in(key.label),
                latency_ms: elapsed_ms,
                ok: false,
            })
            &&& logs_turn(
                effects[1],
                before.exchange,
                key.label,
                elapsed_ms,
                false,
                502,
                Some(e@),
            )
        },
        outcome is TimedOut ==> exists|message: Seq<char>|
            {
                &&& #[trigger] says_late(
                    message,
                    full_ms,
                    given_ms,
                    max_total_ms,
                    "upstream timeout after "@,
                )
                &&& model_given_up(before, after, 504, message)
                &&& told_late(effects, before.exchange, key.label, given_ms, message)
            },
        outcome matches SendOutcome::Answered(head) ==> head.status == 429 ==> {
            &&& effects.len() == 2
            &&& effects[0] is RateLimit
            &&& effects[1] == (Effect::<Seq<char>>::KeyRateLimited {
                key: key.idx,
                secs: pause_asked(head.retry_after),
            })
            &&& after.attempts_left == before.attempts_left
            &&& model_given_up(
                SoloFlow { attempts_left: 0, ..before },
                SoloFlow { attempts_left: 0, ..after },
                429,
                "all API keys rate-limited"@,
            )
        },
{
    if outcome is TimedOut {
        let message = after.last_error->Some_0.1@;
        assert(says_late(message, full_ms, given_ms, max_total_ms, "upstream timeout after "@));
    }
}

/// A model is tried while it has attempts left; then the next one of the list has its turn,
/// with a request of its own. The end of the list is answered with the last failure, and a list
/// on which nothing failed with the lack of keys.
pub proof fn law_solo_tries_the_list_in_order(
    before: SoloFlow,
    state: AppState,
    now_ns: u128,
    after: SoloFlow,
    effects: Seq<Effect<Seq<char>>>,
    action: SoloActionView,
)
    requires
        solo_goes_on(before, state, now_ns, after, effects, action),
    ensures
        after.body == before.body,
        after.models == before.models,
        after.deadline_ns == before.deadline_ns,
        after.last_error == before.last_error,
        before.attempts_left > 0 ==> {
            &&& action == SoloActionView::Admit
            &&& after.tried == before.tried
            &&& after.attempts_left + 1 == before.attempts_left
            &&& after.text == before.text
            &&& after.exchange == before.exchange
            &&& effects.len() == 0
        },
        before.attempts_left == 0 && before.tried >= before.models@.len() ==> {
            &&& action == SoloActionView::Finish(
                match before.last_error {
                    Some(e) => ReplyView::Text { status: e.0, message: e.1@ },
                    None => ReplyView::Text { status: 429, message: "all API keys rate-limited"@ },
                },
            )
            &&& effects.len() == (if before.last_error is Some {
                0nat
            } else {
                1
            })
            &&& before.last_error is None ==> effects[0] is NoKey
        },
        before.attempts_left == 0 && before.tried < before.models@.len() && before.deadline_ns is None
            ==> {
            &&& json_parse(before.body@) is None ==> action == SoloActionView::Finish(
                ReplyView::Text { status: 400, message: "invalid JSON body"@ },
            )
            &&& json_parse(before.body@) matches Some(j) ==> if j is Obj || j is Null {
                let model = before.models@[before.tried as int]@;
                &&& action == SoloActionView::Admit
                &&& after.tried == before.tried + 1
                &&& after.exchange.responding_model@ == model
                &&& after.exchange.requested_model@ == before.exchange.requested_model@
                &&& after.exchange.is_racing == before.exchange.is_racing
                &&& body_for(before.body@, model, state) == Some(after.text@)
                &&& carries_request(after.text@, before.body@, model, state)
                &&& state.pool.slots@.len() == 0 ==> after.attempts_left == 0
                &&& 1 <= state.pool.slots@.len() <= 8 ==> after.attempts_left + 1
                    == state.pool.slots@.len()
                &&& 8 < state.pool.slots@.len() <= usize::MAX ==> after.attempts_left == 7
                &&& (
                    after.exchange.message_count,
                    after.exchange.has_tool_calls,
                    after.exchange.tool_call_count,
                ) == turn_summary(json_parse(after.text@))
                &&& effects.len() == body_remarks(after.text@, model).len()
                &&& forall|i: int|
                    0 <= i < effects.len() ==> #[trigger] effects[i] == Effect::Remark(
                        body_remarks(after.text@, model)[i],
                    )
            } else {
                action == SoloActionView::Unanswerable
            }
        },
{
    assert(at_rest(after).body == after.body);
}

/// A request whose deadline has passed is not sent to another model, but answered.
pub proof fn law_solo_stops_at_the_deadline(
    before: SoloFlow,
    deadline: u128,
    state: AppState,
    now_ns: u128,
    after: SoloFlow,
    effects: Seq<Effect<Seq<char>>>,
    action: SoloActionView,
)
    requires
        solo_goes_on(before, state, now_ns, after, effects, action),
        before.deadline_ns == Some(deadline),
        before.attempts_left == 0,
        before.tried < before.models@.len(),
        state.racing_timeout_ms > 0,
    ensures
        (action == SoloActionView::Finish(
            ReplyView::Text {
                status: 504,
                message: "racing deadline exceeded after "@ + decimal(
                    state.controls.racing_max_total_request_ms as nat,
                ) + "ms"@,
            },
        )) <==> now_ns + 1_000_000 > deadline,
        now_ns + 1_000_000 > deadline ==> effects.len() == 2 && effects[0] is Timeout
            && effects[1] is DeadlineExceeded,
{
    let span = deadline - now_ns;
    if now_ns <= deadline {
        vstd::arithmetic::div_mod::lemma_fundamental_div_mod(span, 1_000_000);
        vstd::arithmetic::div_mod::lemma_mod_bound(span, 1_000_000);
    }
}

/// A model that fails on the server's side hands over to the next one: with no deadline and a
/// request that is an object, that one is waited for a key; behind the last one the client is
/// told how the last one failed.
pub proof fn law_solo_hands_over_after_a_failure(
    before: SoloFlow,
    key: KeyUse,
    full_ms: u64,
    limit_ms: u64,
    ttfc_ms: u64,
    head: ResponseHead,
    elapsed_ms: u64,
    bytes: Vec<u8>,
    state: AppState,
    now_ns: u128,
    after: SoloFlow,
    effects: Seq<Effect<Seq<char>>>,
    action: SoloActionView,
)
    requires
        before.phase == (SoloPhase::Body { key, full_ms, limit_ms, ttfc_ms, head }),
        solo_step(
            before,
            SoloEvent::Read { elapsed_ms, outcome: BodyOutcome::Read(bytes) },
            state,
            now_ns,
            after,
            effects,
            action,
        ),
        500 <= head.status <= 599 || (head.status == 400 && speaks_of_shape(text_in(bytes@))),
        before.deadline_ns is None,
        json_parse(before.body@) matches Some(j) && j is Obj,
    ensures
        before.tried < before.models@.len() ==> {
            &&& action == SoloActionView::Admit
            &&& after.tried == before.tried + 1
            &&& after.exchange.responding_model@ == before.models@[before.tried as int]@
            &&& after.last_error is Some
        },
        before.tried >= before.models@.len() ==> exists|part: Seq<char>|
            {
                &&& #[trigger] first_400(part, text_in(bytes@))
                &&& action == SoloActionView::Finish(
                    ReplyView::Text { status: head.status, message: part },
                )
            },
{
    lemma_shape_words(text_in(bytes@));
    lemma_excerpt(text_in(bytes@));
    let total_ms = state.controls.racing_max_total_request_ms;
    let (failed, first, later) = choose|
        failed: SoloFlow,
        first: Seq<Effect<Seq<char>>>,
        later: Seq<Effect<Seq<char>>>,
    |
        {
            &&& #[trigger] solo_read(
                at_rest(before),
                key,
                full_ms,
                limit_ms,
                total_ms,
                elapsed_ms,
                ttfc_ms,
                head,
                BodyOutcome::Read(bytes),
                failed,
                first,
                SoloReadView::Advance,
            )
            &&& #[trigger] solo_goes_on(failed, state, now_ns, after, later, action)
            &&& effects == first + later
        };
    law_solo_tries_the_list_in_order(failed, state, now_ns, after, later, action);
}

/// A request with a key is sent with it, within the time that its model gets and the deadline
/// leaves; where the deadline leaves none, it is answered.
pub proof fn law_solo_key_is_used(
    before: SoloFlow,
    lease: KeyLease,
    state: AppState,
    now_ns: u128,
    after: SoloFlow,
    effects: Seq<Effect<Seq<char>>>,
    action: SoloActionView,
)
    requires
        before.phase is Admission,
        solo_step(before, SoloEvent::Admitted(lease), state, now_ns, after, effects, action),
    ensures
        ({
            let full_ms = model_timeout(
                record_of(state.model_stats.records(), before.exchange.responding_model@),
                state.racing_timeout_ms,
                state.controls.min_dynamic_timeout_ms,
                state.controls.dynamic_sample_floor,
            );
            match time_before(before.deadline_ns, now_ns, full_ms) {
                Some(limit_ms) => {
                    &&& effects.len() == 0
                    &&& action == (SoloActionView::Send { limit_ms })
                    &&& after == (SoloFlow {
                        phase: SoloPhase::Answer {
                            key: KeyUse { idx: lease.idx, label: lease.label },
                            full_ms,
                            limit_ms,
                        },
                        ..before
                    })
                },
                None => deadline_is_told(
                    state.controls.racing_max_total_request_ms,
                    effects,
                    action,
                ) && after.phase is Over,
            }
        }),
{
}

/// Whether a client is told that the deadline of its request has passed, and that is noted.
pub open spec fn deadline_is_told(
    max_total_ms: u64,
    effects: Seq<Effect<Seq<char>>>,
    action: SoloActionView,
) -> bool {
    &&& action == SoloActionView::Finish(
        ReplyView::Text {
            status: 504,
            message: "racing deadline exceeded after "@ + decimal(max_total_ms as nat) + "ms"@,
        },
    )
    &&& effects.len() == 2
    &&& effects[0] is Timeout
    &&& effects[1] is DeadlineExceeded
}

/// An answer with any status but 429 is read, within the time that the model gets and the
/// deadline leaves; where the deadline leaves none, the request is answered with that.
pub proof fn law_solo_answer_is_read(
    before: SoloFlow,
    key: KeyUse,
    full_ms: u64,
    limit_ms: u64,
    elapsed_ms: u64,
    head: ResponseHead,
    state: AppState,
    now_ns: u128,
    after: SoloFlow,
    effects: Seq<Effect<Seq<char>>>,
    action: SoloActionView,
)
    requires
        before.phase == (SoloPhase::Answer { key, full_ms, limit_ms }),
        head.status != 429,
        solo_step(
            before,
            SoloEvent::Sent { elapsed_ms, outcome: SendOutcome::Answered(head) },
            state,
            now_ns,
            after,
            effects,
            action,
        ),
    ensures
        match time_before(before.deadline_ns, now_ns, full_ms) {
            Some(left_ms) => {
                &&& effects.len() == 0
                &&& action == (SoloActionView::Read { limit_ms: left_ms })
                &&& after == (SoloFlow {
                    phase: SoloPhase::Body {
                        key,
                        full_ms,
                        limit_ms: left_ms,
                        ttfc_ms: elapsed_ms,
                        head,
                    },
                    ..before
                })
            },
            None => deadline_is_told(
                state.controls.racing_max_total_request_ms,
                effects,
                action,
            ) && after.phase is Over,
        },
{
}

/// A key that is turned away costs the model an attempt, not its turn: while attempts are left
/// the same text goes out again, and the key pauses.
pub proof fn law_solo_turned_away_key_is_replaced(
    before: SoloFlow,
    key: KeyUse,
    full_ms: u64,
    limit_ms: u64,
    elapsed_ms: u64,
    head: ResponseHead,
    state: AppState,
    now_ns: u128,
    after: SoloFlow,
    effects: Seq<Effect<Seq<char>>>,
    action: SoloActionView,
)
    requires
        before.phase == (SoloPhase::Answer { key, full_ms, limit_ms }),
        head.status == 429,
        before.attempts_left > 0,
        solo_step(
            before,
            SoloEvent::Sent { elapsed_ms, outcome: SendOutcome::Answered(head) },
            state,
            now_ns,
            after,
            effects,
            action,
        ),
    ensures
        action == SoloActionView::Admit,
        after.phase is Admission,
        after.attempts_left + 1 == before.attempts_left,
        after.tried == before.tried,
        after.text == before.text,
        after.exchange == before.exchange,
        effects.len() == 2,
        effects[0] is RateLimit,
        effects[1] == (Effect::<Seq<char>>::KeyRateLimited {
            key: key.idx,
            secs: pause_asked(head.retry_after),
        }),
{
    let total_ms = state.controls.racing_max_total_request_ms;
    let outcome = SendOutcome::Answered(head);
    let (failed, first, later) = choose|
        failed: SoloFlow,
        first: Seq<Effect<Seq<char>>>,
        later: Seq<Effect<Seq<char>>>,
    |
        {
            &&& #[trigger] solo_sent(
                at_rest(before),
                key,
                full_ms,
                limit_ms,
                total_ms,
                elapsed_ms,
                outcome,
                failed,
                first,
                SoloSent::Advance,
            )
            &&& #[trigger] solo_goes_on(failed, state, now_ns, after, later, action)
            &&& effects == first + later
        };
    law_solo_request_without_answer(
        at_rest(before),
        key,
        full_ms,
        limit_ms,
        total_ms,
        elapsed_ms,
        outcome,
        failed,
        first,
        SoloSent::Advance,
    );
    law_solo_tries_the_list_in_order(failed, state, now_ns, after, later, action);
}

/// Each phase of a request that is tried on models one after the other waits for one kind of
/// event.
pub proof fn law_solo_waits_for_what_comes(
    phase: SoloPhase,
    lease: KeyLease,
    elapsed_ms: u64,
    outcome: SendOutcome,
    body: BodyOutcome,
)
    ensures
        solo_awaits(phase, SoloEvent::Admitted(lease)) <==> phase is Admission,
        solo_awaits(phase, SoloEvent::Sent { elapsed_ms, outcome }) <==> phase is Answer,
        solo_awaits(phase, SoloEvent::Read { elapsed_ms, outcome: body }) <==> phase is Body,
{
}

} // verus!
