//! What holds of every race: of the models in it, and of what is made of their failures.

use vstd::prelude::*;
use vstd::utf8::{
    decode_utf8, decode_utf8_encode_utf8, encode_utf8, encode_utf8_valid_utf8, is_char_boundary,
    valid_utf8_split,
};

use crate::admission::{admitted, leased};
use crate::candidates::{
    greatest, law_candidates_are_usable_models, law_solo_tries_every_usable_model, solo_candidates,
};
use crate::chat_laws::{chars_in, logs_turn, passed_as_it_came, told_late};
use crate::deadline::time_before;
use crate::effect::{Effect, ReplyView};
use crate::json::JsonView;
use crate::key_laws::{law_attempts_are_refused_with_reason, takes_request};
use crate::number::decimal;
use crate::prepare::request_for;
use crate::race_flow::{
    law_every_arrival_counts, race_arrives, race_enters, RaceAction, RaceFlow,
};
use crate::racer::{
    racer_awaits, racer_step, ArrivalView, RacerActionView, RacerEvent, RacerFlow, RacerPhase,
};
use crate::solo_laws::{says_late, speaks_of_shape};
use crate::state::AppState;
use crate::stats::{model_timeout, record_degraded, record_of};
use crate::table::names;
use crate::tally::{
    no_tally, not_among, pauses, race_lost, second_chance, tally_of, wins, RaceEndView,
};
use crate::text::{has_text, occurs_at};
use crate::turn::turn_summary;
use crate::upstream::{lossy_text, pause_asked, BodyOutcome, ResponseHead, SendOutcome};
use crate::wire::{json_parse, json_text};

verus! {

// ---------------------------------------------------------------------------------------
// A model in a race
// ---------------------------------------------------------------------------------------

/// A racing model whose answer was read comes in with it: with its own name and key, and with
/// the status, the media type and every byte of the answer.
pub proof fn law_racer_brings_its_answer(
    before: RacerFlow,
    latency_ms: u64,
    limit_ms: u64,
    head: ResponseHead,
    elapsed_ms: u64,
    bytes: Vec<u8>,
    max_total_ms: u64,
    now_ns: u128,
    after: RacerFlow,
    effects: Seq<Effect<Seq<char>>>,
    action: RacerActionView,
)
    requires
        before.phase == (RacerPhase::Body { latency_ms, limit_ms, head }),
        racer_step(
            before,
            RacerEvent::Read { elapsed_ms, outcome: BodyOutcome::Read(bytes) },
            max_total_ms,
            now_ns,
            after,
            effects,
            action,
        ),
    ensures
        action matches RacerActionView::Done(ArrivalView::Answered(f)) && {
            &&& f.model == before.racer.exchange.responding_model@
            &&& f.status == head.status
            &&& f.key == before.racer.lease.idx
            &&& f.retry_after_secs == pause_asked(head.retry_after)
            &&& passed_as_it_came(f.reply, head, before.racer.lease.label, bytes@)
            &&& !f.reply->unbuffered
        },
        effects.len() == 1,
        logs_turn(
            effects[0],
            before.racer.exchange,
            before.racer.lease.label,
            latency_ms,
            200 <= head.status <= 299,
            head.status,
            if 200 <= head.status <= 299 {
                None
            } else {
                Some("HTTP "@ + decimal(head.status as nat))
            },
        ),
{
}

/// A racing model whose answer does not come is out: the reason says whether its request or its
/// body failed, or how long it had.
pub proof fn law_racer_without_an_answer_is_out(
    before: RacerFlow,
    event: RacerEvent,
    max_total_ms: u64,
    now_ns: u128,
    after: RacerFlow,
    effects: Seq<Effect<Seq<char>>>,
    action: RacerActionView,
)
    requires
        racer_step(before, event, max_total_ms, now_ns, after, effects, action),
    ensures
        before.phase is Answer ==> (event matches RacerEvent::Sent { elapsed_ms, outcome } && {
            let x = before.racer.exchange;
            let label = before.racer.lease.label;
            &&& outcome matches SendOutcome::Failed(e) ==> {
                &&& action == RacerActionView::Done(ArrivalView::Out("request error: "@ + e@))
                &&& effects.len() == 2
                &&& effects[0] == (Effect::ModelOutcome {
                    model: x.responding_model@,
                    key_label: chars_in(label),
                    latency_ms: before.racer.full_ms,
                    ok: false,
                })
                &&& logs_turn(effects[1], x, label, elapsed_ms, false, 502, Some(e@))
            }
            &&& outcome is TimedOut ==> (action matches RacerActionView::Done(ArrivalView::Out(m))
                && {
                &&& says_late(
                    m,
                    before.racer.full_ms,
                    before.racer.send_ms,
                    max_total_ms,
                    "timeout after "@,
                )
                &&& effects.len() == 3
                &&& effects[0] is Timeout
                &&& effects[1] == (Effect::ModelTimeout {
                    model: x.responding_model@,
                    key_label: chars_in(label),
                    elapsed_ms: before.racer.send_ms,
                })
                &&& logs_turn(effects[2], x, label, before.racer.full_ms, false, 504, Some(m))
            })
        }),
        before.phase matches RacerPhase::Body { latency_ms, limit_ms, head } ==> (event
            matches RacerEvent::Read { elapsed_ms, outcome } && {
            let x = before.racer.exchange;
            let label = before.racer.lease.label;
            &&& outcome matches BodyOutcome::Failed(e) ==> {
                &&& action == RacerActionView::Done(ArrivalView::Out("body error: "@ + e@))
                &&& effects.len() == 1
                &&& logs_turn(effects[0], x, label, elapsed_ms, false, 502, Some(e@))
            }
            &&& outcome is TimedOut ==> (action matches RacerActionView::Done(ArrivalView::Out(m))
                && {
                &&& says_late(
                    m,
                    before.racer.full_ms,
                    limit_ms,
                    max_total_ms,
                    "body timeout after "@,
                )
                &&& told_late(effects, x, label, limit_ms, m)
            })
        }),
{
}

/// The head of a racing model's answer decides what is read: an error other than a 429 is read
/// as an error, and anything else as an answer, while time is left. The key is credited for a
/// success and narrowed for a 429.
pub proof fn law_racer_reads_what_comes(
    before: RacerFlow,
    elapsed_ms: u64,
    head: ResponseHead,
    left_ms: u64,
    max_total_ms: u64,
    now_ns: u128,
    after: RacerFlow,
    effects: Seq<Effect<Seq<char>>>,
    action: RacerActionView,
)
    requires
        before.phase is Answer,
        time_before(before.deadline_ns, now_ns, before.racer.full_ms) == Some(left_ms),
        racer_step(
            before,
            RacerEvent::Sent { elapsed_ms, outcome: SendOutcome::Answered(head) },
            max_total_ms,
            now_ns,
            after,
            effects,
            action,
        ),
    ensures
        head.status >= 400 && head.status != 429 ==> {
            &&& action == RacerActionView::ReadError
            &&& after.phase == (RacerPhase::Error { latency_ms: elapsed_ms, status: head.status })
            &&& effects.len() == 0
        },
        head.status < 400 || head.status == 429 ==> {
            &&& action == (RacerActionView::Read { limit_ms: left_ms })
            &&& after.phase == (RacerPhase::Body {
                latency_ms: elapsed_ms,
                limit_ms: left_ms,
                head,
            })
            &&& effects.len() > 0
            &&& effects[0] == (Effect::ModelOutcome {
                model: before.racer.exchange.responding_model@,
                key_label: chars_in(before.racer.lease.label),
                latency_ms: elapsed_ms,
                ok: 200 <= head.status <= 299,
            })
            &&& effects.len() == (if 200 <= head.status <= 299 || head.status == 429 {
                2nat
            } else {
                1
            })
            &&& head.status == 429 ==> effects[1] == Effect::<Seq<char>>::KeyThrottled(
                before.racer.lease.idx,
            )
            &&& 200 <= head.status <= 299 ==> effects[1] == Effect::<Seq<char>>::KeySucceeded(
                before.racer.lease.idx,
            )
        },
        after.racer == before.racer,
        after.deadline_ns == before.deadline_ns,
{
}

/// A racing model whose answer comes when no time is left for its body is out, for the deadline,
/// unless the answer is an error; that counts as a timeout of the model.
pub proof fn law_racer_is_out_at_the_deadline(
    before: RacerFlow,
    elapsed_ms: u64,
    head: ResponseHead,
    max_total_ms: u64,
    now_ns: u128,
    after: RacerFlow,
    effects: Seq<Effect<Seq<char>>>,
    action: RacerActionView,
)
    requires
        before.phase is Answer,
        time_before(before.deadline_ns, now_ns, before.racer.full_ms) is None,
        racer_step(
            before,
            RacerEvent::Sent { elapsed_ms, outcome: SendOutcome::Answered(head) },
            max_total_ms,
            now_ns,
            after,
            effects,
            action,
        ),
    ensures
        head.status >= 400 && head.status != 429 ==> action == RacerActionView::ReadError,
        head.status < 400 || head.status == 429 ==> {
            let n = effects.len() as int;
            let message = "racing deadline exceeded after "@ + decimal(max_total_ms as nat) + "ms"@;
            &&& action == RacerActionView::Done(ArrivalView::Out(message))
            &&& after.phase is Over
            &&& n >= 4
            &&& effects[n - 3] is Timeout
            &&& effects[n - 2] == (Effect::ModelTimeout {
                model: before.racer.exchange.responding_model@,
                key_label: chars_in(before.racer.lease.label),
                elapsed_ms: before.racer.full_ms,
            })
            &&& logs_turn(
                effects[n - 1],
                before.racer.exchange,
                before.racer.lease.label,
                elapsed_ms,
                false,
                504,
                Some(message),
            )
        },
{
}

/// A racing model that answered with an error is out, and the reason holds its status, its name
/// and the text, or its first 400 bytes where it has more. A 400 that speaks of the shape of the
/// request is held against the model.
pub proof fn law_racer_error_is_told(
    before: RacerFlow,
    latency_ms: u64,
    status: u16,
    body: Vec<u8>,
    max_total_ms: u64,
    now_ns: u128,
    after: RacerFlow,
    effects: Seq<Effect<Seq<char>>>,
    action: RacerActionView,
)
    requires
        before.phase == (RacerPhase::Error { latency_ms, status }),
        racer_step(
            before,
            RacerEvent::ErrorRead(body),
            max_total_ms,
            now_ns,
            after,
            effects,
            action,
        ),
    ensures
        ({
            let text = lossy_text(body@);
            let x = before.racer.exchange;
            let told = "HTTP 400 from "@ + x.responding_model@ + ": "@ + text;
            let held = status == 400 && speaks_of_shape(told);
            let short = encode_utf8(text).len() <= 400;
            &&& effects.len() > 0
            &&& effects[0] == (Effect::ModelOutcome {
                model: x.responding_model@,
                key_label: chars_in(before.racer.lease.label),
                latency_ms,
                ok: false,
            })
            &&& held ==> effects.len() > 1 && effects[1] == (Effect::HardError {
                model: x.responding_model@,
                error: told,
            })
            &&& short ==> {
                &&& action == RacerActionView::Done(
                    ArrivalView::Out(
                        "HTTP "@ + decimal(status as nat) + " from "@ + x.responding_model@ + ": "@
                            + text,
                    ),
                )
                &&& effects.len() == (if held {
                    3nat
                } else {
                    2
                })
                &&& logs_turn(
                    effects.last(),
                    x,
                    before.racer.lease.label,
                    latency_ms,
                    false,
                    status,
                    Some(text),
                )
            }
            &&& !short && is_char_boundary(encode_utf8(text), 400) ==> exists|part: Seq<char>|
                {
                    &&& #[trigger] encode_utf8(part) == encode_utf8(text).take(400)
                    &&& action == RacerActionView::Done(
                        ArrivalView::Out(
                            "HTTP "@ + decimal(status as nat) + " from "@ + x.responding_model@
                                + ": "@ + part,
                        ),
                    )
                    &&& logs_turn(
                        effects.last(),
                        x,
                        before.racer.lease.label,
                        latency_ms,
                        false,
                        status,
                        Some(part),
                    )
                }
            &&& (action is Break) <==> !short && !is_char_boundary(encode_utf8(text), 400)
            &&& action is Break ==> effects.len() == (if held {
                2nat
            } else {
                1
            })
            &&& !(action is Break) ==> action is Done && action->Done_0 is Out
        }),
        after.phase is Over,
{
    let text = lossy_text(body@);
    let model = before.racer.exchange.responding_model@;
    let told = "HTTP 400 from "@ + model + ": "@ + text;
    let bytes = encode_utf8(text);
    if bytes.len() > 400 && is_char_boundary(bytes, 400) {
        let part = decode_utf8(bytes.take(400));
        encode_utf8_valid_utf8(text);
        valid_utf8_split(bytes, 400);
        assert(bytes.take(400) =~= bytes.subrange(0, 400));
        decode_utf8_encode_utf8(bytes.take(400));
        assert(encode_utf8(part) == bytes.take(400));
    }
    lemma_four_hundred();
    assert("HTTP "@ + decimal(400) + " from "@ + model + ": "@ + text =~= told);
    assert(told.subrange(0, 8) =~= "HTTP 400"@) by {
        reveal_strlit("HTTP 400");
        reveal_strlit("HTTP 400 from ");
    }
    assert(occurs_at(told, "HTTP 400"@, 0)) by {
        reveal_strlit("HTTP 400");
        reveal_strlit("HTTP 400 from ");
    }
}

proof fn lemma_four_hundred()
    ensures
        "HTTP "@ + decimal(400) + " from "@ == "HTTP 400 from "@,
{
    reveal_with_fuel(decimal, 4);
    reveal_strlit("HTTP ");
    reveal_strlit(" from ");
    reveal_strlit("HTTP 400 from ");
    assert(decimal(400) =~= seq!['4', '0', '0']);
    assert("HTTP "@ + decimal(400) + " from "@ =~= "HTTP 400 from "@);
}

// ---------------------------------------------------------------------------------------
// The outcome
// ---------------------------------------------------------------------------------------

/// The first answer with any status but 429 ends the race and is what the client gets; every
/// other arrival is waited past. A key that was turned away is counted.
pub proof fn law_first_answer_wins(
    before: RaceFlow,
    state: AppState,
    arrival: ArrivalView,
    after: RaceFlow,
    effects: Seq<Effect<Seq<char>>>,
    action: RaceAction,
)
    requires
        race_arrives(before, state, Some(arrival), after, effects, action),
    ensures
        match arrival {
            ArrivalView::Answered(f) => if f.status != 429 {
                &&& action matches RaceAction::Finish(reply) && reply@ == f.reply
                &&& effects.len() == 1
                &&& effects[0] == Effect::RacingWin(f.model)
                &&& after.phase is Over
            } else {
                &&& action is Wait
                &&& effects.len() == 1
                &&& effects[0] is RateLimit
                &&& after.phase is Running
            },
            _ => {
                &&& action is Wait
                &&& effects.len() == 0
                &&& after.phase is Running
            },
        },
{
}

/// Whether a model came in with a failure that may pass: it broke off, or its reason speaks of
/// time, of the connection, or of a failing server.
pub open spec fn may_pass(a: ArrivalView) -> bool {
    match a {
        ArrivalView::Answered(_) => false,
        ArrivalView::Crashed(_) => true,
        ArrivalView::Out(reason) => {
            ||| has_text(reason, "timeout"@)
            ||| has_text(reason, "request error"@)
            ||| has_text(reason, "body error"@)
            ||| has_text(reason, "HTTP 500"@)
            ||| has_text(reason, "HTTP 502"@)
            ||| has_text(reason, "HTTP 503"@)
            ||| has_text(reason, "HTTP 504"@)
        },
    }
}

/// A failure that may pass is remembered, whoever came in before or after it; and nothing else
/// is taken for one.
pub proof fn law_passing_failures_are_remembered(arrivals: Seq<ArrivalView>)
    ensures
        forall|k: int|
            0 <= k < arrivals.len() && may_pass(#[trigger] arrivals[k]) ==> tally_of(
                arrivals,
            ).transient_failure,
        (forall|k: int| 0 <= k < arrivals.len() ==> !may_pass(#[trigger] arrivals[k]))
            ==> !tally_of(arrivals).transient_failure,
    decreases arrivals.len(),
{
    if arrivals.len() > 0 {
        let rest = arrivals.drop_last();
        law_passing_failures_are_remembered(rest);
        let n = arrivals.len() - 1;
        assert(arrivals[n] == arrivals.last());
        assert forall|k: int|
            0 <= k < arrivals.len() && may_pass(#[trigger] arrivals[k]) implies tally_of(
            arrivals,
        ).transient_failure by {
            if k < n {
                assert(rest[k] == arrivals[k]);
            }
        }
        if forall|k: int| 0 <= k < arrivals.len() ==> !may_pass(#[trigger] arrivals[k]) {
            assert forall|k: int| 0 <= k < rest.len() implies !may_pass(#[trigger] rest[k]) by {
                assert(rest[k] == arrivals[k]);
            }
            assert(!may_pass(arrivals[n]));
        }
    }
}

/// A race without a winner in which some failure may pass goes on with models one after the
/// other, where that is allowed and a model is left that is not to be avoided: whichever model
/// failed so, and whatever came in before or after it. The models that go on are models of the
/// list, none of them to be avoided.
pub proof fn law_race_goes_on_after_a_passing_failure(
    arrivals: Seq<ArrivalView>,
    k: int,
    state: AppState,
    models: Seq<Seq<char>>,
    raced: Seq<Seq<char>>,
    m: Seq<char>,
)
    requires
        0 <= k < arrivals.len(),
        may_pass(arrivals[k]),
        state.controls.racing_solo_fallback,
        models.len() <= usize::MAX,
        models.contains(m),
        !record_degraded(
            record_of(state.model_stats.records(), m),
            state.model_stats.spike_threshold_us,
        ),
        forall|x: Seq<char>| #[trigger]
            names(state.controls.racing_fast_models@).contains(x) ==> !names(
                state.controls.racing_fallback_models@,
            ).contains(x),
    ensures
        race_lost(tally_of(arrivals), state, models, raced).1 matches RaceEndView::Solo(list) && {
            &&& list.len() > 0
            &&& !raced.contains(m) ==> list.contains(m)
            &&& forall|x: Seq<char>| #[trigger]
                list.contains(x) ==> models.contains(x) && !record_degraded(
                    record_of(state.model_stats.records(), x),
                    state.model_stats.spike_threshold_us,
                )
            &&& !raced.contains(m) ==> forall|x: Seq<char>|
                raced.contains(x) ==> !#[trigger] list.contains(x)
        },
        race_lost(tally_of(arrivals), state, models, raced).0.last() == Effect::<
            Seq<char>,
        >::Fanout(1),
{
    law_passing_failures_are_remembered(arrivals);
    law_solo_tries_every_usable_model(state, models, m);
    let solo = solo_candidates(state, models);
    lemma_not_among(solo, raced, m);
    let list = second_chance(state, models, raced);
    assert forall|x: Seq<char>| #[trigger] list.contains(x) implies models.contains(x)
        && !record_degraded(
        record_of(state.model_stats.records(), x),
        state.model_stats.spike_threshold_us,
    ) by {
        lemma_not_among(solo, raced, x);
        law_candidates_are_usable_models(
            state,
            models,
            greatest(models.len() as usize, 1),
            x,
        );
    }
    assert(solo.len() > 0);
    if !raced.contains(m) {
        let others = not_among(solo, raced);
        assert(others.contains(m));
        assert(others.len() > 0);
        assert forall|x: Seq<char>| raced.contains(x) implies !#[trigger] list.contains(x) by {
            lemma_not_among(solo, raced, x);
        }
    }
}

/// Leaving models out keeps exactly the others.
proof fn lemma_not_among(models: Seq<Seq<char>>, list: Seq<Seq<char>>, m: Seq<char>)
    ensures
        not_among(models, list).contains(m) <==> models.contains(m) && !list.contains(m),
    decreases models.len(),
{
    if models.len() > 0 {
        let rest = models.drop_last();
        lemma_not_among(rest, list, m);
        lemma_last_of(models, m);
        let all = not_among(models, list);
        if !list.contains(models.last()) {
            assert(all.drop_last() =~= not_among(rest, list));
            lemma_last_of(all, m);
        }
    }
}

proof fn lemma_last_of(models: Seq<Seq<char>>, m: Seq<char>)
    requires
        models.len() > 0,
    ensures
        models.contains(m) <==> models.drop_last().contains(m) || models.last() == m,
{
    let rest = models.drop_last();
    if models.contains(m) {
        let k = choose|k: int| 0 <= k < models.len() && models[k] == m;
        if k < rest.len() {
            assert(rest[k] == m);
        }
    }
    if rest.contains(m) {
        let k = choose|k: int| 0 <= k < rest.len() && rest[k] == m;
        assert(models[k] == m);
    }
    if models.last() == m {
        assert(models[models.len() - 1] == m);
    }
}

/// A race without a winner is answered where no failure may pass, or where models may not be
/// tried one after the other: with the last failure, or, where all that came in were turned
/// away for their keys, with that.
pub proof fn law_lost_race_is_answered(
    arrivals: Seq<ArrivalView>,
    state: AppState,
    models: Seq<Seq<char>>,
    raced: Seq<Seq<char>>,
)
    requires
        !state.controls.racing_solo_fallback || forall|k: int|
            0 <= k < arrivals.len() ==> !may_pass(#[trigger] arrivals[k]),
    ensures
        ({
            let reply = race_lost(tally_of(arrivals), state, models, raced).1;
            let all_turned_away = forall|k: int|
                0 <= k < arrivals.len() ==> (#[trigger] arrivals[k]) is Answered;
            &&& arrivals.len() == 0 ==> reply == RaceEndView::Finish(
                ReplyView::Text { status: 502, message: "all racing models failed"@ },
            )
            &&& arrivals.len() > 0 && all_turned_away ==> reply == RaceEndView::Finish(
                ReplyView::Text { status: 429, message: "all racing requests rate-limited"@ },
            )
            &&& arrivals.len() > 0 && !all_turned_away ==> reply == RaceEndView::Finish(
                ReplyView::Text {
                    status: 502,
                    message: match arrivals.last() {
                        ArrivalView::Answered(f) => "429 rate-limited (key "@ + decimal(
                            f.key as nat,
                        ) + ")"@,
                        ArrivalView::Out(reason) => reason,
                        ArrivalView::Crashed(message) => message,
                    },
                },
            )
        }),
{
    law_passing_failures_are_remembered(arrivals);
    lemma_other_failures(arrivals);
    if arrivals.len() > 0 && arrivals.last() is Answered {
        let e = tally_of(arrivals).last_error->Some_0;
        reveal_strlit("429 rate-limited");
        reveal_strlit("429 rate-limited (key ");
        assert(e.subrange(0, 16) =~= "429 rate-limited"@);
        assert(occurs_at(e, "429 rate-limited"@, 0));
    }
    if arrivals.len() > 0 {
        let n = arrivals.len() - 1;
        assert(arrivals[n] == arrivals.last());
    }
}

proof fn lemma_other_failures(arrivals: Seq<ArrivalView>)
    ensures
        tally_of(arrivals).other_failure <==> exists|k: int|
            0 <= k < arrivals.len() && !((#[trigger] arrivals[k]) is Answered),
    decreases arrivals.len(),
{
    if arrivals.len() > 0 {
        let rest = arrivals.drop_last();
        let n = arrivals.len() - 1;
        lemma_other_failures(rest);
        assert(arrivals[n] == arrivals.last());
        if tally_of(rest).other_failure {
            let k = choose|k: int| 0 <= k < rest.len() && !((#[trigger] rest[k]) is Answered);
            assert(!(arrivals[k] is Answered));
        }
        if exists|k: int| 0 <= k < arrivals.len() && !((#[trigger] arrivals[k]) is Answered) {
            let k = choose|k: int|
                0 <= k < arrivals.len() && !((#[trigger] arrivals[k]) is Answered);
            if k < n {
                assert(!(rest[k] is Answered));
            }
        }
    }
}

/// Whether an effect is the pause of the key that an arrival was turned away with.
pub open spec fn pauses_key_of(e: Effect<Seq<char>>, a: ArrivalView) -> bool {
    a matches ArrivalView::Answered(f) && e == (Effect::<Seq<char>>::KeyRateLimited {
        key: f.key,
        secs: f.retry_after_secs,
    })
}

/// After a race without a winner every key that was turned away pauses, for as long as it was
/// told, and no other does; that all models failed is noted exactly where one failed otherwise.
pub proof fn law_turned_away_keys_pause(
    arrivals: Seq<ArrivalView>,
    state: AppState,
    models: Seq<Seq<char>>,
    raced: Seq<Seq<char>>,
)
    ensures
        ({
            let noted = race_lost(tally_of(arrivals), state, models, raced).0;
            &&& forall|k: int|
                0 <= k < arrivals.len() && (#[trigger] arrivals[k]) is Answered ==> exists|i: int|
                    0 <= i < noted.len() && pauses_key_of(#[trigger] noted[i], arrivals[k])
            &&& forall|i: int|
                0 <= i < noted.len() && (#[trigger] noted[i]) is KeyRateLimited ==> exists|k: int|
                    0 <= k < arrivals.len() && pauses_key_of(noted[i], #[trigger] arrivals[k])
            &&& (exists|i: int| 0 <= i < noted.len() && (#[trigger] noted[i]) is AllRacersFailed)
                <==> (exists|k: int|
                0 <= k < arrivals.len() && !((#[trigger] arrivals[k]) is Answered))
        }),
{
    lemma_turned_away(arrivals);
    lemma_other_failures(arrivals);
    let t = tally_of(arrivals);
    let noted = race_lost(t, state, models, raced).0;
    let n = t.turned_away.len() as int;
    assert forall|i: int| 0 <= i < n implies #[trigger] noted[i] == (Effect::<
        Seq<char>,
    >::KeyRateLimited { key: t.turned_away[i].0, secs: t.turned_away[i].1 }) by {
        assert(pauses(t.turned_away)[i] == noted[i]);
    }
    assert forall|k: int|
        0 <= k < arrivals.len() && (#[trigger] arrivals[k]) is Answered implies exists|i: int|
        0 <= i < noted.len() && pauses_key_of(#[trigger] noted[i], arrivals[k]) by {
        let f = arrivals[k]->Answered_0;
        let i = choose|i: int|
            0 <= i < n && #[trigger] t.turned_away[i] == (f.key, f.retry_after_secs);
        assert(pauses_key_of(noted[i], arrivals[k]));
    }
    assert forall|i: int| 0 <= i < noted.len() && (#[trigger] noted[i]) is KeyRateLimited implies exists|
        k: int,
    | 0 <= k < arrivals.len() && pauses_key_of(noted[i], #[trigger] arrivals[k]) by {
        assert(i < n);
        let k = choose|k: int|
            0 <= k < arrivals.len() && ((#[trigger] arrivals[k]) matches ArrivalView::Answered(f)
                && t.turned_away[i] == (f.key, f.retry_after_secs));
        assert(pauses_key_of(noted[i], arrivals[k]));
    }
    if t.other_failure {
        assert(noted[n] is AllRacersFailed);
    }
}

proof fn lemma_turned_away(arrivals: Seq<ArrivalView>)
    ensures
        ({
            let keys = tally_of(arrivals).turned_away;
            &&& forall|k: int|
                0 <= k < arrivals.len() ==> ((#[trigger] arrivals[k]) matches ArrivalView::Answered(
                    f,
                ) ==> exists|i: int|
                    0 <= i < keys.len() && #[trigger] keys[i] == (f.key, f.retry_after_secs))
            &&& forall|i: int|
                0 <= i < keys.len() ==> exists|k: int|
                    0 <= k < arrivals.len() && ((#[trigger] arrivals[k]) matches ArrivalView::Answered(
                        f,
                    ) && #[trigger] keys[i] == (f.key, f.retry_after_secs))
        }),
    decreases arrivals.len(),
{
    if arrivals.len() > 0 {
        let rest = arrivals.drop_last();
        let n = arrivals.len() - 1;
        lemma_turned_away(rest);
        let old_keys = tally_of(rest).turned_away;
        let keys = tally_of(arrivals).turned_away;
        assert(arrivals[n] == arrivals.last());
        assert forall|k: int| 0 <= k < arrivals.len() implies ((#[trigger] arrivals[k]) matches ArrivalView::Answered(
            f,
        ) ==> exists|i: int|
            0 <= i < keys.len() && #[trigger] keys[i] == (f.key, f.retry_after_secs)) by {
            if arrivals[k] is Answered {
                let f = arrivals[k]->Answered_0;
                if k < n {
                    assert(rest[k] == arrivals[k]);
                    let i = choose|i: int|
                        0 <= i < old_keys.len() && #[trigger] old_keys[i] == (
                            f.key,
                            f.retry_after_secs,
                        );
                    assert(keys[i] == (f.key, f.retry_after_secs));
                } else {
                    assert(keys[old_keys.len() as int] == (f.key, f.retry_after_secs));
                }
            }
        }
        assert forall|i: int| 0 <= i < keys.len() implies exists|k: int|
            0 <= k < arrivals.len() && ((#[trigger] arrivals[k]) matches ArrivalView::Answered(f)
                && #[trigger] keys[i] == (f.key, f.retry_after_secs)) by {
            if i < old_keys.len() {
                assert(keys[i] == old_keys[i]);
                let k = choose|k: int|
                    0 <= k < rest.len() && ((#[trigger] rest[k]) matches ArrivalView::Answered(f)
                        && old_keys[i] == (f.key, f.retry_after_secs));
                assert(rest[k] == arrivals[k]);
            }
        }
    }
}

// ---------------------------------------------------------------------------------------
// The start
// ---------------------------------------------------------------------------------------

/// The models that are to race enter one after the other in their order. One that starts has its
/// own request, its own time and a key of its own, which is the next in turn; no other key
/// changes, and the line-up counts one more.
pub proof fn law_models_enter_in_their_order(
    before: RaceFlow,
    state: AppState,
    now_ms: u64,
    now_ns: u128,
    after: RaceFlow,
    state_after: AppState,
    effects: Seq<Effect<Seq<char>>>,
    action: RaceAction,
)
    requires
        before.wf(),
        before.entered < before.racers@.len(),
        race_enters(before, state, now_ms, now_ns, after, state_after, effects, action),
    ensures
        after.entered == before.entered + 1,
        after.body == before.body,
        after.models == before.models,
        after.racers == before.racers,
        after.deadline_ns == before.deadline_ns,
        after.tally == before.tally,
        action matches RaceAction::Start(racer) ==> {
            let model = before.racers@[before.entered as int]@;
            &&& racer.exchange.responding_model@ == model
            &&& racer.exchange.requested_model@ == "auto"@
            &&& racer.exchange.is_racing
            &&& json_parse(before.body@) matches Some(json) && racer.text@ == json_text(
                request_for(json, model, state),
            ) && racer.accept@ == (if request_for(json, model, state).get("stream"@) == Some(
                JsonView::Bool(true),
            ) {
                "text/event-stream"@
            } else {
                "application/json"@
            })
            &&& (
                racer.exchange.message_count,
                racer.exchange.has_tool_calls,
                racer.exchange.tool_call_count,
            ) == turn_summary(json_parse(racer.text@))
            &&& racer.full_ms == model_timeout(
                record_of(state.model_stats.records(), model),
                state.racing_timeout_ms,
                state.controls.min_dynamic_timeout_ms,
                state.controls.dynamic_sample_floor,
            )
            &&& time_before(before.deadline_ns, now_ns, racer.full_ms) == Some(racer.send_ms)
            &&& leased(state, racer.lease, now_ms)
            &&& admitted(state, state_after, racer.lease.idx as int)
            &&& before.lineup.started < usize::MAX ==> after.lineup.started == before.lineup.started
                + 1
            &&& effects.len() == 0
        },
        !(action is Start) ==> state_after == state && after.lineup.started
            == before.lineup.started,
{
    assert(before.racers@.len() == before.racers.len());
}

/// A model starts exactly where time is left, the client's text is JSON that takes members, the
/// gateway has a place and some key takes a request. Where no time is left the client is told
/// so; a model without a place or a key is passed over, and that is counted.
pub proof fn law_models_start_where_they_can(
    before: RaceFlow,
    state: AppState,
    now_ms: u64,
    now_ns: u128,
    after: RaceFlow,
    state_after: AppState,
    effects: Seq<Effect<Seq<char>>>,
    action: RaceAction,
)
    requires
        before.wf(),
        before.entered < before.racers@.len(),
        before.lineup.skipped_no_key < usize::MAX,
        before.lineup.skipped_overloaded < usize::MAX,
        race_enters(before, state, now_ms, now_ns, after, state_after, effects, action),
    ensures
        ({
            let slots = state.pool.slots@;
            let full_ms = model_timeout(
                record_of(
                    state.model_stats.records(),
                    before.racers@[before.entered as int]@,
                ),
                state.racing_timeout_ms,
                state.controls.min_dynamic_timeout_ms,
                state.controls.dynamic_sample_floor,
            );
            let time = time_before(before.deadline_ns, now_ns, full_ms) is Some;
            let json = json_parse(before.body@);
            let good = json matches Some(j) && (j is Obj || j is Null);
            let place = state.upstream_in_flight < state.controls.max_upstream_in_flight;
            let some = exists|i: int|
                0 <= i < slots.len() && takes_request(#[trigger] slots[i], now_ms);
            let resting = forall|i: int|
                0 <= i < slots.len() ==> (#[trigger] slots[i]).cooldown_until_ms > now_ms;
            &&& action is Start <==> time && good && place && some
            &&& !time ==> (action matches RaceAction::Finish(reply) && reply@ == (ReplyView::Text {
                status: 504,
                message: "racing deadline exceeded after "@ + decimal(
                    state.controls.racing_max_total_request_ms as nat,
                ) + "ms"@,
            }) && effects.len() == 2 && effects[0] is Timeout && effects[1] is DeadlineExceeded)
            &&& time && json is None ==> action is Enter && effects.len() == 0 && after.lineup
                == before.lineup
            &&& time && json is Some && !good ==> action is Unanswerable
            &&& time && good && place && resting ==> action is Enter && effects.len() == 0
                && after.lineup.skipped_no_key == before.lineup.skipped_no_key + 1
                && after.lineup.skipped_overloaded == before.lineup.skipped_overloaded
            &&& time && good && (!place || (!some && !resting)) ==> action is Enter
                && effects.len() == 1 && effects[0] is Overload
                && after.lineup.skipped_overloaded == before.lineup.skipped_overloaded + 1
                && after.lineup.skipped_no_key == before.lineup.skipped_no_key
        }),
{
    law_attempts_are_refused_with_reason(state, now_ms);
}

/// When all models had their turn to enter, those that started are waited for; where none did,
/// the race is over.
pub proof fn law_race_runs_where_models_started(
    before: RaceFlow,
    state: AppState,
    now_ms: u64,
    now_ns: u128,
    after: RaceFlow,
    state_after: AppState,
    effects: Seq<Effect<Seq<char>>>,
    action: RaceAction,
)
    requires
        before.entered == before.racers@.len(),
        race_enters(before, state, now_ms, now_ns, after, state_after, effects, action),
    ensures
        state_after == state,
        action is Wait <==> before.lineup.started > 0,
        after.phase is Running <==> before.lineup.started > 0,
        effects.len() > 0 && effects[0] == Effect::<Seq<char>>::Fanout(before.lineup.started),
        before.lineup.started == 0 && state.controls.racing_solo_fallback && solo_candidates(
            state,
            names(before.models@),
        ).len() > 0 ==> (action matches RaceAction::Solo(list) && names(list@) == solo_candidates(
            state,
            names(before.models@),
        )),
        after.tally == before.tally,
        after.racers == before.racers,
        after.models == before.models,
{
}

/// Each phase of a racing model waits for one kind of event.
pub proof fn law_racer_waits_for_what_comes(
    phase: RacerPhase,
    elapsed_ms: u64,
    outcome: SendOutcome,
    bytes: Vec<u8>,
    body: BodyOutcome,
)
    ensures
        racer_awaits(phase, RacerEvent::Sent { elapsed_ms, outcome }) <==> phase is Answer,
        racer_awaits(phase, RacerEvent::ErrorRead(bytes)) <==> phase is Error,
        racer_awaits(phase, RacerEvent::Read { elapsed_ms, outcome: body }) <==> phase is Body,
{
}

/// A race that no model won ends with what is made of all that came in, of the models that could
/// race and of those that did.
pub proof fn law_race_ends_by_what_came_in(
    before: RaceFlow,
    arrivals: Seq<ArrivalView>,
    state: AppState,
    after: RaceFlow,
    effects: Seq<Effect<Seq<char>>>,
    action: RaceAction,
)
    requires
        before.tally@ == tally_of(arrivals),
        race_arrives(before, state, None, after, effects, action),
    ensures
        after.phase is Over,
        effects == race_lost(
            tally_of(arrivals),
            state,
            names(before.models@),
            names(before.racers@),
        ).0,
        match race_lost(
            tally_of(arrivals),
            state,
            names(before.models@),
            names(before.racers@),
        ).1 {
            RaceEndView::Finish(reply) => action matches RaceAction::Finish(r) && r@ == reply,
            RaceEndView::Solo(list) => action matches RaceAction::Solo(m) && names(m@) == list,
        },
{
}

/// Over a whole race: where models came in one after the other and none of them won, the race goes
/// on with models one after the other as soon as one of them, in whichever place, came in with a
/// failure that may pass, that is allowed, and a model is left that is not to be avoided.
pub proof fn law_race_with_a_passing_failure_goes_on(
    flows: Seq<RaceFlow>,
    arrivals: Seq<ArrivalView>,
    state: AppState,
    effects: Seq<Seq<Effect<Seq<char>>>>,
    actions: Seq<RaceAction>,
    end: RaceFlow,
    noted: Seq<Effect<Seq<char>>>,
    action: RaceAction,
    k: int,
    m: Seq<char>,
)
    requires
        flows.len() == arrivals.len() + 1,
        flows[0].tally@ == no_tally(),
        forall|i: int|
            0 <= i < arrivals.len() ==> !wins(#[trigger] arrivals[i]) && race_arrives(
                flows[i],
                state,
                Some(arrivals[i]),
                flows[i + 1],
                effects[i],
                actions[i],
            ),
        race_arrives(flows.last(), state, None, end, noted, action),
        0 <= k < arrivals.len(),
        may_pass(arrivals[k]),
        state.controls.racing_solo_fallback,
        names(flows[0].models@).len() <= usize::MAX,
        names(flows[0].models@).contains(m),
        !record_degraded(
            record_of(state.model_stats.records(), m),
            state.model_stats.spike_threshold_us,
        ),
        forall|x: Seq<char>| #[trigger]
            names(state.controls.racing_fast_models@).contains(x) ==> !names(
                state.controls.racing_fallback_models@,
            ).contains(x),
    ensures
        action matches RaceAction::Solo(list) && list@.len() > 0 && (!names(
            flows[0].racers@,
        ).contains(m) ==> names(list@).contains(m)),
        end.phase is Over,
{
    law_every_arrival_counts(flows, arrivals, state, effects, actions);
    let models = names(flows[0].models@);
    let raced = names(flows[0].racers@);
    law_race_goes_on_after_a_passing_failure(arrivals, k, state, models, raced, m);
    law_race_ends_by_what_came_in(flows.last(), arrivals, state, end, noted, action);
    if let RaceAction::Solo(list) = action {
        assert(names(list@).len() == list@.len());
    }
}

} // verus!
