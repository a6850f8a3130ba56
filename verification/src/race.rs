//! A chat request for which several models race.

use vstd::prelude::*;

use crate::admission::{
    admitted, leased, refusal, try_acquire_gateway_permits, GatewayAcquireError,
};
use crate::candidates::{
    adaptive_racing_parallel, cap_for, candidates_for, law_racing_stays_within_limits, limits_of,
    load_of, parallel_for, prompt_parallel_cap, rotated, rotated_models, solo_candidate_models,
    solo_candidates, tiered_candidates,
};
use crate::deadline::{deadline_for, racing_deadline};
use crate::effect::{
    deadline_effects, deadline_reply, effects_view, gateway_overloaded_response, no_key_reply,
    no_key_response, overloaded_reply, text_reply, Effect, Exchange, Reply, ReplyView,
};
use crate::json::Json;
use crate::params::{accept_header_for_json, accepted_type};
use crate::pool::{active_slots, KeyLease};
use crate::prepare::{request_for, request_for_model};
use crate::solo::{attempt_times, times_for};
use crate::state::AppState;
use crate::stats::{record_degraded, record_of, usable, ModelRecord};
use crate::table::{merge_names, merged_names, names};
use crate::turn::{prompt_size, request_turn_summary, turn_summary};
use crate::wire::{json_parse, json_text, parse_json, print_json, reads_back};

verus! {

// ---------------------------------------------------------------------------------------
// Who races
// ---------------------------------------------------------------------------------------

/// How a race is opened.
pub enum RacePlan {
    /// The client is answered at once.
    Finish(Reply),
    /// The models are tried one after the other.
    Solo(Vec<String>),
    /// The models race.
    Race(Vec<String>),
}

/// The model of `RacePlan`.
pub enum RacePlanView {
    Finish(ReplyView),
    Solo(Seq<Seq<char>>),
    Race(Seq<Seq<char>>),
}

impl View for RacePlan {
    type V = RacePlanView;

    open spec fn view(&self) -> RacePlanView {
        match self {
            RacePlan::Finish(reply) => RacePlanView::Finish(reply@),
            RacePlan::Solo(models) => RacePlanView::Solo(names(models@)),
            RacePlan::Race(models) => RacePlanView::Race(names(models@)),
        }
    }
}

/// How many models may race, under the cap that the prompt sets.
pub open spec fn race_width(
    state: AppState,
    candidates: usize,
    cap: Option<usize>,
    now_ms: u64,
) -> usize {
    let width = parallel_for(limits_of(state), load_of(state, now_ms), candidates);
    match cap {
        Some(c) => if c < width {
            c
        } else {
            width
        },
        None => width,
    }
}

/// The plan to try models one after the other, where that is allowed and there are any; else
/// another plan.
pub open spec fn solo_or(
    state: AppState,
    models: Seq<Seq<char>>,
    other: (Seq<Effect<Seq<char>>>, RacePlanView),
) -> (Seq<Effect<Seq<char>>>, RacePlanView) {
    if state.controls.racing_solo_fallback && models.len() > 0 {
        (seq![Effect::Fanout(1)], RacePlanView::Solo(models))
    } else {
        other
    }
}

/// The plan for a request, with what is noted of it: where fewer than two models may race, or
/// fewer than two can, models are tried one after the other if that is allowed.
pub open spec fn race_plan(
    state: AppState,
    models: Seq<Seq<char>>,
    cap: Option<usize>,
    now_ms: u64,
) -> (Seq<Effect<Seq<char>>>, RacePlanView) {
    let width = race_width(state, models.len() as usize, cap, now_ms);
    let racers = candidates_for(state, rotated(models, state.racing_cursor), width);
    if width < 2 {
        solo_or(
            state,
            solo_candidates(state, models),
            if active_slots(state.pool.slots@, now_ms) == 0 {
                (seq![Effect::NoKey], RacePlanView::Finish(no_key_reply()))
            } else {
                (seq![Effect::Overload], RacePlanView::Finish(overloaded_reply()))
            },
        )
    } else if racers.len() < 2 {
        solo_or(
            state,
            merged_names(racers, solo_candidates(state, models)),
            (
                Seq::empty(),
                RacePlanView::Finish(
                    ReplyView::Text { status: 502, message: "not enough viable racing models"@ },
                ),
            ),
        )
    } else {
        (Seq::empty(), RacePlanView::Race(racers))
    }
}

/// Plans a race between models, under the cap that the prompt sets.
pub fn plan_race(state: &AppState, models: &Vec<String>, cap: Option<usize>, now_ms: u64) -> (r: (
    Vec<Effect<String>>,
    RacePlan,
))
    ensures
        (effects_view(r.0@), r.1@) == race_plan(*state, names(models@), cap, now_ms),
{
    let mut effects: Vec<Effect<String>> = Vec::new();
    let ghost v = names(models@);
    assert(v.len() == models@.len());
    let width: usize = {
        let width: usize = adaptive_racing_parallel(state, models.len(), now_ms);
        match cap {
            Some(c) => if c < width {
                c
            } else {
                width
            },
            None => width,
        }
    };
    if width < 2 {
        if state.controls.racing_solo_fallback {
            let solo: Vec<String> = solo_candidate_models(state, models);
            if solo.len() > 0 {
                assert(names(solo@).len() > 0);
                effects.push(Effect::Fanout(1));
                assert(effects_view(effects@) =~= seq![Effect::<Seq<char>>::Fanout(1)]);
                return (effects, RacePlan::Solo(solo));
            }
            assert(names(solo@).len() == 0);
        }
        let (reply, effects) = if state.pool.active_count(now_ms) == 0 {
            no_key_response()
        } else {
            gateway_overloaded_response()
        };
        return (effects, RacePlan::Finish(reply));
    }
    let order: Vec<String> = rotated_models(models, state.racing_cursor);
    let racers: Vec<String> = tiered_candidates(state, &order, width);
    assert(names(racers@).len() == racers@.len());
    if racers.len() < 2 {
        let ghost first = names(racers@);
        if state.controls.racing_solo_fallback {
            let mut solo: Vec<String> = racers;
            let more: Vec<String> = solo_candidate_models(state, models);
            merge_names(&mut solo, &more);
            if solo.len() > 0 {
                assert(names(solo@).len() > 0);
                effects.push(Effect::Fanout(1));
                assert(effects_view(effects@) =~= seq![Effect::<Seq<char>>::Fanout(1)]);
                return (effects, RacePlan::Solo(solo));
            }
            assert(names(solo@).len() == 0);
        }
        assert(effects_view(effects@) =~= Seq::empty());
        return (effects, RacePlan::Finish(text_reply(502, "not enough viable racing models")));
    }
    assert(effects_view(effects@) =~= Seq::empty());
    (effects, RacePlan::Race(racers))
}

/// Whether a state follows another by a race of `racers` out of `models` models: the next race
/// starts behind them.
pub open spec fn cursor_moved(before: AppState, after: AppState, racers: nat, models: nat) -> bool {
    after == (AppState {
        racing_cursor: ((before.racing_cursor + racers) % models as int) as usize,
        ..before
    })
}

/// Opens a race between models for the text of a request: plans it, sets the deadline of the
/// request, and moves the cursor behind the models that race.
pub fn race_models(
    state: &mut AppState,
    body: &[u8],
    models: &Vec<String>,
    now_ms: u64,
    now_ns: u128,
) -> (r: (Vec<Effect<String>>, RacePlan, Option<u128>))
    requires
        old(state).wf(),
    ensures
        final(state).wf(),
        (effects_view(r.0@), r.1@) == race_plan(
            *old(state),
            names(models@),
            cap_for(
                old(state).controls.racing_large_prompt_char_threshold,
                old(state).controls.racing_large_prompt_parallel,
                prompt_size(json_parse(body@)),
            ),
            now_ms,
        ),
        r.2 == deadline_for(old(state).controls.racing_max_total_request_ms, now_ns),
        match r.1 {
            RacePlan::Race(racers) => {
                &&& models@.len() > 0
                &&& cursor_moved(*old(state), *final(state), racers@.len(), models@.len())
            },
            _ => *final(state) == *old(state),
        },
{
    let deadline: Option<u128> = racing_deadline(
        state.controls.racing_max_total_request_ms,
        now_ns,
    );
    let cap: Option<usize> = prompt_parallel_cap(state, body);
    let (effects, plan) = plan_race(state, models, cap, now_ms);
    match &plan {
        RacePlan::Race(racers) => {
            proof {
                assert(names(racers@).len() == racers@.len());
                lemma_racers_are_models(*old(state), names(models@), cap, now_ms);
                assert(names(models@).len() == models@.len());
                vstd::arithmetic::div_mod::lemma_mod_bound(
                    old(state).racing_cursor + racers@.len(),
                    models@.len() as int,
                );
            }
            let n: u128 = models.len() as u128;
            let next: u128 = (state.racing_cursor as u128 + racers.len() as u128) % n;
            state.racing_cursor = next as usize;
        },
        _ => {},
    }
    (effects, plan, deadline)
}

/// Only models of a list that is not empty race.
proof fn lemma_racers_are_models(
    state: AppState,
    models: Seq<Seq<char>>,
    cap: Option<usize>,
    now_ms: u64,
)
    requires
        race_plan(state, models, cap, now_ms).1 is Race,
    ensures
        models.len() > 0,
{
    if models.len() == 0 {
        assert(rotated(models, state.racing_cursor).len() == 0);
    }
}

// ---------------------------------------------------------------------------------------
// Starting blocks
// ---------------------------------------------------------------------------------------

/// A model in a race.
pub struct Racer {
    pub exchange: Exchange,
    /// The text of the request, and the media type that it asks for.
    pub text: Vec<u8>,
    pub accept: &'static str,
    /// The time that the model gets, and what the deadline leaves of it.
    pub full_ms: u64,
    pub send_ms: u64,
    pub lease: KeyLease,
}

/// How many models of a race started, and why others did not.
pub struct Lineup {
    pub started: usize,
    pub skipped_no_key: usize,
    pub skipped_overloaded: usize,
}

impl Lineup {
    /// A race in which no model has started.
    pub fn new() -> (r: Lineup)
        ensures
            r == (Lineup { started: 0, skipped_no_key: 0, skipped_overloaded: 0 }),
    {
        Lineup { started: 0, skipped_no_key: 0, skipped_overloaded: 0 }
    }
}

/// A count after one more, as far as it fits.
pub open spec fn one_more(n: usize) -> usize {
    if n < usize::MAX {
        (n + 1) as usize
    } else {
        n
    }
}

/// How a model enters a race.
pub enum Entry {
    /// The deadline has passed, and the client is answered.
    Deadline(Reply),
    /// The request is JSON that takes no members, and gets no answer.
    Unanswerable,
    /// The model does not start.
    Skip,
    /// The model starts.
    Start(Racer),
}

/// What is known of a model that starts.
pub open spec fn racer_for(
    racer: Racer,
    model: Seq<char>,
    body: Seq<u8>,
    state: AppState,
    deadline_ns: Option<u128>,
    now_ms: u64,
    now_ns: u128,
) -> bool {
    &&& json_parse(body) matches Some(json) && {
        &&& racer.text@ == json_text(request_for(json, model, state))
        &&& reads_back(racer.text@, request_for(json, model, state))
        &&& racer.accept@ == accepted_type(request_for(json, model, state))
    }
    &&& racer.exchange.requested_model@ == "auto"@
    &&& racer.exchange.responding_model@ == model
    &&& racer.exchange.is_racing
    &&& (
        racer.exchange.message_count,
        racer.exchange.has_tool_calls,
        racer.exchange.tool_call_count,
    ) == turn_summary(json_parse(racer.text@))
    &&& times_for(state, model, deadline_ns, now_ns) == (racer.full_ms, Some(racer.send_ms))
    &&& leased(state, racer.lease, now_ms)
}

/// Whether a state and a line-up follow others by a model that enters a race at a time, with
/// what is noted and how it enters: with its own request, its own time and a key of its own. A
/// text that is not JSON, a full gateway and a lack of keys keep it out.
pub open spec fn entered(
    before: AppState,
    lineup: Lineup,
    model: Seq<char>,
    body: Seq<u8>,
    deadline_ns: Option<u128>,
    now_ms: u64,
    now_ns: u128,
    after: AppState,
    lineup_after: Lineup,
    effects: Seq<Effect<Seq<char>>>,
    entry: Entry,
) -> bool {
    let json = json_parse(body);
    if times_for(before, model, deadline_ns, now_ns).1 is None {
        &&& entry matches Entry::Deadline(reply) && reply@ == deadline_reply(
            before.controls.racing_max_total_request_ms,
        )
        &&& effects == deadline_effects()
        &&& after == before
        &&& lineup_after == lineup
    } else if json is None {
        &&& entry is Skip
        &&& effects == Seq::<Effect<Seq<char>>>::empty()
        &&& after == before
        &&& lineup_after == lineup
    } else if !json->Some_0.assignable() {
        &&& entry is Unanswerable
        &&& effects == Seq::<Effect<Seq<char>>>::empty()
        &&& after == before
        &&& lineup_after == lineup
    } else {
        match refusal(before, now_ms) {
            Some(GatewayAcquireError::Overloaded) => {
                &&& entry is Skip
                &&& effects == seq![Effect::<Seq<char>>::Overload]
                &&& after == before
                &&& lineup_after == (Lineup {
                    skipped_overloaded: one_more(lineup.skipped_overloaded),
                    ..lineup
                })
            },
            Some(GatewayAcquireError::NoKeys) => {
                &&& entry is Skip
                &&& effects == Seq::<Effect<Seq<char>>>::empty()
                &&& after == before
                &&& lineup_after == (Lineup {
                    skipped_no_key: one_more(lineup.skipped_no_key),
                    ..lineup
                })
            },
            None => {
                &&& entry matches Entry::Start(racer) && racer_for(
                    racer,
                    model,
                    body,
                    before,
                    deadline_ns,
                    now_ms,
                    now_ns,
                ) && admitted(before, after, racer.lease.idx as int)
                &&& effects == Seq::<Effect<Seq<char>>>::empty()
                &&& lineup_after == (Lineup { started: one_more(lineup.started), ..lineup })
            },
        }
    }
}

/// Lets a model enter a race.
pub fn enter_race(
    state: &mut AppState,
    lineup: &mut Lineup,
    model_id: &str,
    body: &[u8],
    deadline_ns: Option<u128>,
    now_ms: u64,
    now_ns: u128,
) -> (r: (Vec<Effect<String>>, Entry))
    requires
        old(state).wf(),
    ensures
        final(state).wf(),
        entered(
            *old(state),
            *old(lineup),
            model_id@,
            body@,
            deadline_ns,
            now_ms,
            now_ns,
            *final(state),
            *final(lineup),
            effects_view(r.0@),
            r.1,
        ),
{
    let mut none: Vec<Effect<String>> = Vec::new();
    assert(effects_view(none@) =~= Seq::empty());
    let (full_ms, send_ms) = match attempt_times(state, model_id, deadline_ns, now_ns) {
        Ok(times) => times,
        Err((reply, effects)) => {
            return (effects, Entry::Deadline(reply));
        },
    };
    let mut json: Json = match parse_json(body) {
        Some(json) => json,
        None => {
            return (none, Entry::Skip);
        },
    };
    if !json.is_assignable() {
        return (none, Entry::Unanswerable);
    }
    request_for_model(&mut json, model_id, state);
    let accept: &'static str = accept_header_for_json(&json);
    let text: Vec<u8> = print_json(json);
    let (message_count, has_tool_calls, tool_call_count) = request_turn_summary(text.as_slice());
    match try_acquire_gateway_permits(state, now_ms) {
        Err(GatewayAcquireError::Overloaded) => {
            lineup.skipped_overloaded = lineup.skipped_overloaded.saturating_add(1);
            none.push(Effect::Overload);
            assert(effects_view(none@) =~= seq![Effect::<Seq<char>>::Overload]);
            (none, Entry::Skip)
        },
        Err(GatewayAcquireError::NoKeys) => {
            lineup.skipped_no_key = lineup.skipped_no_key.saturating_add(1);
            (none, Entry::Skip)
        },
        Ok(lease) => {
            lineup.started = lineup.started.saturating_add(1);
            let racer: Racer = Racer {
                exchange: Exchange {
                    requested_model: "auto".to_owned(),
                    responding_model: model_id.to_owned(),
                    message_count,
                    has_tool_calls,
                    tool_call_count,
                    is_racing: true,
                },
                text,
                accept,
                full_ms,
                send_ms,
                lease,
            };
            (none, Entry::Start(racer))
        },
    }
}

/// What follows the start of a race.
pub enum RaceStart {
    /// The client is answered.
    Finish(Reply),
    /// Models are tried one after the other.
    Solo(Vec<String>),
    /// The models that started are waited for.
    Wait,
}

/// The model of `RaceStart`.
pub enum RaceStartView {
    Finish(ReplyView),
    Solo(Seq<Seq<char>>),
    Wait,
}

impl View for RaceStart {
    type V = RaceStartView;

    open spec fn view(&self) -> RaceStartView {
        match self {
            RaceStart::Finish(reply) => RaceStartView::Finish(reply@),
            RaceStart::Solo(models) => RaceStartView::Solo(names(models@)),
            RaceStart::Wait => RaceStartView::Wait,
        }
    }
}

/// What follows the start of a race, with what is noted of it. Where no model started, models
/// are tried one after the other if that is allowed; else the client is told why.
pub open spec fn race_started(
    state: AppState,
    models: Seq<Seq<char>>,
    lineup: Lineup,
) -> (Seq<Effect<Seq<char>>>, RaceStartView) {
    let solo = solo_candidates(state, models);
    if lineup.started > 0 {
        (seq![Effect::Fanout(lineup.started)], RaceStartView::Wait)
    } else if state.controls.racing_solo_fallback && solo.len() > 0 {
        (seq![Effect::Fanout(0), Effect::Fanout(1)], RaceStartView::Solo(solo))
    } else if lineup.skipped_no_key > 0 {
        (seq![Effect::Fanout(0), Effect::NoKey], RaceStartView::Finish(no_key_reply()))
    } else if lineup.skipped_overloaded > 0 {
        (seq![Effect::Fanout(0)], RaceStartView::Finish(overloaded_reply()))
    } else {
        (
            seq![Effect::Fanout(0)],
            RaceStartView::Finish(
                ReplyView::Text { status: 400, message: "no valid models to race"@ },
            ),
        )
    }
}

/// Decides what follows the start of a race.
pub fn after_start(state: &AppState, models: &Vec<String>, lineup: &Lineup) -> (r: (
    Vec<Effect<String>>,
    RaceStart,
))
    ensures
        (effects_view(r.0@), r.1@) == race_started(*state, names(models@), *lineup),
{
    let mut effects: Vec<Effect<String>> = Vec::new();
    effects.push(Effect::Fanout(lineup.started));
    assert(effects_view(effects@) =~= seq![Effect::<Seq<char>>::Fanout(lineup.started)]);
    if lineup.started > 0 {
        return (effects, RaceStart::Wait);
    }
    if state.controls.racing_solo_fallback {
        let solo: Vec<String> = solo_candidate_models(state, models);
        assert(names(solo@).len() == solo@.len());
        if solo.len() > 0 {
            effects.push(Effect::Fanout(1));
            assert(effects_view(effects@) =~= seq![
                Effect::<Seq<char>>::Fanout(0),
                Effect::<Seq<char>>::Fanout(1),
            ]);
            return (effects, RaceStart::Solo(solo));
        }
    }
    if lineup.skipped_no_key > 0 {
        effects.push(Effect::NoKey);
        assert(effects_view(effects@) =~= seq![
            Effect::<Seq<char>>::Fanout(0),
            Effect::<Seq<char>>::NoKey,
        ]);
        return (effects, RaceStart::Finish(text_reply(429, "all API keys rate-limited")));
    }
    if lineup.skipped_overloaded > 0 {
        return (effects, RaceStart::Finish(text_reply(503, "gateway overloaded; retry later")));
    }
    (effects, RaceStart::Finish(text_reply(400, "no valid models to race")))
}

/// Models take turns: where none is to be avoided and none is preferred, the models from the
/// cursor on race, and the next race starts with the model behind them.
pub proof fn law_races_take_turns(
    before: AppState,
    after: AppState,
    models: Seq<Seq<char>>,
    cap: Option<usize>,
    now_ms: u64,
)
    requires
        race_plan(before, models, cap, now_ms).1 is Race,
        models.len() <= usize::MAX,
        !before.controls.racing_adaptive || before.controls.racing_fast_models@.len() == 0,
        forall|i: int|
            0 <= i < models.len() ==> !record_degraded(
                record_of(before.model_stats.records(), #[trigger] models[i]),
                before.model_stats.spike_threshold_us,
            ),
        cursor_moved(
            before,
            after,
            race_plan(before, models, cap, now_ms).1->Race_0.len(),
            models.len(),
        ),
    ensures
        ({
            let racers = race_plan(before, models, cap, now_ms).1->Race_0;
            let n = models.len() as int;
            &&& racers.len() == race_width(before, models.len() as usize, cap, now_ms)
            &&& forall|i: int|
                0 <= i < racers.len() ==> #[trigger] racers[i] == models[(before.racing_cursor + i)
                    % n]
            &&& rotated(models, after.racing_cursor)[0] == models[(before.racing_cursor
                + racers.len()) % n]
        }),
{
    let n = models.len() as int;
    let order = rotated(models, before.racing_cursor);
    let records = before.model_stats.records();
    let threshold = before.model_stats.spike_threshold_us;
    lemma_racers_are_models(before, models, cap, now_ms);
    assert forall|i: int| 0 <= i < order.len() implies !record_degraded(
        record_of(records, #[trigger] order[i]),
        threshold,
    ) by {
        vstd::arithmetic::div_mod::lemma_mod_bound(before.racing_cursor + i, n);
        assert(order[i] == models[(before.racing_cursor + i) % n]);
    }
    lemma_all_usable(order, records, threshold);
    let width = race_width(before, models.len() as usize, cap, now_ms);
    law_racing_stays_within_limits(
        limits_of(before),
        load_of(before, now_ms),
        models.len() as usize,
    );
    assert(width <= n);
    let racers = race_plan(before, models, cap, now_ms).1->Race_0;
    assert(racers =~= order.take(width as int));
    let next = (before.racing_cursor + racers.len()) % n;
    vstd::arithmetic::div_mod::lemma_mod_bound(before.racing_cursor + racers.len(), n);
    assert(after.racing_cursor == next);
    vstd::arithmetic::div_mod::lemma_small_mod(next as nat, n as nat);
}

proof fn lemma_all_usable(
    models: Seq<Seq<char>>,
    records: Map<Seq<char>, ModelRecord>,
    threshold: u64,
)
    requires
        forall|i: int|
            0 <= i < models.len() ==> !record_degraded(
                record_of(records, #[trigger] models[i]),
                threshold,
            ),
    ensures
        usable(models, records, threshold) == models,
    decreases models.len(),
{
    if models.len() > 0 {
        let rest = models.drop_last();
        assert forall|i: int| 0 <= i < rest.len() implies !record_degraded(
            record_of(records, #[trigger] rest[i]),
            threshold,
        ) by {
            assert(rest[i] == models[i]);
        }
        lemma_all_usable(rest, records, threshold);
        assert(!record_degraded(record_of(records, models[models.len() - 1]), threshold));
        assert(rest.push(models.last()) =~= models);
    } else {
        assert(usable(models, records, threshold) =~= models);
    }
}

} // verus!
