//! The course of a race: models enter it one by one, then come in one by one.

use vstd::prelude::*;

use crate::effect::{effects_view, Effect, Reply};
use crate::race::{
    after_start, enter_race, entered, race_started, Entry, Lineup, RaceStart, RaceStartView, Racer,
};
use crate::racer::{Arrival, ArrivalView};
use crate::state::AppState;
use crate::table::names;
use crate::tally::{
    lose_race, no_tally, race_lost, tally_after, tally_of, wins, RaceEnd, RaceEndView, Tally,
};

verus! {

/// Where a race stands.
pub enum RacePhase {
    /// Models enter.
    Starting,
    /// The models that started are waited for.
    Running,
    /// It is over.
    Over,
}

/// A race between models.
pub struct RaceFlow {
    /// The text of the client's request.
    pub body: Vec<u8>,
    /// The models that could race, and those that are to race.
    pub models: Vec<String>,
    pub racers: Vec<String>,
    pub deadline_ns: Option<u128>,
    /// How many of the models that are to race had their turn to enter.
    pub entered: usize,
    pub lineup: Lineup,
    pub tally: Tally,
    pub phase: RacePhase,
}

impl RaceFlow {
    /// A race that no model has entered.
    pub fn new(
        body: Vec<u8>,
        models: Vec<String>,
        racers: Vec<String>,
        deadline_ns: Option<u128>,
    ) -> (r: RaceFlow)
        ensures
            r.wf(),
            r.body == body,
            r.models == models,
            r.racers == racers,
            r.deadline_ns == deadline_ns,
            r.entered == 0,
            r.lineup == (Lineup { started: 0, skipped_no_key: 0, skipped_overloaded: 0 }),
            r.tally@ == no_tally(),
            r.phase is Starting,
    {
        RaceFlow {
            body,
            models,
            racers,
            deadline_ns,
            entered: 0,
            lineup: Lineup::new(),
            tally: Tally::new(),
            phase: RacePhase::Starting,
        }
    }

    /// No more models had their turn to enter than are to race.
    pub open spec fn wf(&self) -> bool {
        self.entered <= self.racers@.len()
    }
}

/// What to do for a race.
pub enum RaceAction {
    /// Let the next model enter.
    Enter,
    /// Start a model, then let the next one enter.
    Start(Racer),
    /// Wait for the next model to come in.
    Wait,
    /// Answer the client, and stop the models that are still on their way.
    Finish(Reply),
    /// Try models one after the other.
    Solo(Vec<String>),
    /// The request is JSON that takes no members, and gets no answer.
    Unanswerable,
}

/// How a model enters a race, by what is to be done next.
pub open spec fn entry_of(action: RaceAction) -> Entry {
    match action {
        RaceAction::Start(racer) => Entry::Start(racer),
        RaceAction::Finish(reply) => Entry::Deadline(reply),
        RaceAction::Unanswerable => Entry::Unanswerable,
        _ => Entry::Skip,
    }
}

/// Whether a race follows another by the turn of the next model to enter, or by the start where
/// all had theirs, with what is noted and what is to be done.
pub open spec fn race_enters(
    before: RaceFlow,
    state: AppState,
    now_ms: u64,
    now_ns: u128,
    after: RaceFlow,
    state_after: AppState,
    effects: Seq<Effect<Seq<char>>>,
    action: RaceAction,
) -> bool {
    if before.entered < before.racers@.len() {
        &&& entered(
            state,
            before.lineup,
            before.racers@[before.entered as int]@,
            before.body@,
            before.deadline_ns,
            now_ms,
            now_ns,
            state_after,
            after.lineup,
            effects,
            entry_of(action),
        )
        &&& !(action is Wait) && !(action is Solo)
        &&& after == (RaceFlow {
            entered: (before.entered + 1) as usize,
            lineup: after.lineup,
            phase: if action is Finish || action is Unanswerable {
                RacePhase::Over
            } else {
                before.phase
            },
            ..before
        })
    } else {
        let (noted, start) = race_started(state, names(before.models@), before.lineup);
        &&& state_after == state
        &&& effects == noted
        &&& match start {
            RaceStartView::Finish(reply) => action matches RaceAction::Finish(r) && r@ == reply,
            RaceStartView::Solo(list) => action matches RaceAction::Solo(m) && names(m@) == list,
            RaceStartView::Wait => action is Wait,
        }
        &&& after == (RaceFlow {
            phase: if action is Wait {
                RacePhase::Running
            } else {
                RacePhase::Over
            },
            ..before
        })
    }
}

/// Lets the next model enter a race; where all had their turn, decides what follows the start.
pub fn race_enter(flow: &mut RaceFlow, state: &mut AppState, now_ms: u64, now_ns: u128) -> (r: (
    Vec<Effect<String>>,
    RaceAction,
))
    requires
        old(state).wf(),
        old(flow).wf(),
        old(flow).phase is Starting,
    ensures
        final(state).wf(),
        final(flow).wf(),
        race_enters(
            *old(flow),
            *old(state),
            now_ms,
            now_ns,
            *final(flow),
            *final(state),
            effects_view(r.0@),
            r.1,
        ),
{
    if flow.entered < flow.racers.len() {
        let (effects, entry) = enter_race(
            state,
            &mut flow.lineup,
            flow.racers[flow.entered].as_str(),
            flow.body.as_slice(),
            flow.deadline_ns,
            now_ms,
            now_ns,
        );
        flow.entered = flow.entered + 1;
        let action: RaceAction = match entry {
            Entry::Deadline(reply) => {
                flow.phase = RacePhase::Over;
                RaceAction::Finish(reply)
            },
            Entry::Unanswerable => {
                flow.phase = RacePhase::Over;
                RaceAction::Unanswerable
            },
            Entry::Skip => RaceAction::Enter,
            Entry::Start(racer) => RaceAction::Start(racer),
        };
        (effects, action)
    } else {
        let (effects, start) = after_start(state, &flow.models, &flow.lineup);
        let action: RaceAction = match start {
            RaceStart::Finish(reply) => {
                flow.phase = RacePhase::Over;
                RaceAction::Finish(reply)
            },
            RaceStart::Solo(list) => {
                flow.phase = RacePhase::Over;
                RaceAction::Solo(list)
            },
            RaceStart::Wait => {
                flow.phase = RacePhase::Running;
                RaceAction::Wait
            },
        };
        (effects, action)
    }
}

/// Whether two races are the same but for what is known of the models that came in, and where
/// they stand.
pub open spec fn same_race(before: RaceFlow, after: RaceFlow) -> bool {
    &&& after.body == before.body
    &&& after.models == before.models
    &&& after.racers == before.racers
    &&& after.deadline_ns == before.deadline_ns
    &&& after.entered == before.entered
    &&& after.lineup == before.lineup
}

/// Whether a race follows another by a model that comes in, or by none being left to come in,
/// with what is noted and what is to be done.
pub open spec fn race_arrives(
    before: RaceFlow,
    state: AppState,
    arrival: Option<ArrivalView>,
    after: RaceFlow,
    effects: Seq<Effect<Seq<char>>>,
    action: RaceAction,
) -> bool {
    &&& same_race(before, after)
    &&& match arrival {
        Some(a) => if wins(a) {
            &&& a matches ArrivalView::Answered(f) && action matches RaceAction::Finish(reply)
                && reply@ == f.reply && effects == seq![Effect::RacingWin(f.model)]
            &&& after.tally@ == before.tally@
            &&& after.phase is Over
        } else {
            &&& action is Wait
            &&& effects == (if a is Answered {
                seq![Effect::<Seq<char>>::RateLimit]
            } else {
                Seq::empty()
            })
            &&& after.tally@ == tally_after(before.tally@, a)
            &&& after.phase is Running
        },
        None => {
            let (noted, end) = race_lost(
                before.tally@,
                state,
                names(before.models@),
                names(before.racers@),
            );
            &&& effects == noted
            &&& match end {
                RaceEndView::Finish(reply) => action matches RaceAction::Finish(r) && r@ == reply,
                RaceEndView::Solo(list) => action matches RaceAction::Solo(m) && names(m@) == list,
            }
            &&& after.tally@ == before.tally@
            &&& after.phase is Over
        },
    }
}

/// Takes in a model of a race, or ends the race where none is left to come in. The first model
/// that wins is answered with.
pub fn race_arrive(flow: &mut RaceFlow, state: &AppState, arrival: Option<Arrival>) -> (r: (
    Vec<Effect<String>>,
    RaceAction,
))
    requires
        old(flow).phase is Running,
    ensures
        race_arrives(
            *old(flow),
            *state,
            match arrival {
                Some(a) => Some(a@),
                None => None,
            },
            *final(flow),
            effects_view(r.0@),
            r.1,
        ),
{
    match arrival {
        Some(arrival) => {
            let (effects, winner) = flow.tally.arrive(arrival);
            match winner {
                Some(reply) => {
                    flow.phase = RacePhase::Over;
                    (effects, RaceAction::Finish(reply))
                },
                None => (effects, RaceAction::Wait),
            }
        },
        None => {
            let (effects, end) = lose_race(&flow.tally, state, &flow.models, &flow.racers);
            flow.phase = RacePhase::Over;
            match end {
                RaceEnd::Finish(reply) => (effects, RaceAction::Finish(reply)),
                RaceEnd::Solo(list) => (effects, RaceAction::Solo(list)),
            }
        },
    }
}

/// The start of a race comes to an end: with every turn one model less is left to enter, until
/// the models that started are waited for or the race is over.
pub proof fn law_start_comes_to_an_end(
    before: RaceFlow,
    state: AppState,
    now_ms: u64,
    now_ns: u128,
    after: RaceFlow,
    state_after: AppState,
    effects: Seq<Effect<Seq<char>>>,
    action: RaceAction,
)
    requires
        before.wf(),
        before.phase is Starting,
        race_enters(before, state, now_ms, now_ns, after, state_after, effects, action),
    ensures
        after.phase is Starting ==> after.racers@.len() - after.entered < before.racers@.len()
            - before.entered,
        after.phase is Starting <==> action is Enter || action is Start,
        after.phase is Running <==> action is Wait,
        after.phase is Over <==> action is Finish || action is Solo || action is Unanswerable,
{
    assert(before.racers@.len() == before.racers.len());
}

/// Where no model wins, the race ends with what is made of all of them in the order in which
/// they came in.
pub proof fn law_every_arrival_counts(
    flows: Seq<RaceFlow>,
    arrivals: Seq<ArrivalView>,
    state: AppState,
    effects: Seq<Seq<Effect<Seq<char>>>>,
    actions: Seq<RaceAction>,
)
    requires
        flows.len() == arrivals.len() + 1,
        flows[0].tally@ == no_tally(),
        forall|i: int|
            0 <= i < arrivals.len() ==> !wins(#[trigger] arrivals[i]) && race_arrives(
                flows[i],
                state,
                Some(arrivals[i]),
                flows[i + 1],
                effects[i],
                actions[i],
            ),
    ensures
        flows.last().tally@ == tally_of(arrivals),
        same_race(flows[0], flows.last()),
    decreases arrivals.len(),
{
    if arrivals.len() > 0 {
        let rest = arrivals.drop_last();
        let n = rest.len() as int;
        assert forall|i: int| 0 <= i < rest.len() implies !wins(#[trigger] rest[i])
            && race_arrives(
            flows.drop_last()[i],
            state,
            Some(rest[i]),
            flows.drop_last()[i + 1],
            effects[i],
            actions[i],
        ) by {
            assert(rest[i] == arrivals[i]);
        }
        law_every_arrival_counts(flows.drop_last(), rest, state, effects, actions);
        assert(!wins(arrivals[n]));
        assert(flows.drop_last().last() == flows[n]);
    }
}

} // verus!
