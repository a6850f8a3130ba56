//! The outcome of a race: the first answer that counts, or what is made of the failures.

use vstd::prelude::*;
use vstd::string::*;

use crate::candidates::{solo_candidate_models, solo_candidates};
use crate::effect::{effects_view, text_reply, Effect, Reply, ReplyView};
use crate::number::{decimal, decimal_string};
use crate::racer::{Arrival, ArrivalView};
use crate::state::AppState;
use crate::table::{has_name, lemma_names_push, names};
use crate::text::{contains, has_text};
use crate::upstream::{is_transient_race_error, transient_race_error};

verus! {

/// What is known of the models that came in without winning.
pub struct Tally {
    pub last_error: Option<String>,
    /// The keys that were turned away, and the seconds that each has to pause.
    pub turned_away: Vec<(usize, u64)>,
    pub other_failure: bool,
    pub transient_failure: bool,
}

/// The model of `Tally`.
pub struct TallyView {
    pub last_error: Option<Seq<char>>,
    pub turned_away: Seq<(usize, u64)>,
    pub other_failure: bool,
    pub transient_failure: bool,
}

impl View for Tally {
    type V = TallyView;

    open spec fn view(&self) -> TallyView {
        TallyView {
            last_error: match self.last_error {
                Some(e) => Some(e@),
                None => None,
            },
            turned_away: self.turned_away@,
            other_failure: self.other_failure,
            transient_failure: self.transient_failure,
        }
    }
}

/// The tally before any model came in.
pub open spec fn no_tally() -> TallyView {
    TallyView {
        last_error: None,
        turned_away: Seq::empty(),
        other_failure: false,
        transient_failure: false,
    }
}

/// Whether a model that comes in wins: its answer is anything but that its key was turned
/// away.
pub open spec fn wins(a: ArrivalView) -> bool {
    a matches ArrivalView::Answered(f) && f.status != 429
}

/// Whether a model comes in with the answer that its key was turned away.
pub open spec fn key_turned_away(a: ArrivalView) -> bool {
    a matches ArrivalView::Answered(f) && f.status == 429
}

/// What is said of a key that was turned away.
pub open spec fn turned_away_message(key: usize) -> Seq<char> {
    "429 rate-limited (key "@ + decimal(key as nat) + ")"@
}

/// The tally after a model came in without winning.
pub open spec fn tally_after(t: TallyView, a: ArrivalView) -> TallyView {
    match a {
        ArrivalView::Answered(f) => TallyView {
            last_error: Some(turned_away_message(f.key)),
            turned_away: t.turned_away.push((f.key, f.retry_after_secs)),
            ..t
        },
        ArrivalView::Out(reason) => TallyView {
            last_error: Some(reason),
            other_failure: true,
            transient_failure: t.transient_failure || transient_race_error(reason),
            ..t
        },
        ArrivalView::Crashed(message) => TallyView {
            last_error: Some(message),
            other_failure: true,
            transient_failure: true,
            ..t
        },
    }
}

/// The tally after models came in, none of which won.
pub open spec fn tally_of(arrivals: Seq<ArrivalView>) -> TallyView
    decreases arrivals.len(),
{
    if arrivals.len() == 0 {
        no_tally()
    } else {
        tally_after(tally_of(arrivals.drop_last()), arrivals.last())
    }
}

impl Tally {
    /// A tally before any model came in.
    pub fn new() -> (r: Tally)
        ensures
            r@ == no_tally(),
    {
        Tally {
            last_error: None,
            turned_away: Vec::new(),
            other_failure: false,
            transient_failure: false,
        }
    }

    /// Takes in a model. The first that wins is answered with, and the tally stays; any other
    /// is added to the tally.
    pub fn arrive(&mut self, arrival: Arrival) -> (r: (Vec<Effect<String>>, Option<Reply>))
        ensures
            if wins(arrival@) {
                &&& final(self)@ == old(self)@
                &&& arrival@ matches ArrivalView::Answered(f) && r.1 matches Some(reply)
                    && reply@ == f.reply && effects_view(r.0@) == seq![Effect::RacingWin(f.model)]
            } else {
                &&& final(self)@ == tally_after(old(self)@, arrival@)
                &&& r.1 is None
                &&& effects_view(r.0@) == (if arrival@ is Answered {
                    seq![Effect::<Seq<char>>::RateLimit]
                } else {
                    Seq::empty()
                })
            },
    {
        let mut effects: Vec<Effect<String>> = Vec::new();
        match arrival {
            Arrival::Answered(f) => {
                if f.status == 429 {
                    effects.push(Effect::RateLimit);
                    assert(effects_view(effects@) =~= seq![Effect::<Seq<char>>::RateLimit]);
                    let mut message: String = "429 rate-limited (key ".to_owned();
                    message.append(decimal_string(f.key as u64).as_str());
                    message.append(")");
                    self.turned_away.push((f.key, f.retry_after_secs));
                    self.last_error = Some(message);
                    (effects, None)
                } else {
                    effects.push(Effect::RacingWin(f.model));
                    assert(effects_view(effects@) =~= seq![Effect::RacingWin(f.model@)]);
                    (effects, Some(f.reply))
                }
            },
            Arrival::Out(reason) => {
                assert(effects_view(effects@) =~= Seq::empty());
                self.other_failure = true;
                if is_transient_race_error(reason.as_str()) {
                    self.transient_failure = true;
                }
                self.last_error = Some(reason);
                (effects, None)
            },
            Arrival::Crashed(message) => {
                assert(effects_view(effects@) =~= Seq::empty());
                self.other_failure = true;
                self.transient_failure = true;
                self.last_error = Some(message);
                (effects, None)
            },
        }
    }
}

// ---------------------------------------------------------------------------------------
// No winner
// ---------------------------------------------------------------------------------------

/// What follows a race without a winner.
pub enum RaceEnd {
    /// The client is answered.
    Finish(Reply),
    /// Models are tried one after the other.
    Solo(Vec<String>),
}

/// The model of `RaceEnd`.
pub enum RaceEndView {
    Finish(ReplyView),
    Solo(Seq<Seq<char>>),
}

impl View for RaceEnd {
    type V = RaceEndView;

    open spec fn view(&self) -> RaceEndView {
        match self {
            RaceEnd::Finish(reply) => RaceEndView::Finish(reply@),
            RaceEnd::Solo(models) => RaceEndView::Solo(names(models@)),
        }
    }
}

/// The models of a list that are not in another.
pub open spec fn not_among(models: Seq<Seq<char>>, list: Seq<Seq<char>>) -> Seq<Seq<char>>
    decreases models.len(),
{
    if models.len() == 0 {
        Seq::empty()
    } else {
        let before = not_among(models.drop_last(), list);
        if list.contains(models.last()) {
            before
        } else {
            before.push(models.last())
        }
    }
}

fn leave_out(models: &Vec<String>, list: &Vec<String>) -> (r: Vec<String>)
    ensures
        names(r@) == not_among(names(models@), names(list@)),
{
    let ghost v = names(models@);
    let ghost l = names(list@);
    let mut out: Vec<String> = Vec::new();
    let mut i: usize = 0;
    assert(v.take(0) =~= Seq::empty());
    assert(names(out@) =~= Seq::empty());
    while i < models.len()
        invariant
            v == names(models@),
            l == names(list@),
            i <= models@.len(),
            names(out@) == not_among(v.take(i as int), l),
        decreases models@.len() - i,
    {
        assert(v.take(i + 1).drop_last() =~= v.take(i as int));
        if !has_name(list, models[i].as_str()) {
            let name: String = models[i].clone();
            proof {
                lemma_names_push(out@, name);
            }
            out.push(name);
        }
        i = i + 1;
    }
    assert(v.take(v.len() as int) =~= v);
    out
}

/// The models to try after a race: those that did not race, or all if each did.
pub open spec fn second_chance(
    state: AppState,
    models: Seq<Seq<char>>,
    raced: Seq<Seq<char>>,
) -> Seq<Seq<char>> {
    let solo = solo_candidates(state, models);
    if not_among(solo, raced).len() > 0 {
        not_among(solo, raced)
    } else {
        solo
    }
}

/// The pauses of the keys that were turned away.
pub open spec fn pauses(turned_away: Seq<(usize, u64)>) -> Seq<Effect<Seq<char>>> {
    turned_away.map_values(
        |k: (usize, u64)| Effect::<Seq<char>>::KeyRateLimited { key: k.0, secs: k.1 },
    )
}

/// What the client is answered after a race without a winner.
pub open spec fn failure_reply(t: TallyView) -> ReplyView {
    match t.last_error {
        Some(e) => if has_text(e, "429 rate-limited"@) && !t.other_failure {
            ReplyView::Text { status: 429, message: "all racing requests rate-limited"@ }
        } else {
            ReplyView::Text { status: 502, message: e }
        },
        None => ReplyView::Text { status: 502, message: "all racing models failed"@ },
    }
}

/// What is noted, and what follows, after a race without a winner. The keys that were turned
/// away pause. Where a failure may not happen again, models are tried one after the other if
/// that is allowed; else the client is told the last failure.
pub open spec fn race_lost(
    t: TallyView,
    state: AppState,
    models: Seq<Seq<char>>,
    raced: Seq<Seq<char>>,
) -> (Seq<Effect<Seq<char>>>, RaceEndView) {
    let failed: Seq<Effect<Seq<char>>> = if t.other_failure {
        seq![Effect::AllRacersFailed]
    } else {
        Seq::empty()
    };
    let noted = pauses(t.turned_away) + failed;
    let chance = second_chance(state, models, raced);
    if state.controls.racing_solo_fallback && t.transient_failure && chance.len() > 0 {
        (noted.push(Effect::Fanout(1)), RaceEndView::Solo(chance))
    } else {
        (noted, RaceEndView::Finish(failure_reply(t)))
    }
}

fn note_pauses(turned_away: &Vec<(usize, u64)>) -> (r: Vec<Effect<String>>)
    ensures
        effects_view(r@) == pauses(turned_away@),
{
    let ghost all = pauses(turned_away@);
    let mut effects: Vec<Effect<String>> = Vec::new();
    let mut i: usize = 0;
    assert(effects_view(effects@) =~= all.take(0));
    while i < turned_away.len()
        invariant
            i <= turned_away@.len(),
            all == pauses(turned_away@),
            effects_view(effects@) == all.take(i as int),
        decreases turned_away@.len() - i,
    {
        let ghost done = effects@;
        let (key, secs) = turned_away[i];
        effects.push(Effect::KeyRateLimited { key, secs });
        assert(effects_view(effects@) =~= effects_view(done).push(all[i as int]));
        assert(all.take(i + 1) =~= all.take(i as int).push(all[i as int]));
        i = i + 1;
    }
    assert(all.take(all.len() as int) =~= all);
    effects
}

/// Ends a race without a winner.
pub fn lose_race(tally: &Tally, state: &AppState, models: &Vec<String>, raced: &Vec<String>) -> (r:
    (Vec<Effect<String>>, RaceEnd))
    ensures
        (effects_view(r.0@), r.1@) == race_lost(
            tally@,
            *state,
            names(models@),
            names(raced@),
        ),
{
    let mut effects: Vec<Effect<String>> = note_pauses(&tally.turned_away);
    let ghost first = effects_view(effects@);
    if tally.other_failure {
        effects.push(Effect::AllRacersFailed);
        assert(effects_view(effects@) =~= first + seq![Effect::<Seq<char>>::AllRacersFailed]);
    } else {
        assert(first + Seq::<Effect<Seq<char>>>::empty() =~= first);
    }
    if state.controls.racing_solo_fallback && tally.transient_failure {
        let solo: Vec<String> = solo_candidate_models(state, models);
        let others: Vec<String> = leave_out(&solo, raced);
        assert(names(others@).len() == others@.len());
        assert(names(solo@).len() == solo@.len());
        let chance: Vec<String> = if others.len() > 0 {
            others
        } else {
            solo
        };
        if chance.len() > 0 {
            let ghost done = effects@;
            effects.push(Effect::Fanout(1));
            assert(effects_view(effects@) =~= effects_view(done).push(
                Effect::<Seq<char>>::Fanout(1),
            ));
            return (effects, RaceEnd::Solo(chance));
        }
    }
    let reply: Reply = match &tally.last_error {
        Some(e) => if contains(e.as_str(), "429 rate-limited") && !tally.other_failure {
            text_reply(429, "all racing requests rate-limited")
        } else {
            text_reply(502, e.as_str())
        },
        None => text_reply(502, "all racing models failed"),
    };
    (effects, RaceEnd::Finish(reply))
}

/// Where every model that came in was turned away for its key, the client is told just that,
/// every such key pauses, and no models are tried after the race.
pub proof fn law_only_turned_away(
    arrivals: Seq<ArrivalView>,
    state: AppState,
    models: Seq<Seq<char>>,
    raced: Seq<Seq<char>>,
)
    requires
        arrivals.len() > 0,
        forall|i: int|
            0 <= i < arrivals.len() ==> key_turned_away(#[trigger] arrivals[i]),
    ensures
        race_lost(tally_of(arrivals), state, models, raced).1 == RaceEndView::Finish(
            ReplyView::Text { status: 429, message: "all racing requests rate-limited"@ },
        ),
        race_lost(tally_of(arrivals), state, models, raced).0 == Seq::new(
            arrivals.len(),
            |i: int|
                Effect::<Seq<char>>::KeyRateLimited {
                    key: arrivals[i]->Answered_0.key,
                    secs: arrivals[i]->Answered_0.retry_after_secs,
                },
        ),
{
    lemma_tally_turned_away(arrivals);
    let t = tally_of(arrivals);
    let key = arrivals.last()->Answered_0.key;
    let e = turned_away_message(key);
    reveal_strlit("429 rate-limited");
    reveal_strlit("429 rate-limited (key ");
    assert(e.subrange(0, 16) =~= "429 rate-limited"@);
    assert(crate::text::occurs_at(e, "429 rate-limited"@, 0));
    assert(race_lost(t, state, models, raced).0 =~= Seq::new(
        arrivals.len(),
        |i: int|
            Effect::<Seq<char>>::KeyRateLimited {
                key: arrivals[i]->Answered_0.key,
                secs: arrivals[i]->Answered_0.retry_after_secs,
            },
    ));
}

proof fn lemma_tally_turned_away(arrivals: Seq<ArrivalView>)
    requires
        forall|i: int|
            0 <= i < arrivals.len() ==> key_turned_away(#[trigger] arrivals[i]),
    ensures
        !tally_of(arrivals).other_failure,
        !tally_of(arrivals).transient_failure,
        arrivals.len() > 0 ==> tally_of(arrivals).last_error == Some(
            turned_away_message(arrivals.last()->Answered_0.key),
        ),
        tally_of(arrivals).turned_away == Seq::new(
            arrivals.len(),
            |i: int|
                (arrivals[i]->Answered_0.key, arrivals[i]->Answered_0.retry_after_secs),
        ),
    decreases arrivals.len(),
{
    let f = |i: int| (arrivals[i]->Answered_0.key, arrivals[i]->Answered_0.retry_after_secs);
    if arrivals.len() > 0 {
        let rest = arrivals.drop_last();
        assert forall|i: int| 0 <= i < rest.len() implies key_turned_away(#[trigger] rest[i]) by {
            assert(rest[i] == arrivals[i]);
        }
        lemma_tally_turned_away(rest);
        assert(tally_of(arrivals).turned_away =~= Seq::new(arrivals.len(), f));
    } else {
        assert(tally_of(arrivals).turned_away =~= Seq::new(arrivals.len(), f));
    }
}

/// After a race in which some model failed otherwise than by its key being turned away, and
/// no models are tried after it, the answer is 502 with the last failure as its text.
pub proof fn law_last_failure_is_told(
    arrivals: Seq<ArrivalView>,
    state: AppState,
    models: Seq<Seq<char>>,
    raced: Seq<Seq<char>>,
    k: int,
)
    requires
        0 <= k < arrivals.len(),
        !(arrivals[k] is Answered),
        !state.controls.racing_solo_fallback,
    ensures
        race_lost(tally_of(arrivals), state, models, raced).1 == RaceEndView::Finish(
            ReplyView::Text {
                status: 502,
                message: match arrivals.last() {
                    ArrivalView::Answered(f) => turned_away_message(f.key),
                    ArrivalView::Out(reason) => reason,
                    ArrivalView::Crashed(message) => message,
                },
            },
        ),
{
    lemma_other_failure_stays(arrivals, k);
}

proof fn lemma_other_failure_stays(arrivals: Seq<ArrivalView>, k: int)
    requires
        0 <= k < arrivals.len(),
        !(arrivals[k] is Answered),
    ensures
        tally_of(arrivals).other_failure,
    decreases arrivals.len(),
{
    if k < arrivals.len() - 1 {
        lemma_other_failure_stays(arrivals.drop_last(), k);
    }
}

} // verus!
