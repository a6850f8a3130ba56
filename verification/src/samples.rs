//! The latest latencies of each model, and the latency that all but a few of them stay within.

use vstd::prelude::*;

use crate::effect::{effect_view, Effect};
use crate::table::{distinct_rows, find_row, rows, set_row};

verus! {

/// How many latencies of a model are kept.
pub const WINDOW: usize = 200;

/// The latest latencies of models, in milliseconds.
pub struct LatencySamples {
    pub entries: Vec<(String, Vec<u64>)>,
}

/// The latencies under a name.
pub open spec fn samples_of(all: Map<Seq<char>, Seq<u64>>, model: Seq<char>) -> Seq<u64> {
    if all.dom().contains(model) {
        all[model]
    } else {
        Seq::empty()
    }
}

/// Latencies after one more: the oldest leaves a full window.
pub open spec fn kept(samples: Seq<u64>, ms: u64) -> Seq<u64> {
    if samples.len() < WINDOW {
        samples.push(ms)
    } else {
        samples.drop_first().push(ms)
    }
}

/// The latencies of models after an effect.
pub open spec fn sampled(all: Map<Seq<char>, Seq<u64>>, e: Effect<Seq<char>>) -> Map<
    Seq<char>,
    Seq<u64>,
> {
    match e {
        Effect::ModelOutcome { model, latency_ms, .. } => all.insert(
            model,
            kept(samples_of(all, model), latency_ms),
        ),
        Effect::ModelQuality { model, latency_ms, .. } => all.insert(
            model,
            kept(samples_of(all, model), latency_ms),
        ),
        Effect::ModelTimeout { model, elapsed_ms, .. } => all.insert(
            model,
            kept(samples_of(all, model), elapsed_ms),
        ),
        _ => all,
    }
}

/// How many latencies are at most `ms`.
pub open spec fn count_within(samples: Seq<u64>, ms: u64) -> nat
    decreases samples.len(),
{
    if samples.len() == 0 {
        0
    } else {
        count_within(samples.drop_last(), ms) + if samples.last() <= ms {
            1nat
        } else {
            0
        }
    }
}

/// Whether at least 95 of 100 latencies are at most `ms`.
pub open spec fn holds_most(samples: Seq<u64>, ms: u64) -> bool {
    count_within(samples, ms) * 100 >= samples.len() * 95
}

/// Whether `ms` is the least of the latencies that at least 95 of 100 stay within.
pub open spec fn is_p95(samples: Seq<u64>, ms: u64) -> bool {
    &&& samples.contains(ms)
    &&& holds_most(samples, ms)
    &&& forall|i: int|
        0 <= i < samples.len() && holds_most(samples, samples[i]) ==> ms <= #[trigger] samples[i]
}

/// The models' latencies that a table stands for.
pub open spec fn latencies(entries: Seq<(String, Vec<u64>)>) -> Map<Seq<char>, Seq<u64>> {
    rows(entries).map_values(|v: Vec<u64>| v@)
}

impl View for LatencySamples {
    type V = Map<Seq<char>, Seq<u64>>;

    open spec fn view(&self) -> Map<Seq<char>, Seq<u64>> {
        latencies(self.entries@)
    }
}

fn count_samples(samples: &Vec<u64>, ms: u64) -> (r: usize)
    ensures
        r == count_within(samples@, ms),
        r <= samples@.len(),
{
    let mut count: usize = 0;
    let mut i: usize = 0;
    assert(samples@.take(0) =~= Seq::empty());
    while i < samples.len()
        invariant
            i <= samples@.len(),
            count <= i,
            count == count_within(samples@.take(i as int), ms),
        decreases samples@.len() - i,
    {
        assert(samples@.take(i + 1).drop_last() =~= samples@.take(i as int));
        if samples[i] <= ms {
            count = count + 1;
        }
        i = i + 1;
    }
    assert(samples@.take(samples@.len() as int) =~= samples@);
    count
}

proof fn lemma_largest_holds_all(samples: Seq<u64>, ms: u64)
    requires
        forall|i: int| 0 <= i < samples.len() ==> #[trigger] samples[i] <= ms,
    ensures
        count_within(samples, ms) == samples.len(),
    decreases samples.len(),
{
    if samples.len() > 0 {
        let rest = samples.drop_last();
        assert forall|i: int| 0 <= i < rest.len() implies #[trigger] rest[i] <= ms by {
            assert(samples[i] <= ms);
        }
        assert(samples[samples.len() - 1] <= ms);
        lemma_largest_holds_all(rest, ms);
    }
}

/// Finds the least of some latencies that at least 95 of 100 stay within.
pub fn p95_of(samples: &Vec<u64>) -> (r: Option<u64>)
    ensures
        match r {
            Some(ms) => is_p95(samples@, ms),
            None => samples@.len() == 0,
        },
{
    if samples.len() == 0 {
        return None;
    }
    let mut best: u64 = samples[0];
    let mut i: usize = 1;
    while i < samples.len()
        invariant
            1 <= i <= samples@.len(),
            samples@.contains(best),
            forall|k: int| 0 <= k < i ==> #[trigger] samples@[k] <= best,
        decreases samples@.len() - i,
    {
        if samples[i] > best {
            best = samples[i];
            assert(samples@[i as int] == best);
        }
        i = i + 1;
    }
    proof {
        lemma_largest_holds_all(samples@, best);
    }
    let mut i: usize = 0;
    while i < samples.len()
        invariant
            i <= samples@.len(),
            samples@.contains(best),
            holds_most(samples@, best),
            forall|k: int|
                0 <= k < i && holds_most(samples@, samples@[k]) ==> best <= #[trigger] samples@[k],
        decreases samples@.len() - i,
    {
        let ms: u64 = samples[i];
        let within: usize = count_samples(samples, ms);
        if within as u128 * 100 >= samples.len() as u128 * 95 && ms < best {
            best = ms;
            assert(samples@[i as int] == best);
        }
        i = i + 1;
    }
    Some(best)
}

impl LatencySamples {
    /// Whether every model has one list of latencies at most.
    pub open spec fn wf(self) -> bool {
        distinct_rows(self.entries@)
    }

    /// No latencies.
    pub fn new() -> (r: LatencySamples)
        ensures
            r.wf(),
            r@ == Map::<Seq<char>, Seq<u64>>::empty(),
    {
        let r: LatencySamples = LatencySamples { entries: Vec::new() };
        assert(r@ =~= Map::empty());
        r
    }

    /// Keeps a latency of a model.
    pub fn keep(&mut self, model: &str, ms: u64)
        ensures
            final(self)@ == old(self)@.insert(model@, kept(samples_of(old(self)@, model@), ms)),
            old(self).wf() ==> final(self).wf(),
    {
        let ghost before = self.entries@;
        let mut list: Vec<u64> = match find_row(&self.entries, model) {
            Some(list) => list.clone(),
            None => Vec::new(),
        };
        assert(list@ =~= samples_of(self@, model@));
        if list.len() >= WINDOW {
            let _ = list.remove(0);
            assert(list@ =~= samples_of(self@, model@).drop_first());
        }
        list.push(ms);
        set_row(&mut self.entries, model, list);
        assert(self@ =~= latencies(before).insert(model@, list@));
    }

    /// Keeps the latency that an effect tells of.
    pub fn note(&mut self, effect: &Effect<String>)
        ensures
            final(self)@ == sampled(old(self)@, effect_view(*effect)),
            old(self).wf() ==> final(self).wf(),
    {
        match effect {
            Effect::ModelOutcome { model, latency_ms, .. } => {
                self.keep(model.as_str(), *latency_ms);
            },
            Effect::ModelQuality { model, latency_ms, .. } => {
                self.keep(model.as_str(), *latency_ms);
            },
            Effect::ModelTimeout { model, elapsed_ms, .. } => {
                self.keep(model.as_str(), *elapsed_ms);
            },
            _ => {},
        }
    }

    /// The least of a model's latencies that at least 95 of 100 stay within.
    pub fn p95(&self, model: &str) -> (r: Option<u64>)
        ensures
            match r {
                Some(ms) => is_p95(samples_of(self@, model@), ms),
                None => samples_of(self@, model@).len() == 0,
            },
    {
        match find_row(&self.entries, model) {
            Some(list) => p95_of(list),
            None => None,
        }
    }
}

/// A window never grows beyond its size, and ends with the latest latency.
pub proof fn law_window_is_bounded(samples: Seq<u64>, ms: u64)
    requires
        samples.len() <= WINDOW,
    ensures
        kept(samples, ms).len() <= WINDOW,
        kept(samples, ms).last() == ms,
{
}

} // verus!
