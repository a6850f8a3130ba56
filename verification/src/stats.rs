//! What the gateway remembers of each model's latency and failures, and the choice of models
//! that follows from it.

use vstd::prelude::*;

use crate::table::{
    distinct_rows, find_row, lemma_names_push, names, row_names, rows, set_row, with_name,
};

verus! {

/// The number of samples from which on an average counts.
pub const SPIKE_SAMPLES: u64 = 3;

/// What is remembered of a model. Latencies are milliseconds.
#[derive(Clone, Copy)]
pub struct ModelRecord {
    pub total: u64,
    pub success: u64,
    pub consecutive_failures: u64,
    pub sample_count: u64,
    pub latency_sum_ms: u64,
    pub blocked: bool,
}

/// The record of a model that was never used.
pub open spec fn unused_record() -> ModelRecord {
    ModelRecord {
        total: 0,
        success: 0,
        consecutive_failures: 0,
        sample_count: 0,
        latency_sum_ms: 0,
        blocked: false,
    }
}

/// A sum, as far as it fits.
pub open spec fn sum_up_to(a: u64, b: u64) -> u64 {
    if a + b <= u64::MAX {
        (a + b) as u64
    } else {
        u64::MAX
    }
}

/// A record after one more request. A success lifts the block.
pub open spec fn record_after(r: ModelRecord, latency_ms: u64, ok: bool) -> ModelRecord {
    ModelRecord {
        total: sum_up_to(r.total, 1),
        success: if ok {
            sum_up_to(r.success, 1)
        } else {
            r.success
        },
        consecutive_failures: if ok {
            0
        } else {
            sum_up_to(r.consecutive_failures, 1)
        },
        sample_count: sum_up_to(r.sample_count, 1),
        latency_sum_ms: sum_up_to(r.latency_sum_ms, latency_ms),
        blocked: r.blocked && !ok,
    }
}

/// A record after the model was blocked.
pub open spec fn record_blocked(r: ModelRecord) -> ModelRecord {
    ModelRecord { blocked: true, ..r }
}

/// Whether a model is to be avoided: it is blocked, or its average latency is above a
/// threshold in microseconds.
pub open spec fn record_degraded(r: ModelRecord, spike_threshold_us: u64) -> bool {
    r.blocked || (r.sample_count >= SPIKE_SAMPLES && r.latency_sum_ms * 1000 > spike_threshold_us
        * r.sample_count)
}

fn is_degraded(r: &ModelRecord, spike_threshold_us: u64) -> (d: bool)
    ensures
        d == record_degraded(*r, spike_threshold_us),
{
    assert(spike_threshold_us * r.sample_count <= u64::MAX * u64::MAX) by (nonlinear_arith)
        requires
            spike_threshold_us <= u64::MAX,
            r.sample_count <= u64::MAX,
    ;
    assert(0 <= spike_threshold_us * r.sample_count) by (nonlinear_arith)
        requires
            0 <= spike_threshold_us,
            0 <= r.sample_count,
    ;
    r.blocked || (r.sample_count >= SPIKE_SAMPLES && r.latency_sum_ms as u128 * 1000
        > spike_threshold_us as u128 * r.sample_count as u128)
}

/// Milliseconds in microseconds, as far as they fit.
pub open spec fn in_micros(ms: u64) -> u64 {
    if ms * 1000 <= u64::MAX {
        (ms * 1000) as u64
    } else {
        u64::MAX
    }
}

/// What is remembered of all models.
pub struct ModelStatsStore {
    pub entries: Vec<(String, ModelRecord)>,
    /// The average latency above which a model is avoided, in microseconds.
    pub spike_threshold_us: u64,
}

/// What is shown of a model.
pub struct ModelSnapshot {
    pub id: String,
    pub record: ModelRecord,
    pub degraded: bool,
}

/// The record under a name.
pub open spec fn record_of(records: Map<Seq<char>, ModelRecord>, model: Seq<char>) -> ModelRecord {
    if records.dom().contains(model) {
        records[model]
    } else {
        unused_record()
    }
}

/// The models of a list that are not to be avoided, in order.
pub open spec fn usable(
    models: Seq<Seq<char>>,
    records: Map<Seq<char>, ModelRecord>,
    spike_threshold_us: u64,
) -> Seq<Seq<char>>
    decreases models.len(),
{
    if models.len() == 0 {
        Seq::empty()
    } else {
        let before = usable(models.drop_last(), records, spike_threshold_us);
        if record_degraded(record_of(records, models.last()), spike_threshold_us) {
            before
        } else {
            before.push(models.last())
        }
    }
}

/// The first `n` of a list, or all.
pub open spec fn first_of(models: Seq<Seq<char>>, n: usize) -> Seq<Seq<char>> {
    if models.len() <= n {
        models
    } else {
        models.take(n as int)
    }
}

impl ModelStatsStore {
    /// The records by name.
    pub open spec fn records(self) -> Map<Seq<char>, ModelRecord> {
        rows(self.entries@)
    }

    /// The models that have a record, in the order in which they were first used.
    pub open spec fn known(self) -> Seq<Seq<char>> {
        row_names(self.entries@)
    }

    /// Whether every model has one record at most.
    pub open spec fn wf(self) -> bool {
        distinct_rows(self.entries@)
    }

    /// A store without records, with a threshold in milliseconds.
    pub fn new(spike_threshold_ms: u64) -> (r: ModelStatsStore)
        ensures
            r.wf(),
            r.records() == Map::<Seq<char>, ModelRecord>::empty(),
            r.known() == Seq::<Seq<char>>::empty(),
            r.spike_threshold_us == in_micros(spike_threshold_ms),
    {
        let spike_threshold_us: u64 = if spike_threshold_ms <= u64::MAX / 1000 {
            spike_threshold_ms * 1000
        } else {
            u64::MAX
        };
        ModelStatsStore::with_threshold_us(spike_threshold_us)
    }

    /// A store without records, with a threshold in microseconds.
    pub fn with_threshold_us(spike_threshold_us: u64) -> (r: ModelStatsStore)
        ensures
            r.wf(),
            r.records() == Map::<Seq<char>, ModelRecord>::empty(),
            r.known() == Seq::<Seq<char>>::empty(),
            r.spike_threshold_us == spike_threshold_us,
    {
        ModelStatsStore { entries: Vec::new(), spike_threshold_us }
    }

    /// The record of a model.
    pub fn get(&self, model: &str) -> (r: ModelRecord)
        ensures
            r == record_of(self.records(), model@),
    {
        match find_row(&self.entries, model) {
            Some(record) => *record,
            None => ModelRecord {
                total: 0,
                success: 0,
                consecutive_failures: 0,
                sample_count: 0,
                latency_sum_ms: 0,
                blocked: false,
            },
        }
    }

    fn set(&mut self, model: &str, record: ModelRecord)
        ensures
            final(self).records() == old(self).records().insert(model@, record),
            final(self).known() == with_name(old(self).known(), model@),
            old(self).wf() ==> final(self).wf(),
            final(self).spike_threshold_us == old(self).spike_threshold_us,
    {
        set_row(&mut self.entries, model, record);
    }

    /// Remembers the outcome of a request.
    pub fn record(&mut self, model: &str, latency_ms: u64, ok: bool)
        ensures
            final(self).records() == old(self).records().insert(
                model@,
                record_after(record_of(old(self).records(), model@), latency_ms, ok),
            ),
            final(self).known() == with_name(old(self).known(), model@),
            old(self).wf() ==> final(self).wf(),
            final(self).spike_threshold_us == old(self).spike_threshold_us,
    {
        let r: ModelRecord = self.get(model);
        let next: ModelRecord = ModelRecord {
            total: r.total.saturating_add(1),
            success: if ok {
                r.success.saturating_add(1)
            } else {
                r.success
            },
            consecutive_failures: if ok {
                0
            } else {
                r.consecutive_failures.saturating_add(1)
            },
            sample_count: r.sample_count.saturating_add(1),
            latency_sum_ms: r.latency_sum_ms.saturating_add(latency_ms),
            blocked: r.blocked && !ok,
        };
        self.set(model, next);
    }

    /// Remembers that a model cannot be used for now.
    pub fn block(&mut self, model: &str)
        ensures
            final(self).records() == old(self).records().insert(
                model@,
                record_blocked(record_of(old(self).records(), model@)),
            ),
            final(self).known() == with_name(old(self).known(), model@),
            old(self).wf() ==> final(self).wf(),
            final(self).spike_threshold_us == old(self).spike_threshold_us,
    {
        let r: ModelRecord = self.get(model);
        self.set(model, ModelRecord { blocked: true, ..r });
    }

    /// Whether a model is to be avoided.
    pub fn degraded(&self, model: &str) -> (r: bool)
        ensures
            r == record_degraded(record_of(self.records(), model@), self.spike_threshold_us),
    {
        let m: ModelRecord = self.get(model);
        is_degraded(&m, self.spike_threshold_us)
    }

    /// What is shown of every model, in the order in which they were first used.
    pub fn snapshot(&self) -> (r: Vec<ModelSnapshot>)
        ensures
            r@.len() == self.known().len(),
            forall|i: int|
                0 <= i < r@.len() ==> {
                    &&& (#[trigger] r@[i]).id@ == self.known()[i]
                    &&& r@[i].record == self.entries@[i].1
                    &&& r@[i].degraded == record_degraded(
                        self.entries@[i].1,
                        self.spike_threshold_us,
                    )
                },
    {
        let mut out: Vec<ModelSnapshot> = Vec::new();
        let mut i: usize = 0;
        while i < self.entries.len()
            invariant
                i <= self.entries@.len(),
                out@.len() == i,
                forall|k: int|
                    0 <= k < i ==> {
                        &&& (#[trigger] out@[k]).id@ == self.entries@[k].0@
                        &&& out@[k].record == self.entries@[k].1
                        &&& out@[k].degraded == record_degraded(
                            self.entries@[k].1,
                            self.spike_threshold_us,
                        )
                    },
            decreases self.entries@.len() - i,
        {
            let m: ModelRecord = self.entries[i].1;
            let degraded: bool = is_degraded(&m, self.spike_threshold_us);
            out.push(ModelSnapshot { id: self.entries[i].0.clone(), record: m, degraded });
            i = i + 1;
        }
        assert forall|k: int| 0 <= k < out@.len() implies (#[trigger] out@[k]).id@
            == self.known()[k] by {
            assert(self.known()[k] == self.entries@[k].0@);
        }
        out
    }

    fn keep_usable(&self, models: &Vec<String>, out: &mut Vec<String>)
        ensures
            names(final(out)@) == names(old(out)@) + usable(
                names(models@),
                self.records(),
                self.spike_threshold_us,
            ),
    {
        let ghost v = names(models@);
        let ghost start = names(out@);
        let mut i: usize = 0;
        assert(v.take(0) =~= Seq::empty());
        assert(start + Seq::<Seq<char>>::empty() =~= start);
        while i < models.len()
            invariant
                v == names(models@),
                i <= models@.len(),
                names(out@) == start + usable(
                    v.take(i as int),
                    self.records(),
                    self.spike_threshold_us,
                ),
            decreases models@.len() - i,
        {
            assert(v.take(i + 1).drop_last() =~= v.take(i as int));
            let ghost so_far = usable(v.take(i as int), self.records(), self.spike_threshold_us);
            if !self.degraded(models[i].as_str()) {
                let name: String = models[i].clone();
                proof {
                    lemma_names_push(out@, name);
                    assert(start + so_far.push(name@) =~= (start + so_far).push(name@));
                }
                out.push(name);
            }
            i = i + 1;
        }
        assert(v.take(v.len() as int) =~= v);
    }

    /// The models of a list to send a request to: those that are not to be avoided, in order,
    /// at most `max_parallel`.
    pub fn racing_candidates(&self, models: &Vec<String>, max_parallel: usize) -> (r: Vec<String>)
        ensures
            names(r@) == first_of(
                usable(names(models@), self.records(), self.spike_threshold_us),
                max_parallel,
            ),
    {
        let mut out: Vec<String> = Vec::new();
        assert(names(out@) =~= Seq::empty());
        self.keep_usable(models, &mut out);
        let ghost all = names(out@);
        assert(all =~= usable(names(models@), self.records(), self.spike_threshold_us));
        if out.len() > max_parallel {
            out.truncate(max_parallel);
            assert(names(out@) =~= all.take(max_parallel as int));
        }
        out
    }

    /// The models of two lists to send a request to, the first list preferred.
    pub fn racing_candidates_tiered(
        &self,
        fast: &Vec<String>,
        fallback: &Vec<String>,
        max_parallel: usize,
    ) -> (r: Vec<String>)
        ensures
            names(r@) == first_of(
                usable(names(fast@), self.records(), self.spike_threshold_us) + usable(
                    names(fallback@),
                    self.records(),
                    self.spike_threshold_us,
                ),
                max_parallel,
            ),
    {
        let mut out: Vec<String> = Vec::new();
        assert(names(out@) =~= Seq::empty());
        self.keep_usable(fast, &mut out);
        assert(names(out@) =~= usable(names(fast@), self.records(), self.spike_threshold_us));
        self.keep_usable(fallback, &mut out);
        let ghost all = names(out@);
        if out.len() > max_parallel {
            out.truncate(max_parallel);
            assert(names(out@) =~= all.take(max_parallel as int));
        }
        out
    }

    /// The time that a model gets: the default while there are few samples, else twice its
    /// average latency, not below the minimum and not above the default.
    pub fn get_model_timeout_with_policy(
        &self,
        model: &str,
        default_ms: u64,
        min_ms: u64,
        sample_floor: u64,
    ) -> (r: u64)
        ensures
            r == model_timeout(
                record_of(self.records(), model@),
                default_ms,
                min_ms,
                sample_floor,
            ),
    {
        let m: ModelRecord = self.get(model);
        if m.sample_count == 0 || m.sample_count < sample_floor {
            return default_ms;
        }
        let average: u64 = m.latency_sum_ms / m.sample_count;
        let wanted: u64 = average.saturating_add(average);
        let floored: u64 = if wanted < min_ms {
            min_ms
        } else {
            wanted
        };
        if floored > default_ms {
            default_ms
        } else {
            floored
        }
    }
}

/// The time that a model with a record gets.
pub open spec fn model_timeout(
    r: ModelRecord,
    default_ms: u64,
    min_ms: u64,
    sample_floor: u64,
) -> u64 {
    if r.sample_count == 0 || r.sample_count < sample_floor {
        default_ms
    } else {
        let average = r.latency_sum_ms / r.sample_count;
        let wanted = sum_up_to(average, average);
        let floored = if wanted < min_ms {
            min_ms
        } else {
            wanted
        };
        if floored > default_ms {
            default_ms
        } else {
            floored
        }
    }
}

} // verus!
