//! The choice of a model for requests that leave it open.

use vstd::prelude::*;

use crate::pool::ring;
use crate::stats::{record_degraded, record_of, ModelRecord, ModelStatsStore};
use crate::table::names;

verus! {

/// Models that take turns.
pub struct ModelRouter {
    pub models: Vec<String>,
    pub cursor: usize,
}

/// The first step from the cursor, `step` or later, that leads to a model that is not to be
/// avoided; none where every further one is.
pub open spec fn usable_step(
    models: Seq<Seq<char>>,
    cursor: int,
    records: Map<Seq<char>, ModelRecord>,
    spike_threshold_us: u64,
    step: int,
) -> Option<int>
    decreases models.len() - step,
{
    if step >= models.len() {
        None
    } else if record_degraded(
        record_of(records, models[ring(cursor, step, models.len() as int)]),
        spike_threshold_us,
    ) {
        usable_step(models, cursor, records, spike_threshold_us, step + 1)
    } else {
        Some(step)
    }
}

/// The position of the model whose turn it is: the next one from the cursor on that is not to
/// be avoided, or the one at the cursor where all are.
pub open spec fn turn_of(
    models: Seq<Seq<char>>,
    cursor: int,
    records: Map<Seq<char>, ModelRecord>,
    spike_threshold_us: u64,
) -> int {
    match usable_step(models, cursor, records, spike_threshold_us, 0) {
        Some(step) => ring(cursor, step, models.len() as int),
        None => cursor,
    }
}

/// The model whose turn it is.
pub open spec fn routed_model(
    models: Seq<Seq<char>>,
    cursor: int,
    records: Map<Seq<char>, ModelRecord>,
    spike_threshold_us: u64,
) -> Option<Seq<char>> {
    if models.len() == 0 {
        None
    } else {
        Some(models[turn_of(models, cursor, records, spike_threshold_us)])
    }
}

impl ModelRouter {
    /// Whether the cursor is a position in the list.
    pub open spec fn wf(self) -> bool {
        self.models@.len() > 0 ==> self.cursor < self.models@.len()
    }

    /// A router that starts with the first model.
    pub fn new(models: Vec<String>) -> (r: ModelRouter)
        ensures
            r.wf(),
            r.models == models,
            r.cursor == 0,
    {
        ModelRouter { models, cursor: 0 }
    }

    /// Chooses the model whose turn it is, and moves on behind it.
    pub fn pick(&mut self, stats: &ModelStatsStore) -> (r: Option<String>)
        requires
            old(self).wf(),
        ensures
            final(self).wf(),
            final(self).models == old(self).models,
            match r {
                Some(model) => {
                    &&& routed_model(
                        names(old(self).models@),
                        old(self).cursor as int,
                        stats.records(),
                        stats.spike_threshold_us,
                    ) == Some(model@)
                    &&& final(self).cursor == ring(
                        turn_of(
                            names(old(self).models@),
                            old(self).cursor as int,
                            stats.records(),
                            stats.spike_threshold_us,
                        ),
                        1,
                        old(self).models@.len() as int,
                    )
                },
                None => old(self).models@.len() == 0 && final(self).cursor == old(self).cursor,
            },
    {
        let ghost v = names(self.models@);
        let n: usize = self.models.len();
        if n == 0 {
            return None;
        }
        let start: usize = self.cursor;
        let mut step: usize = 0;
        let mut turn: usize = start;
        let mut found: bool = false;
        while step < n && !found
            invariant
                n == v.len(),
                v == names(self.models@),
                start == self.cursor,
                *self == *old(self),
                start < n,
                step <= n,
                turn < n,
                !found ==> turn == start && usable_step(
                    v,
                    start as int,
                    stats.records(),
                    stats.spike_threshold_us,
                    step as int,
                ) == usable_step(v, start as int, stats.records(), stats.spike_threshold_us, 0),
                found ==> turn == turn_of(
                    v,
                    start as int,
                    stats.records(),
                    stats.spike_threshold_us,
                ),
            decreases n - step + (if found {
                0int
            } else {
                1
            }),
        {
            let idx: usize = if step < n - start {
                start + step
            } else {
                step - (n - start)
            };
            assert(idx == ring(start as int, step as int, n as int));
            if !stats.degraded(self.models[idx].as_str()) {
                turn = idx;
                found = true;
            } else {
                step = step + 1;
            }
        }
        let model: String = self.models[turn].clone();
        self.cursor = if turn + 1 < n {
            turn + 1
        } else {
            0
        };
        Some(model)
    }
}

} // verus!
