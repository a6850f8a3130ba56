//! The gateway's counters.

use vstd::prelude::*;

use crate::effect::{effect_view, Effect};
use crate::stats::sum_up_to;
use crate::table::{distinct_rows, find_row, rows, set_row};

verus! {

/// What the gateway counts. Counters stop at their limit.
pub struct GatewayMetrics {
    pub request_total: u64,
    pub direct_requests: u64,
    pub racing_requests: u64,
    pub upstream_attempts: u64,
    pub overload_rejects: u64,
    pub no_key_rejects: u64,
    pub timeout_count: u64,
    pub rate_limit_count: u64,
    pub fanout_total: u64,
    pub fanout_samples: u64,
    pub solo_fallbacks: u64,
    pub sequential_fallbacks: u64,
    pub racing_all_failed: u64,
    pub racing_deadline_exceeded: u64,
    pub racing_wins: Vec<(String, u64)>,
}

/// The model of the counters.
pub struct MetricsView {
    pub request_total: u64,
    pub direct_requests: u64,
    pub racing_requests: u64,
    pub upstream_attempts: u64,
    pub overload_rejects: u64,
    pub no_key_rejects: u64,
    pub timeout_count: u64,
    pub rate_limit_count: u64,
    pub fanout_total: u64,
    pub fanout_samples: u64,
    pub solo_fallbacks: u64,
    pub sequential_fallbacks: u64,
    pub racing_all_failed: u64,
    pub racing_deadline_exceeded: u64,
    pub racing_wins: Map<Seq<char>, u64>,
}

impl View for GatewayMetrics {
    type V = MetricsView;

    open spec fn view(&self) -> MetricsView {
        MetricsView {
            request_total: self.request_total,
            direct_requests: self.direct_requests,
            racing_requests: self.racing_requests,
            upstream_attempts: self.upstream_attempts,
            overload_rejects: self.overload_rejects,
            no_key_rejects: self.no_key_rejects,
            timeout_count: self.timeout_count,
            rate_limit_count: self.rate_limit_count,
            fanout_total: self.fanout_total,
            fanout_samples: self.fanout_samples,
            solo_fallbacks: self.solo_fallbacks,
            sequential_fallbacks: self.sequential_fallbacks,
            racing_all_failed: self.racing_all_failed,
            racing_deadline_exceeded: self.racing_deadline_exceeded,
            racing_wins: rows(self.racing_wins@),
        }
    }
}

/// Counters on which nothing was counted yet.
pub open spec fn no_counts() -> MetricsView {
    MetricsView {
        request_total: 0,
        direct_requests: 0,
        racing_requests: 0,
        upstream_attempts: 0,
        overload_rejects: 0,
        no_key_rejects: 0,
        timeout_count: 0,
        rate_limit_count: 0,
        fanout_total: 0,
        fanout_samples: 0,
        solo_fallbacks: 0,
        sequential_fallbacks: 0,
        racing_all_failed: 0,
        racing_deadline_exceeded: 0,
        racing_wins: Map::empty(),
    }
}

/// How often a model won.
pub open spec fn wins_of(wins: Map<Seq<char>, u64>, model: Seq<char>) -> u64 {
    if wins.dom().contains(model) {
        wins[model]
    } else {
        0
    }
}

/// The counters after an effect.
pub open spec fn counted(m: MetricsView, e: Effect<Seq<char>>) -> MetricsView {
    match e {
        Effect::Request { racing } => if racing {
            MetricsView {
                request_total: sum_up_to(m.request_total, 1),
                racing_requests: sum_up_to(m.racing_requests, 1),
                ..m
            }
        } else {
            MetricsView {
                request_total: sum_up_to(m.request_total, 1),
                direct_requests: sum_up_to(m.direct_requests, 1),
                ..m
            }
        },
        Effect::Timeout => MetricsView { timeout_count: sum_up_to(m.timeout_count, 1), ..m },
        Effect::DeadlineExceeded => MetricsView {
            racing_deadline_exceeded: sum_up_to(m.racing_deadline_exceeded, 1),
            ..m
        },
        Effect::Overload => MetricsView {
            overload_rejects: sum_up_to(m.overload_rejects, 1),
            ..m
        },
        Effect::NoKey => MetricsView { no_key_rejects: sum_up_to(m.no_key_rejects, 1), ..m },
        Effect::RateLimit => MetricsView {
            rate_limit_count: sum_up_to(m.rate_limit_count, 1),
            ..m
        },
        Effect::SoloFallback => MetricsView {
            solo_fallbacks: sum_up_to(m.solo_fallbacks, 1),
            ..m
        },
        Effect::SequentialFallback => MetricsView {
            sequential_fallbacks: sum_up_to(m.sequential_fallbacks, 1),
            ..m
        },
        Effect::AllRacersFailed => MetricsView {
            racing_all_failed: sum_up_to(m.racing_all_failed, 1),
            ..m
        },
        Effect::Fanout(n) => MetricsView {
            fanout_total: sum_up_to(m.fanout_total, n as u64),
            fanout_samples: sum_up_to(m.fanout_samples, 1),
            ..m
        },
        Effect::RacingWin(model) => MetricsView {
            racing_wins: m.racing_wins.insert(model, sum_up_to(wins_of(m.racing_wins, model), 1)),
            ..m
        },
        _ => m,
    }
}

impl GatewayMetrics {
    /// Whether the races that a model won are counted in one place.
    pub open spec fn wf(self) -> bool {
        distinct_rows(self.racing_wins@)
    }

    /// Counters on which nothing was counted yet.
    pub fn new() -> (r: GatewayMetrics)
        ensures
            r.wf(),
            r@ == no_counts(),
    {
        GatewayMetrics {
            request_total: 0,
            direct_requests: 0,
            racing_requests: 0,
            upstream_attempts: 0,
            overload_rejects: 0,
            no_key_rejects: 0,
            timeout_count: 0,
            rate_limit_count: 0,
            fanout_total: 0,
            fanout_samples: 0,
            solo_fallbacks: 0,
            sequential_fallbacks: 0,
            racing_all_failed: 0,
            racing_deadline_exceeded: 0,
            racing_wins: Vec::new(),
        }
    }

    /// Counts an effect.
    pub fn count(&mut self, effect: &Effect<String>)
        ensures
            final(self)@ == counted(old(self)@, effect_view(*effect)),
            old(self).wf() ==> final(self).wf(),
    {
        match effect {
            Effect::Request { racing } => {
                self.request_total = self.request_total.saturating_add(1);
                if *racing {
                    self.racing_requests = self.racing_requests.saturating_add(1);
                } else {
                    self.direct_requests = self.direct_requests.saturating_add(1);
                }
            },
            Effect::Timeout => self.timeout_count = self.timeout_count.saturating_add(1),
            Effect::DeadlineExceeded => {
                self.racing_deadline_exceeded = self.racing_deadline_exceeded.saturating_add(1);
            },
            Effect::Overload => self.overload_rejects = self.overload_rejects.saturating_add(1),
            Effect::NoKey => self.no_key_rejects = self.no_key_rejects.saturating_add(1),
            Effect::RateLimit => self.rate_limit_count = self.rate_limit_count.saturating_add(1),
            Effect::SoloFallback => self.solo_fallbacks = self.solo_fallbacks.saturating_add(1),
            Effect::SequentialFallback => {
                self.sequential_fallbacks = self.sequential_fallbacks.saturating_add(1);
            },
            Effect::AllRacersFailed => {
                self.racing_all_failed = self.racing_all_failed.saturating_add(1);
            },
            Effect::Fanout(n) => {
                self.fanout_total = self.fanout_total.saturating_add(*n as u64);
                self.fanout_samples = self.fanout_samples.saturating_add(1);
            },
            Effect::RacingWin(model) => {
                let won: u64 = match find_row(&self.racing_wins, model.as_str()) {
                    Some(n) => *n,
                    None => 0,
                };
                set_row(&mut self.racing_wins, model.as_str(), won.saturating_add(1));
            },
            _ => {},
        }
    }
}

/// Every request is counted once, as direct or as racing: while no counter is at its limit,
/// the two add up to the total.
pub proof fn law_requests_add_up(m: MetricsView, e: Effect<Seq<char>>)
    requires
        m.request_total == m.direct_requests + m.racing_requests,
        m.request_total < u64::MAX,
    ensures
        counted(m, e).request_total == counted(m, e).direct_requests + counted(
            m,
            e,
        ).racing_requests,
{
}

} // verus!
