//! The gateway's state: its configuration, its keys and its models.

use vstd::prelude::*;
use vstd::string::*;

use crate::effect::{effect_view, effects_view, Effect};
use crate::metrics::{counted, no_counts, GatewayMetrics, MetricsView};
use crate::model_id::{normalize_requested_model, normalized_model};
use crate::params::ModelParams;
use crate::pool::{slot_cooling, slot_narrowed, slot_widened, KeyPool, KeySlot};
use crate::router::ModelRouter;
use crate::stats::{
    model_timeout, record_after, record_blocked, record_degraded, record_of, ModelRecord,
    ModelStatsStore,
};
use crate::table::{
    has_name, lemma_merged_names_contain, merge_names, merged_names, names, with_name,
};
use crate::text::str_eq;

verus! {

/// The limits and switches of the gateway.
pub struct RuntimeControls {
    pub racing_adaptive: bool,
    pub racing_min_parallel: usize,
    pub racing_pressure_parallel: usize,
    pub racing_degraded_parallel: usize,
    pub racing_fast_models: Vec<String>,
    pub racing_fallback_models: Vec<String>,
    pub racing_large_prompt_char_threshold: usize,
    pub racing_large_prompt_parallel: usize,
    pub racing_solo_fallback: bool,
    pub racing_max_total_request_ms: u64,
    pub max_upstream_in_flight: usize,
    pub max_in_flight_per_key: usize,
    pub admission_wait_ms: u64,
    pub min_dynamic_timeout_ms: u64,
    pub dynamic_sample_floor: u64,
}

/// The models that take messages in the roles "developer" and "tool". Where there is no
/// list, every model is taken to.
pub struct ModelCompat {
    pub supports_developer_role: Option<Vec<String>>,
    pub supports_tool_messages: Option<Vec<String>>,
}

/// Whether a model is missing from a list of models that support something.
pub open spec fn unsupported(list: Option<Vec<String>>, model: Seq<char>) -> bool {
    match list {
        Some(models) => !names(models@).contains(model),
        None => false,
    }
}

fn lacks_support(list: &Option<Vec<String>>, model_id: &str) -> (r: bool)
    ensures
        r == unsupported(*list, model_id@),
{
    match list {
        Some(models) => !has_name(models, model_id),
        None => false,
    }
}

impl ModelCompat {
    /// Whether the model does not take the role "developer".
    pub fn should_transform_developer_role(&self, model_id: &str) -> (r: bool)
        ensures
            r == unsupported(self.supports_developer_role, model_id@),
    {
        lacks_support(&self.supports_developer_role, model_id)
    }

    /// Whether the model does not take the role "tool".
    pub fn should_transform_tool_messages(&self, model_id: &str) -> (r: bool)
        ensures
            r == unsupported(self.supports_tool_messages, model_id@),
    {
        lacks_support(&self.supports_tool_messages, model_id)
    }
}

/// Everything that the gateway decides by.
pub struct AppState {
    pub pool: KeyPool,
    pub router: Option<ModelRouter>,
    pub model_stats: ModelStatsStore,
    pub available_models: Vec<String>,
    pub racing_models: Vec<String>,
    pub racing_max_parallel: usize,
    pub racing_timeout_ms: u64,
    pub racing_cursor: usize,
    pub model_params: Vec<(String, ModelParams)>,
    pub model_compat: ModelCompat,
    pub controls: RuntimeControls,
    pub upstream_in_flight: usize,
    pub metrics: GatewayMetrics,
}

impl AppState {
    /// Whether the cursors are positions in their lists, and the tables hold a name once.
    pub open spec fn wf(self) -> bool {
        &&& self.pool.wf()
        &&& self.router matches Some(router) ==> router.wf()
        &&& self.model_stats.wf()
        &&& self.metrics.wf()
    }

    /// The names of the models that the router chooses from.
    pub open spec fn routed_names(self) -> Seq<Seq<char>> {
        match self.router {
            Some(router) => names(router.models@),
            None => Seq::empty(),
        }
    }

    /// The names of all models that are configured, each once: the router's, the racing
    /// ones, the available ones.
    pub open spec fn configured_names(self) -> Seq<Seq<char>> {
        merged_names(
            merged_names(
                merged_names(Seq::empty(), self.routed_names()),
                names(self.racing_models@),
            ),
            names(self.available_models@),
        )
    }

    /// A gateway on which nothing is in flight yet.
    pub fn new(
        keys: Vec<(String, Option<String>)>,
        router: Option<ModelRouter>,
        model_stats: ModelStatsStore,
        racing_models: Vec<String>,
        racing_max_parallel: usize,
        racing_timeout_ms: u64,
        model_params: Vec<(String, ModelParams)>,
        model_compat: ModelCompat,
        controls: RuntimeControls,
    ) -> (r: AppState)
        requires
            router matches Some(x) ==> x.wf(),
            model_stats.wf(),
        ensures
            r.wf(),
            r.pool.slots@.len() == keys@.len(),
            forall|i: int|
                0 <= i < keys@.len() ==> (#[trigger] r.pool.slots@[i]).key == keys@[i].0
                    && r.pool.slots@[i].label == keys@[i].1 && r.pool.slots@[i].in_flight == 0
                    && r.pool.slots@[i].max_in_flight == controls.max_in_flight_per_key
                    && r.pool.slots@[i].configured_max_in_flight == controls.max_in_flight_per_key
                    && r.pool.slots@[i].cooldown_until_ms == 0,
            r.pool.cursor == 0,
            r.router == router,
            r.model_stats == model_stats,
            r.available_models@ == Seq::<String>::empty(),
            r.racing_models == racing_models,
            r.racing_max_parallel == racing_max_parallel,
            r.racing_timeout_ms == racing_timeout_ms,
            r.racing_cursor == 0,
            r.model_params == model_params,
            r.model_compat == model_compat,
            r.controls == controls,
            r.upstream_in_flight == 0,
            r.metrics@ == no_counts(),
    {
        let pool: KeyPool = KeyPool::new(keys, controls.max_in_flight_per_key);
        AppState {
            pool,
            router,
            model_stats,
            available_models: Vec::new(),
            racing_models,
            racing_max_parallel,
            racing_timeout_ms,
            racing_cursor: 0,
            model_params,
            model_compat,
            controls,
            upstream_in_flight: 0,
            metrics: GatewayMetrics::new(),
        }
    }

    /// All models that are configured.
    pub fn configured_models(&self) -> (r: Vec<String>)
        ensures
            names(r@) == self.configured_names(),
    {
        let mut out: Vec<String> = Vec::new();
        assert(names(out@) =~= Seq::empty());
        match &self.router {
            Some(router) => merge_names(&mut out, &router.models),
            None => {},
        }
        merge_names(&mut out, &self.racing_models);
        merge_names(&mut out, &self.available_models);
        out
    }

    /// Whether there is a router with models.
    pub fn routing_enabled(&self) -> (r: bool)
        ensures
            r == (self.routed_names().len() > 0),
    {
        match &self.router {
            Some(router) => router.models.len() > 0,
            None => false,
        }
    }

    /// Whether there are models that race.
    pub fn racing_enabled(&self) -> (r: bool)
        ensures
            r == (self.racing_models@.len() > 0),
    {
        self.racing_models.len() > 0
    }

    /// Takes a place among the attempts that may be in flight, if one is free.
    pub fn try_acquire_upstream(&mut self) -> (r: bool)
        ensures
            r == (old(self).upstream_in_flight < old(self).controls.max_upstream_in_flight),
            r ==> *final(self) == (AppState {
                upstream_in_flight: (old(self).upstream_in_flight + 1) as usize,
                ..*old(self)
            }),
            !r ==> *final(self) == *old(self),
    {
        if self.upstream_in_flight < self.controls.max_upstream_in_flight {
            self.upstream_in_flight = self.upstream_in_flight + 1;
            true
        } else {
            false
        }
    }

    /// Gives a place among the attempts that may be in flight back.
    pub fn release_upstream(&mut self)
        ensures
            *final(self) == (AppState {
                upstream_in_flight: if old(self).upstream_in_flight > 0 {
                    (old(self).upstream_in_flight - 1) as usize
                } else {
                    0
                },
                ..*old(self)
            }),
    {
        self.upstream_in_flight = self.upstream_in_flight.saturating_sub(1);
    }

    /// Notes an effect: in the counters, on the keys and on the models.
    pub fn apply(&mut self, effect: &Effect<String>, now_ms: u64)
        requires
            old(self).wf(),
        ensures
            final(self).wf(),
            noted(*old(self), *final(self), effect_view(*effect), now_ms),
    {
        self.metrics.count(effect);
        match effect {
            Effect::KeyRateLimited { key, secs } => {
                self.pool.mark_rate_limited(*key, *secs, now_ms);
            },
            Effect::KeyThrottled(key) => self.pool.record_rate_limited(*key),
            Effect::KeySucceeded(key) => self.pool.record_success(*key),
            Effect::ModelOutcome { model, key_label, latency_ms, ok } => {
                self.model_stats.record(model.as_str(), *latency_ms, *ok);
            },
            Effect::ModelTimeout { model, key_label, elapsed_ms } => {
                self.model_stats.record(model.as_str(), *elapsed_ms, false);
            },
            Effect::ModelQuality { model, latency_ms, ok, .. } => {
                self.model_stats.record(model.as_str(), *latency_ms, *ok);
            },
            Effect::HardError { model, error } => self.model_stats.block(model.as_str()),
            Effect::ServerDegraded(model) => self.model_stats.block(model.as_str()),
            _ => {},
        }
    }

    /// Notes effects in their order.
    pub fn apply_all(&mut self, effects: &Vec<Effect<String>>, now_ms: u64)
        requires
            old(self).wf(),
        ensures
            final(self).wf(),
            final(self).metrics@ == counted_all(old(self).metrics@, effects_view(effects@)),
            final(self).pool.slots@ == keys_after_all(
                old(self).pool.slots@,
                effects_view(effects@),
                now_ms,
            ),
            final(self).model_stats.records() == models_after_all(
                old(self).model_stats.records(),
                effects_view(effects@),
            ),
            final(self).model_stats.known() == known_after_all(
                old(self).model_stats.known(),
                effects_view(effects@),
            ),
            same_but_notes(*old(self), *final(self)),
    {
        let ghost start = *self;
        let ghost all = effects_view(effects@);
        let mut i: usize = 0;
        assert(all.take(0) =~= Seq::empty());
        while i < effects.len()
            invariant
                i <= effects@.len(),
                all == effects_view(effects@),
                self.wf(),
                self.metrics@ == counted_all(start.metrics@, all.take(i as int)),
                self.pool.slots@ == keys_after_all(start.pool.slots@, all.take(i as int), now_ms),
                self.model_stats.records() == models_after_all(
                    start.model_stats.records(),
                    all.take(i as int),
                ),
                self.model_stats.known() == known_after_all(
                    start.model_stats.known(),
                    all.take(i as int),
                ),
                same_but_notes(start, *self),
            decreases effects@.len() - i,
        {
            assert(all.take(i + 1).drop_last() =~= all.take(i as int));
            assert(all.take(i + 1).last() == effect_view(effects@[i as int]));
            self.apply(&effects[i], now_ms);
            i = i + 1;
        }
        assert(all.take(all.len() as int) =~= all);
    }
}

/// The keys after an effect.
pub open spec fn keys_after(slots: Seq<KeySlot>, e: Effect<Seq<char>>, now_ms: u64) -> Seq<KeySlot> {
    match e {
        Effect::KeyRateLimited { key, secs } => if key < slots.len() {
            slots.update(key as int, slot_cooling(slots[key as int], secs, now_ms))
        } else {
            slots
        },
        Effect::KeyThrottled(key) => if key < slots.len() {
            slots.update(key as int, slot_narrowed(slots[key as int]))
        } else {
            slots
        },
        Effect::KeySucceeded(key) => if key < slots.len() {
            slots.update(key as int, slot_widened(slots[key as int]))
        } else {
            slots
        },
        _ => slots,
    }
}

/// What is remembered of the models after an effect.
pub open spec fn models_after(
    records: Map<Seq<char>, ModelRecord>,
    e: Effect<Seq<char>>,
) -> Map<Seq<char>, ModelRecord> {
    match e {
        Effect::ModelOutcome { model, latency_ms, ok, .. } => records.insert(
            model,
            record_after(record_of(records, model), latency_ms, ok),
        ),
        Effect::ModelTimeout { model, elapsed_ms, .. } => records.insert(
            model,
            record_after(record_of(records, model), elapsed_ms, false),
        ),
        Effect::ModelQuality { model, latency_ms, ok, .. } => records.insert(
            model,
            record_after(record_of(records, model), latency_ms, ok),
        ),
        Effect::HardError { model, .. } => records.insert(
            model,
            record_blocked(record_of(records, model)),
        ),
        Effect::ServerDegraded(model) => records.insert(
            model,
            record_blocked(record_of(records, model)),
        ),
        _ => records,
    }
}

/// The models of which something is remembered after an effect.
pub open spec fn known_after(known: Seq<Seq<char>>, e: Effect<Seq<char>>) -> Seq<Seq<char>> {
    match e {
        Effect::ModelOutcome { model, .. } => with_name(known, model),
        Effect::ModelTimeout { model, .. } => with_name(known, model),
        Effect::ModelQuality { model, .. } => with_name(known, model),
        Effect::HardError { model, .. } => with_name(known, model),
        Effect::ServerDegraded(model) => with_name(known, model),
        _ => known,
    }
}

/// Whether two states differ at most in what effects change.
pub open spec fn same_but_notes(before: AppState, after: AppState) -> bool {
    &&& after.pool.slots@.len() == before.pool.slots@.len()
    &&& after.pool.cursor == before.pool.cursor
    &&& after.router == before.router
    &&& after.model_stats.spike_threshold_us == before.model_stats.spike_threshold_us
    &&& after.available_models == before.available_models
    &&& after.racing_models == before.racing_models
    &&& after.racing_max_parallel == before.racing_max_parallel
    &&& after.racing_timeout_ms == before.racing_timeout_ms
    &&& after.racing_cursor == before.racing_cursor
    &&& after.model_params == before.model_params
    &&& after.model_compat == before.model_compat
    &&& after.controls == before.controls
    &&& after.upstream_in_flight == before.upstream_in_flight
}

/// Whether a state follows another by an effect.
pub open spec fn noted(
    before: AppState,
    after: AppState,
    e: Effect<Seq<char>>,
    now_ms: u64,
) -> bool {
    &&& after.metrics@ == counted(before.metrics@, e)
    &&& after.pool.slots@ == keys_after(before.pool.slots@, e, now_ms)
    &&& after.model_stats.records() == models_after(before.model_stats.records(), e)
    &&& after.model_stats.known() == known_after(before.model_stats.known(), e)
    &&& same_but_notes(before, after)
}

/// The counters after effects in their order.
pub open spec fn counted_all(m: MetricsView, es: Seq<Effect<Seq<char>>>) -> MetricsView
    decreases es.len(),
{
    if es.len() == 0 {
        m
    } else {
        counted(counted_all(m, es.drop_last()), es.last())
    }
}

/// The keys after effects in their order.
pub open spec fn keys_after_all(
    slots: Seq<KeySlot>,
    es: Seq<Effect<Seq<char>>>,
    now_ms: u64,
) -> Seq<KeySlot>
    decreases es.len(),
{
    if es.len() == 0 {
        slots
    } else {
        keys_after(keys_after_all(slots, es.drop_last(), now_ms), es.last(), now_ms)
    }
}

/// What is remembered of the models after effects in their order.
pub open spec fn models_after_all(
    records: Map<Seq<char>, ModelRecord>,
    es: Seq<Effect<Seq<char>>>,
) -> Map<Seq<char>, ModelRecord>
    decreases es.len(),
{
    if es.len() == 0 {
        records
    } else {
        models_after(models_after_all(records, es.drop_last()), es.last())
    }
}

/// The models of which something is remembered after effects in their order.
pub open spec fn known_after_all(known: Seq<Seq<char>>, es: Seq<Effect<Seq<char>>>) -> Seq<
    Seq<char>,
>
    decreases es.len(),
{
    if es.len() == 0 {
        known
    } else {
        known_after(known_after_all(known, es.drop_last()), es.last())
    }
}

/// Whether a model may be requested: the choice is left open, or nothing is configured, or
/// the model is.
pub open spec fn model_admitted(model: Seq<char>, configured: Seq<Seq<char>>) -> bool {
    let m = normalized_model(model);
    m.len() == 0 || m == "auto"@ || configured.len() == 0 || configured.contains(m)
}

/// What is said of a model that may not be requested.
pub open spec fn unknown_model_message(model: Seq<char>) -> Seq<char> {
    "model '"@ + normalized_model(model) + "' not found in configured models"@
}

/// Checks the model of a request against a list of configured models.
pub fn check_model_configured(model: &str, configured: &Vec<String>) -> (r: Result<(), String>)
    ensures
        r is Ok <==> model_admitted(model@, names(configured@)),
        r matches Err(msg) ==> msg@ == unknown_model_message(model@),
{
    let m: &str = normalize_requested_model(model);
    if m.is_empty() || str_eq(m, "auto") {
        return Ok(());
    }
    if configured.len() > 0 {
        if has_name(configured, m) {
            return Ok(());
        }
        let mut msg: String = "model '".to_owned();
        msg.append(m);
        msg.append("' not found in configured models");
        return Err(msg);
    }
    Ok(())
}

/// Checks the model of a request: an open choice is always valid; with no models configured
/// every model is; else only a configured one.
pub fn validate_model_exists(model: &str, state: &AppState) -> (r: Result<(), String>)
    ensures
        r is Ok <==> model_admitted(model@, state.configured_names()),
        r matches Err(msg) ==> msg@ == unknown_model_message(model@),
{
    let configured: Vec<String> = state.configured_models();
    check_model_configured(model, &configured)
}

/// A model is among the configured ones exactly if the router chooses it, it races, or it is
/// available.
pub proof fn law_configured_models(state: AppState, model: Seq<char>)
    ensures
        state.configured_names().contains(model) <==> state.routed_names().contains(model)
            || names(state.racing_models@).contains(model) || names(
            state.available_models@,
        ).contains(model),
{
    let a = merged_names(Seq::empty(), state.routed_names());
    let b = merged_names(a, names(state.racing_models@));
    lemma_merged_names_contain(Seq::empty(), state.routed_names(), model);
    lemma_merged_names_contain(a, names(state.racing_models@), model);
    lemma_merged_names_contain(b, names(state.available_models@), model);
}

/// The alias of the automatic choice is valid wherever the automatic choice is, which is
/// everywhere.
pub proof fn law_open_choice_is_valid(configured: Seq<Seq<char>>)
    ensures
        model_admitted("auto"@, configured),
        model_admitted("nimaproxy/auto"@, configured),
        model_admitted(Seq::empty(), configured),
{
    reveal_strlit("nimaproxy/auto");
    assert("nimaproxy/auto"@.len() > 0);
}

/// The time that a model gets for an attempt.
pub fn timeout_for_model(state: &AppState, model_id: &str) -> (r: u64)
    ensures
        r == model_timeout(
            record_of(state.model_stats.records(), model_id@),
            state.racing_timeout_ms,
            state.controls.min_dynamic_timeout_ms,
            state.controls.dynamic_sample_floor,
        ),
{
    state.model_stats.get_model_timeout_with_policy(
        model_id,
        state.racing_timeout_ms,
        state.controls.min_dynamic_timeout_ms,
        state.controls.dynamic_sample_floor,
    )
}

/// A model that upstream blocks, or that rejects the shape of requests, is to be avoided from
/// then on, until an answer of it succeeds.
pub proof fn law_blocked_model_is_avoided(
    records: Map<Seq<char>, ModelRecord>,
    model: Seq<char>,
    error: Seq<char>,
    threshold: u64,
    latency_ms: u64,
    key_label: Option<Seq<char>>,
)
    ensures
        record_degraded(
            record_of(models_after(records, Effect::ServerDegraded(model)), model),
            threshold,
        ),
        record_degraded(
            record_of(models_after(records, Effect::HardError { model, error }), model),
            threshold,
        ),
        record_of(records, model).blocked ==> record_degraded(
            record_of(
                models_after(
                    records,
                    Effect::ModelOutcome { model, key_label, latency_ms, ok: false },
                ),
                model,
            ),
            threshold,
        ),
        !record_of(
            models_after(records, Effect::ModelOutcome { model, key_label, latency_ms, ok: true }),
            model,
        ).blocked,
{
}

} // verus!
