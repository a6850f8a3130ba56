//! Which models are tried, how many at a time, and what their answers lead to.

use nimaproxy::candidates::{
    adaptive_racing_parallel, parallel_cap_for, prompt_parallel_cap, racing_parallel,
    rotated_models, solo_candidate_model, solo_candidate_models, tiered_candidates, KeyLoad,
    RacingLimits,
};
use nimaproxy::admission::{acquire_gateway_permits, Admission};
use nimaproxy::effect::{Effect, Exchange, Reply};
use nimaproxy::pool::KeyLease;
use nimaproxy::race::{
    after_start, enter_race, race_models, Entry, Lineup, RacePlan, RaceStart, Racer,
};
use nimaproxy::race_flow::{race_arrive, race_enter, RaceAction, RaceFlow, RacePhase};
use nimaproxy::racer::{
    racer_after_body, racer_after_error, racer_after_send, racer_body_time, racer_next, Arrival,
    Finisher, RacerAction, RacerEvent, RacerFlow, RacerPhase, RacerSent,
};
use nimaproxy::solo::{
    attempt_times, solo_advance, solo_after_body, solo_after_send, solo_begin, solo_body_time,
    solo_model_fallback, solo_next, SoloAction, SoloEvent, SoloFlow, SoloPhase, SoloRead, SoloSent,
    SoloStep,
};
use nimaproxy::state::{AppState, ModelCompat, RuntimeControls};
use nimaproxy::stats::ModelStatsStore;
use nimaproxy::tally::{lose_race, RaceEnd, Tally};
use nimaproxy::upstream::{BodyOutcome, KeyUse, ResponseHead, SendOutcome};

fn strings(list: &[&str]) -> Vec<String> {
    list.iter().map(|s| s.to_string()).collect()
}

fn compat() -> ModelCompat {
    ModelCompat { supports_developer_role: None, supports_tool_messages: None }
}

fn plain_state() -> AppState {
    AppState::new(
        vec![],
        None,
        ModelStatsStore::new(3000),
        vec![],
        3,
        8000,
        vec![],
        compat(),
        RuntimeControls {
            racing_adaptive: false,
            racing_min_parallel: 2,
            racing_pressure_parallel: 2,
            racing_degraded_parallel: 2,
            racing_fast_models: vec![],
            racing_fallback_models: vec![],
            racing_large_prompt_char_threshold: 0,
            racing_large_prompt_parallel: 1,
            racing_solo_fallback: true,
            racing_max_total_request_ms: 0,
            max_upstream_in_flight: 64,
            max_in_flight_per_key: 4,
            admission_wait_ms: 0,
            min_dynamic_timeout_ms: 8000,
            dynamic_sample_floor: 10,
        },
    )
}

fn adaptive_state() -> AppState {
    AppState::new(
        vec![
            ("key-a".to_string(), Some("key-a".to_string())),
            ("key-b".to_string(), Some("key-b".to_string())),
        ],
        None,
        ModelStatsStore::new(3000),
        strings(&["fast-a", "fast-b", "fallback-a"]),
        10,
        15000,
        vec![],
        compat(),
        RuntimeControls {
            racing_adaptive: true,
            racing_min_parallel: 2,
            racing_pressure_parallel: 6,
            racing_degraded_parallel: 3,
            racing_fast_models: strings(&["fast-a", "fast-b"]),
            racing_fallback_models: strings(&["fallback-a"]),
            racing_large_prompt_char_threshold: 0,
            racing_large_prompt_parallel: 1,
            racing_solo_fallback: true,
            racing_max_total_request_ms: 30000,
            max_upstream_in_flight: 6,
            max_in_flight_per_key: 2,
            admission_wait_ms: 0,
            min_dynamic_timeout_ms: 8000,
            dynamic_sample_floor: 10,
        },
    )
}

const BODY: &str = r#"{"model": "auto", "messages": [{"role": "user", "content": "test"}]}"#;

fn status(reply: &Reply) -> u16 {
    match reply {
        Reply::Text { status, .. } => *status,
        Reply::Forward { status, .. } => *status,
    }
}

fn text(reply: &Reply) -> (u16, String) {
    match reply {
        Reply::Text { status, message } => (*status, message.clone()),
        Reply::Forward { .. } => panic!("a text was expected"),
    }
}

/// Answers of a gateway that cannot reach upstream: what is said before anything is sent.
fn solo_status(state: &mut AppState, body: &str, models: Vec<String>, deadline: Option<u128>) -> u16 {
    let (mut flow, _) = solo_model_fallback(body.as_bytes().to_vec(), models, deadline);
    match solo_begin(&mut flow, state, 0).1 {
        SoloAction::Finish(reply) => status(&reply),
        SoloAction::Admit => match acquire_gateway_permits(state, 0, 0).0 {
            Admission::Reject(reply) => status(&reply),
            _ => panic!("a rejection was expected"),
        },
        _ => panic!("an answer was expected"),
    }
}

fn race_status(state: &mut AppState, body: &str, models: Vec<String>) -> u16 {
    let (_, plan, deadline) = race_models(state, body.as_bytes(), &models, 0, 0);
    match plan {
        RacePlan::Finish(reply) => status(&reply),
        RacePlan::Solo(models) => solo_status(state, body, models, deadline),
        RacePlan::Race(_) => panic!("no race was expected"),
    }
}

#[test]
fn test_adaptive_racing_parallel_clamps_to_available_key_slots() {
    let mut state = adaptive_state();
    let lease_a = state.pool.next_key_with_permit(0).ok().unwrap();
    let lease_b = state.pool.next_key_with_permit(0).ok().unwrap();

    assert_eq!(adaptive_racing_parallel(&state, 10, 0), 2);

    state.pool.release(lease_a.idx);
    state.pool.release(lease_b.idx);
    assert_eq!(adaptive_racing_parallel(&state, 10, 0), 4);
}

#[test]
fn test_adaptive_racing_parallel_uses_pressure_level() {
    let mut state = adaptive_state();
    assert!(state.try_acquire_upstream());
    assert!(state.try_acquire_upstream());

    assert_eq!(adaptive_racing_parallel(&state, 10, 0), 4);
}

#[test]
fn test_tiered_candidates_prefers_fast_pool() {
    let state = adaptive_state();
    let rotated = strings(&["fallback-a", "fast-b", "fast-a"]);
    let result = tiered_candidates(&state, &rotated, 2);
    assert_eq!(result, vec!["fast-b".to_string(), "fast-a".to_string()]);
}

#[test]
fn test_solo_candidate_prefers_fast_pool() {
    let state = adaptive_state();
    let rotated = strings(&["fallback-a", "fast-b", "fast-a"]);
    let result = solo_candidate_model(&state, &rotated);
    assert_eq!(result, Some("fast-b".to_string()));
}

#[test]
fn test_solo_candidate_uses_fallback_when_fast_pool_degraded() {
    let mut state = adaptive_state();
    for _ in 0..3 {
        state.model_stats.record("fast-a", 5000, true);
        state.model_stats.record("fast-b", 5000, true);
        state.model_stats.record("fallback-a", 600, true);
    }
    let rotated = strings(&["fallback-a", "fast-b", "fast-a"]);
    let result = solo_candidate_model(&state, &rotated);
    assert_eq!(result, Some("fallback-a".to_string()));
}

#[test]
fn test_prompt_parallel_cap_limits_large_prompts() {
    let mut state = adaptive_state();
    state.controls.racing_large_prompt_char_threshold = 10;
    state.controls.racing_large_prompt_parallel = 1;
    let body = br#"{"messages":[{"role":"user","content":"this prompt is definitely large"}]}"#;
    assert_eq!(prompt_parallel_cap(&state, body), Some(1));
}

#[test]
fn prompt_cap_counts_the_text_of_the_content() {
    let mut state = adaptive_state();
    let body = br#"{"messages":[{"content":"abc"},{"content":[1, 2]},{"role":"user"}]}"#;
    // "abc" with its quotes is 5 bytes, [1,2] is 5 bytes.
    state.controls.racing_large_prompt_char_threshold = 10;
    assert_eq!(prompt_parallel_cap(&state, body), Some(1));
    state.controls.racing_large_prompt_char_threshold = 11;
    assert_eq!(prompt_parallel_cap(&state, body), None);
    state.controls.racing_large_prompt_char_threshold = 0;
    assert_eq!(prompt_parallel_cap(&state, body), None);
    assert_eq!(parallel_cap_for(5, 0, 5), Some(1));
    assert_eq!(parallel_cap_for(5, 3, 5), Some(3));
    assert_eq!(parallel_cap_for(5, 3, 4), None);
}

#[test]
fn load_decides_how_many_models_race() {
    let limits = RacingLimits {
        adaptive: true,
        max_parallel: 9,
        min_parallel: 2,
        pressure_parallel: 5,
        degraded_parallel: 3,
    };
    let load = |active_keys: usize, available: usize| KeyLoad {
        keys: 3,
        active_keys,
        window_capacity: 12,
        available,
    };
    assert_eq!(racing_parallel(&limits, &load(3, 12), 10), 9);
    assert_eq!(racing_parallel(&limits, &load(3, 9), 10), 9);
    assert_eq!(racing_parallel(&limits, &load(3, 8), 10), 5);
    assert_eq!(racing_parallel(&limits, &load(3, 4), 10), 3);
    assert_eq!(racing_parallel(&limits, &load(2, 12), 10), 3);
    assert_eq!(racing_parallel(&limits, &load(0, 12), 10), 0);
    assert_eq!(racing_parallel(&limits, &load(3, 1), 10), 1);
    assert_eq!(racing_parallel(&limits, &load(3, 12), 1), 1);
    let fixed = RacingLimits { adaptive: false, ..limits };
    assert_eq!(racing_parallel(&fixed, &load(3, 4), 10), 4);
}

#[test]
fn rotation_starts_at_the_cursor() {
    let models = strings(&["a", "b", "c"]);
    assert_eq!(rotated_models(&models, 0), strings(&["a", "b", "c"]));
    assert_eq!(rotated_models(&models, 4), strings(&["b", "c", "a"]));
    assert_eq!(rotated_models(&vec![], 4), Vec::<String>::new());
}

#[test]
fn solo_candidates_are_all_usable_models() {
    let mut state = adaptive_state();
    let models = strings(&["fallback-a", "fast-b", "other"]);
    assert_eq!(
        solo_candidate_models(&state, &models),
        strings(&["fast-b", "fallback-a", "other"])
    );
    state.model_stats.block("fast-b");
    assert_eq!(solo_candidate_models(&state, &models), strings(&["fallback-a", "other"]));
    state.controls.racing_adaptive = false;
    state.model_stats.record("fast-b", 1, true);
    assert_eq!(solo_candidate_models(&state, &models), models);
}

#[test]
fn test_race_models_configuration_edge_cases() {
    let mut state = plain_state();
    let code = race_status(&mut state, BODY, strings(&["single-model"]));
    assert!(code == 400 || code == 429 || code >= 500);
}

#[test]
fn test_race_models_no_keys() {
    let mut state = plain_state();
    let code = race_status(&mut state, BODY, strings(&["model"]));
    assert!(code >= 400);
}

#[test]
fn a_race_that_cannot_start_is_answered() {
    let mut state = adaptive_state();
    state.controls.racing_solo_fallback = false;
    let models = strings(&["only"]);
    let (effects, plan, _) = race_models(&mut state, BODY.as_bytes(), &models, 0, 0);
    assert!(matches!(effects.as_slice(), [Effect::Overload]));
    match plan {
        RacePlan::Finish(reply) => {
            assert_eq!(text(&reply), (503, "gateway overloaded; retry later".to_string()));
        }
        _ => panic!("an answer was expected"),
    }

    state.pool.mark_rate_limited(0, 1, 0);
    state.pool.mark_rate_limited(1, 1, 0);
    let (effects, plan, _) = race_models(&mut state, BODY.as_bytes(), &models, 999, 0);
    assert!(matches!(effects.as_slice(), [Effect::NoKey]));
    match plan {
        RacePlan::Finish(reply) => {
            assert_eq!(text(&reply), (429, "all API keys rate-limited".to_string()));
        }
        _ => panic!("an answer was expected"),
    }

    state.model_stats.block("a");
    state.model_stats.block("b");
    let blocked = strings(&["a", "b", "a"]);
    let (effects, plan, _) = race_models(&mut state, BODY.as_bytes(), &blocked, 1000, 0);
    assert!(effects.is_empty());
    match plan {
        RacePlan::Finish(reply) => {
            assert_eq!(text(&reply), (502, "not enough viable racing models".to_string()));
        }
        _ => panic!("an answer was expected"),
    }
}

#[test]
fn a_race_takes_turns_through_the_models() {
    let mut state = adaptive_state();
    state.controls.racing_adaptive = false;
    state.racing_max_parallel = 2;
    let models = strings(&["a", "b", "c"]);
    let mut seen: Vec<Vec<String>> = Vec::new();
    for _ in 0..3 {
        match race_models(&mut state, BODY.as_bytes(), &models, 0, 0).1 {
            RacePlan::Race(list) => seen.push(list),
            _ => panic!("a race was expected"),
        }
    }
    assert_eq!(seen[0], strings(&["a", "b"]));
    assert_eq!(seen[1], strings(&["c", "a"]));
    assert_eq!(seen[2], strings(&["b", "c"]));
    assert_eq!(state.racing_cursor, 0);
}

#[test]
fn a_large_prompt_does_not_race() {
    let mut state = adaptive_state();
    state.controls.racing_large_prompt_char_threshold = 1;
    let models = state.racing_models.clone();
    let (effects, plan, deadline) = race_models(&mut state, BODY.as_bytes(), &models, 0, 5);
    assert!(matches!(effects.as_slice(), [Effect::Fanout(1)]));
    assert!(matches!(plan, RacePlan::Solo(_)));
    assert_eq!(deadline, Some(30_000_000_005));
}

fn start(state: &mut AppState, lineup: &mut Lineup, model: &str, body: &str) -> (usize, Entry) {
    let (effects, entry) = enter_race(state, lineup, model, body.as_bytes(), None, 0, 0);
    (effects.len(), entry)
}

#[test]
fn racers_get_their_own_key_and_request() {
    let mut state = adaptive_state();
    let mut lineup = Lineup::new();
    let streaming = r#"{"model": "auto", "stream": true, "messages": []}"#;
    let first = match start(&mut state, &mut lineup, "fast-a", streaming) {
        (0, Entry::Start(racer)) => racer,
        _ => panic!("a start was expected"),
    };
    assert_eq!(first.accept, "text/event-stream");
    assert_eq!(first.text, br#"{"messages":[],"model":"fast-a","stream":true}"#);
    assert_eq!(first.lease.key, "key-a");
    assert_eq!(first.full_ms, 15000);
    assert_eq!(first.send_ms, 15000);
    let second = match start(&mut state, &mut lineup, "fast-b", BODY) {
        (0, Entry::Start(racer)) => racer,
        _ => panic!("a start was expected"),
    };
    assert_eq!(second.accept, "application/json");
    assert_eq!(second.lease.key, "key-b");
    assert_eq!(second.exchange.message_count, 1);
    assert_eq!(state.upstream_in_flight, 2);
    assert_eq!(lineup.started, 2);

    assert!(matches!(start(&mut state, &mut lineup, "x", "not json"), (0, Entry::Skip)));
    assert!(matches!(start(&mut state, &mut lineup, "x", "[1]"), (0, Entry::Unanswerable)));
    state.controls.max_upstream_in_flight = 2;
    assert!(matches!(start(&mut state, &mut lineup, "x", BODY), (1, Entry::Skip)));
    assert_eq!(lineup.skipped_overloaded, 1);
    state.controls.max_upstream_in_flight = 9;
    state.pool.mark_rate_limited(0, 1, 0);
    state.pool.mark_rate_limited(1, 1, 0);
    assert!(matches!(start(&mut state, &mut lineup, "x", BODY), (0, Entry::Skip)));
    assert_eq!(lineup.skipped_no_key, 1);
    let late = enter_race(&mut state, &mut lineup, "x", BODY.as_bytes(), Some(5), 0, 6);
    match late.1 {
        Entry::Deadline(reply) => assert_eq!(
            text(&reply),
            (504, "racing deadline exceeded after 30000ms".to_string())
        ),
        _ => panic!("the deadline was expected"),
    }
}

#[test]
fn a_race_without_starters_is_answered() {
    let mut state = adaptive_state();
    state.controls.racing_solo_fallback = false;
    let models = strings(&["a", "b"]);
    let answer = |state: &AppState, lineup: &Lineup| match after_start(state, &models, lineup).1 {
        RaceStart::Finish(reply) => text(&reply),
        _ => panic!("an answer was expected"),
    };
    let mut lineup = Lineup::new();
    assert_eq!(answer(&state, &lineup), (400, "no valid models to race".to_string()));
    lineup.skipped_overloaded = 1;
    assert_eq!(answer(&state, &lineup), (503, "gateway overloaded; retry later".to_string()));
    lineup.skipped_no_key = 1;
    assert_eq!(answer(&state, &lineup), (429, "all API keys rate-limited".to_string()));
    state.controls.racing_solo_fallback = true;
    let (effects, start) = after_start(&state, &models, &lineup);
    assert!(matches!(effects.as_slice(), [Effect::Fanout(0), Effect::Fanout(1)]));
    assert!(matches!(start, RaceStart::Solo(_)));
    lineup.started = 2;
    let (effects, start) = after_start(&state, &models, &lineup);
    assert!(matches!(effects.as_slice(), [Effect::Fanout(2)]));
    assert!(matches!(start, RaceStart::Wait));
}

fn racer() -> Racer {
    Racer {
        exchange: Exchange {
            requested_model: "auto".to_string(),
            responding_model: "m".to_string(),
            message_count: 1,
            has_tool_calls: false,
            tool_call_count: 0,
            is_racing: true,
        },
        text: b"{}".to_vec(),
        accept: "application/json",
        full_ms: 100,
        send_ms: 100,
        lease: KeyLease { key: "k".to_string(), label: Some("l".to_string()), idx: 3 },
    }
}

fn head(status: u16) -> ResponseHead {
    ResponseHead { status, retry_after: None, content_type: None }
}

#[test]
fn a_racer_that_is_not_answered_is_out() {
    let mut r = racer();
    let (effects, sent) = racer_after_send(&r, 30, 7, &SendOutcome::Failed("no route".to_string()));
    assert!(matches!(sent, RacerSent::Out(e) if e == "request error: no route"));
    assert!(matches!(
        effects.as_slice(),
        [Effect::ModelOutcome { latency_ms: 100, ok: false, .. }, Effect::Turn(t)]
            if t.latency_ms == 7 && t.status_code == 502
    ));
    let (_, sent) = racer_after_send(&r, 30, 7, &SendOutcome::TimedOut);
    assert!(matches!(sent, RacerSent::Out(e) if e == "timeout after 100ms"));
    r.send_ms = 20;
    let (effects, sent) = racer_after_send(&r, 30, 7, &SendOutcome::TimedOut);
    assert!(matches!(sent, RacerSent::Out(e) if e == "racing deadline exceeded after 30ms"));
    assert!(matches!(
        effects.as_slice(),
        [Effect::Timeout, Effect::ModelTimeout { elapsed_ms: 20, .. }, Effect::Turn(t)]
            if t.latency_ms == 100 && t.status_code == 504
    ));
}

#[test]
fn a_racer_that_is_answered_is_read() {
    let r = racer();
    let (effects, sent) = racer_after_send(&r, 30, 7, &SendOutcome::Answered(head(200)));
    assert!(matches!(sent, RacerSent::ReadBody));
    assert!(matches!(
        effects.as_slice(),
        [Effect::ModelOutcome { latency_ms: 7, ok: true, .. }, Effect::KeySucceeded(3)]
    ));
    let (effects, sent) = racer_after_send(&r, 30, 7, &SendOutcome::Answered(head(429)));
    assert!(matches!(sent, RacerSent::ReadBody));
    assert!(matches!(
        effects.as_slice(),
        [Effect::ModelOutcome { ok: false, .. }, Effect::KeyThrottled(3)]
    ));
    let (effects, sent) = racer_after_send(&r, 30, 7, &SendOutcome::Answered(head(500)));
    assert!(matches!(sent, RacerSent::ReadError));
    assert!(effects.is_empty());
}

#[test]
fn an_error_puts_a_racer_out() {
    let r = racer();
    let (effects, reason) = racer_after_error(&r, 7, 500, b"broken");
    assert_eq!(reason, Some("HTTP 500 from m: broken".to_string()));
    assert_eq!(effects.len(), 2);
    let (effects, _) = racer_after_error(&r, 7, 400, b"Invalid assistant message");
    assert!(matches!(
        &effects[1],
        Effect::HardError { error, .. } if error == "HTTP 400 from m: Invalid assistant message"
    ));
    let long = "x".repeat(500);
    let (_, reason) = racer_after_error(&r, 7, 500, long.as_bytes());
    assert_eq!(reason.unwrap(), format!("HTTP 500 from m: {}", "x".repeat(400)));
    let split = format!("{}\u{e4}", "x".repeat(399));
    let (effects, reason) = racer_after_error(&r, 7, 500, split.as_bytes());
    assert_eq!(reason, None);
    assert_eq!(effects.len(), 1);
    let (_, reason) = racer_after_error(&r, 7, 500, b"a\xffb");
    assert_eq!(reason, Some("HTTP 500 from m: a\u{fffd}b".to_string()));
}

#[test]
fn a_racer_has_until_the_deadline_to_read() {
    let r = racer();
    assert_eq!(racer_body_time(&r, None, 0, 30, 7).ok(), Some(100));
    assert_eq!(racer_body_time(&r, Some(50_000_000), 10_000_000, 30, 7).ok(), Some(40));
    let (effects, reason) = racer_body_time(&r, Some(10), 10, 30, 7).err().unwrap();
    assert_eq!(reason, "racing deadline exceeded after 30ms");
    assert!(matches!(
        effects.as_slice(),
        [Effect::Timeout, Effect::ModelTimeout { elapsed_ms: 100, .. }, Effect::Turn(t)]
            if t.latency_ms == 7
    ));
}

#[test]
fn a_racer_comes_in_with_what_it_read() {
    let r = racer();
    let answer = ResponseHead {
        status: 200,
        retry_after: Some("5".to_string()),
        content_type: Some("text/plain".to_string()),
    };
    let (effects, result) =
        racer_after_body(&r, 100, 30, 9, 7, &answer, &BodyOutcome::Read(b"hi".to_vec()));
    assert!(matches!(
        effects.as_slice(),
        [Effect::Turn(t)] if t.success && t.latency_ms == 7 && t.error.is_none()
    ));
    let finisher = match result {
        Arrival::Answered(finisher) => finisher,
        _ => panic!("an answer was expected"),
    };
    assert_eq!(finisher.model, "m");
    assert_eq!(finisher.retry_after_secs, 5);
    assert!(matches!(
        finisher.reply,
        Reply::Forward { status: 200, content_type, key_label: Some(l), unbuffered: false, body }
            if content_type == "text/plain" && l == "l" && body == b"hi"
    ));
    let failed = BodyOutcome::Failed("reset".to_string());
    let (_, result) = racer_after_body(&r, 100, 30, 9, 7, &answer, &failed);
    assert!(matches!(result, Arrival::Out(e) if e == "body error: reset"));
    let (_, result) = racer_after_body(&r, 100, 30, 9, 7, &answer, &BodyOutcome::TimedOut);
    assert!(matches!(result, Arrival::Out(e) if e == "body timeout after 100ms"));
    let (_, result) = racer_after_body(&r, 99, 30, 9, 7, &answer, &BodyOutcome::TimedOut);
    assert!(matches!(result, Arrival::Out(e) if e == "racing deadline exceeded after 30ms"));
    let (effects, _) =
        racer_after_body(&r, 100, 30, 9, 7, &head(302), &BodyOutcome::Read(vec![]));
    assert!(matches!(
        effects.as_slice(),
        [Effect::Turn(t)] if t.error.as_deref() == Some("HTTP 302")
    ));
}

#[test]
fn a_racer_takes_its_course() {
    let sent = |status: u16| RacerEvent::Sent {
        elapsed_ms: 7,
        outcome: SendOutcome::Answered(head(status)),
    };
    let mut flow = RacerFlow::new(racer(), None);
    let (effects, action) = racer_next(&mut flow, sent(200), 30, 0);
    assert_eq!(effects.len(), 2);
    assert!(matches!(action, RacerAction::Read { limit_ms: 100 }));
    let outcome = BodyOutcome::Read(b"hi".to_vec());
    let (_, action) = racer_next(&mut flow, RacerEvent::Read { elapsed_ms: 9, outcome }, 30, 0);
    assert!(matches!(action, RacerAction::Done(Arrival::Answered(f)) if f.status == 200));
    assert!(matches!(flow.phase, RacerPhase::Over));

    let mut flow = RacerFlow::new(racer(), None);
    assert!(matches!(racer_next(&mut flow, sent(500), 30, 0).1, RacerAction::ReadError));
    let (_, action) = racer_next(&mut flow, RacerEvent::ErrorRead(b"broken".to_vec()), 30, 0);
    assert!(matches!(
        action,
        RacerAction::Done(Arrival::Out(e)) if e == "HTTP 500 from m: broken"
    ));
    let mut flow = RacerFlow::new(racer(), None);
    racer_next(&mut flow, sent(500), 30, 0);
    let split = format!("{}\u{e4}", "x".repeat(399));
    let (effects, action) =
        racer_next(&mut flow, RacerEvent::ErrorRead(split.into_bytes()), 30, 0);
    assert_eq!(effects.len(), 1);
    assert!(matches!(action, RacerAction::Break));

    let mut flow = RacerFlow::new(racer(), Some(10));
    let (effects, action) = racer_next(&mut flow, sent(200), 30, 10);
    assert_eq!(effects.len(), 5);
    assert!(matches!(
        action,
        RacerAction::Done(Arrival::Out(e)) if e == "racing deadline exceeded after 30ms"
    ));
    let mut flow = RacerFlow::new(racer(), None);
    let late = RacerEvent::Sent { elapsed_ms: 7, outcome: SendOutcome::TimedOut };
    let (_, action) = racer_next(&mut flow, late, 30, 0);
    assert!(matches!(action, RacerAction::Done(Arrival::Out(e)) if e == "timeout after 100ms"));
}

fn finisher(status: u16, key: usize) -> Arrival {
    Arrival::Answered(Finisher {
        model: "m".to_string(),
        reply: Reply::Text { status, message: "answer".to_string() },
        status,
        key,
        retry_after_secs: 60,
    })
}

#[test]
fn the_first_answer_that_counts_wins() {
    let mut tally = Tally::new();
    let (effects, reply) = tally.arrive(finisher(429, 4));
    assert!(matches!(effects.as_slice(), [Effect::RateLimit]));
    assert!(reply.is_none());
    let (effects, reply) = tally.arrive(finisher(200, 1));
    assert!(matches!(effects.as_slice(), [Effect::RacingWin(m)] if m == "m"));
    assert_eq!(text(&reply.unwrap()), (200, "answer".to_string()));
    assert_eq!(tally.turned_away, vec![(4, 60)]);
}

fn lost(tally: &Tally, state: &AppState) -> (Vec<Effect<String>>, (u16, String)) {
    let models = strings(&["a", "b"]);
    match lose_race(tally, state, &models, &models) {
        (effects, RaceEnd::Finish(reply)) => (effects, text(&reply)),
        _ => panic!("an answer was expected"),
    }
}

#[test]
fn a_race_in_which_every_key_is_turned_away_is_answered_so() {
    let state = adaptive_state();
    let mut tally = Tally::new();
    tally.arrive(finisher(429, 0));
    tally.arrive(finisher(429, 1));
    let (effects, answer) = lost(&tally, &state);
    assert_eq!(answer, (429, "all racing requests rate-limited".to_string()));
    assert!(matches!(
        effects.as_slice(),
        [
            Effect::KeyRateLimited { key: 0, secs: 60 },
            Effect::KeyRateLimited { key: 1, secs: 60 }
        ]
    ));
}

#[test]
fn a_lost_race_is_answered_with_the_last_failure() {
    let mut state = adaptive_state();
    assert_eq!(lost(&Tally::new(), &state).1, (502, "all racing models failed".to_string()));
    let mut tally = Tally::new();
    tally.arrive(Arrival::Out("HTTP 404 from a: gone".to_string()));
    let (effects, answer) = lost(&tally, &state);
    assert_eq!(answer, (502, "HTTP 404 from a: gone".to_string()));
    assert!(matches!(effects.as_slice(), [Effect::AllRacersFailed]));
    tally.arrive(finisher(429, 7));
    assert_eq!(lost(&tally, &state).1, (502, "429 rate-limited (key 7)".to_string()));
    tally.arrive(Arrival::Crashed("task 3 panicked".to_string()));
    state.controls.racing_solo_fallback = false;
    assert_eq!(lost(&tally, &state).1, (502, "task 3 panicked".to_string()));
}

#[test]
fn a_transient_failure_gives_other_models_a_chance() {
    let mut state = adaptive_state();
    state.controls.racing_adaptive = false;
    let models = strings(&["a", "b", "c"]);
    let mut tally = Tally::new();
    tally.arrive(Arrival::Out("timeout after 5ms".to_string()));
    let (effects, end) = lose_race(&tally, &state, &models, &strings(&["a", "b"]));
    assert!(matches!(effects.as_slice(), [Effect::AllRacersFailed, Effect::Fanout(1)]));
    assert!(matches!(end, RaceEnd::Solo(list) if list == strings(&["c"])));
    let (_, end) = lose_race(&tally, &state, &models, &models);
    assert!(matches!(end, RaceEnd::Solo(list) if list == models));
}

#[test]
fn a_race_takes_its_course() {
    let mut state = adaptive_state();
    let models = strings(&["fast-a", "fast-b", "fallback-a"]);
    let race = |racers: &[&str], body: &str, deadline: Option<u128>| {
        RaceFlow::new(body.as_bytes().to_vec(), models.clone(), strings(racers), deadline)
    };
    let mut flow = race(&["fast-a", "fast-b"], BODY, None);
    for model in ["fast-a", "fast-b"] {
        match race_enter(&mut flow, &mut state, 0, 0).1 {
            RaceAction::Start(racer) => assert_eq!(racer.exchange.responding_model, model),
            _ => panic!("a start was expected"),
        }
    }
    let (effects, action) = race_enter(&mut flow, &mut state, 0, 0);
    assert!(matches!(effects.as_slice(), [Effect::Fanout(2)]));
    assert!(matches!(action, RaceAction::Wait));
    assert!(matches!(flow.phase, RacePhase::Running));
    assert!(matches!(race_arrive(&mut flow, &state, Some(finisher(429, 0))).1, RaceAction::Wait));
    let (effects, action) = race_arrive(&mut flow, &state, Some(finisher(200, 1)));
    assert!(matches!(effects.as_slice(), [Effect::RacingWin(_)]));
    assert!(matches!(action, RaceAction::Finish(reply) if text(&reply).0 == 200));
    assert!(matches!(flow.phase, RacePhase::Over));

    flow.phase = RacePhase::Running;
    let timeout = Arrival::Out("timeout after 5ms".to_string());
    race_arrive(&mut flow, &state, Some(timeout));
    let (effects, action) = race_arrive(&mut flow, &state, None);
    assert!(matches!(
        effects.as_slice(),
        [Effect::KeyRateLimited { key: 0, .. }, Effect::AllRacersFailed, Effect::Fanout(1)]
    ));
    assert!(matches!(action, RaceAction::Solo(list) if list == strings(&["fallback-a"])));

    let mut flow = race(&["fast-a"], "nonsense", None);
    assert!(matches!(race_enter(&mut flow, &mut state, 0, 0).1, RaceAction::Enter));
    state.controls.racing_solo_fallback = false;
    let (_, action) = race_enter(&mut flow, &mut state, 0, 0);
    assert!(matches!(
        action,
        RaceAction::Finish(reply) if text(&reply) == (400, "no valid models to race".to_string())
    ));
    let mut flow = race(&["fast-a"], "7", None);
    assert!(matches!(race_enter(&mut flow, &mut state, 0, 0).1, RaceAction::Unanswerable));
    let mut flow = race(&["fast-a"], BODY, Some(5));
    let (_, action) = race_enter(&mut flow, &mut state, 0, 6);
    assert!(matches!(action, RaceAction::Finish(reply) if text(&reply).0 == 504));
    assert!(matches!(flow.phase, RacePhase::Over));
}

fn solo(models: &[&str]) -> SoloFlow {
    solo_model_fallback(BODY.as_bytes().to_vec(), strings(models), None).0
}

fn key() -> KeyUse {
    KeyUse { idx: 1, label: None }
}

#[test]
fn models_are_tried_one_after_the_other() {
    let state = adaptive_state();
    let (mut flow, effects) = solo_model_fallback(BODY.as_bytes().to_vec(), strings(&["a", "b"]), None);
    assert!(matches!(effects.as_slice(), [Effect::SoloFallback, Effect::SequentialFallback]));
    assert!(matches!(solo_advance(&mut flow, &state, 0).0, SoloStep::Try));
    assert_eq!(flow.exchange.responding_model, "a");
    assert_eq!(flow.attempts_left, 1);
    let answered = SendOutcome::Answered(head(429));
    let (effects, sent) = solo_after_send(&mut flow, &key(), 9, 9, 30, 1, &answered);
    assert!(matches!(
        effects.as_slice(),
        [Effect::RateLimit, Effect::KeyRateLimited { key: 1, secs: 60 }]
    ));
    assert!(matches!(sent, SoloSent::Advance));
    assert!(matches!(solo_advance(&mut flow, &state, 0).0, SoloStep::Try));
    assert_eq!(flow.exchange.responding_model, "a");
    assert_eq!(flow.attempts_left, 0);
    let failed = SendOutcome::Failed("no route".to_string());
    solo_after_send(&mut flow, &key(), 9, 9, 30, 1, &failed);
    assert!(matches!(solo_advance(&mut flow, &state, 0).0, SoloStep::Try));
    assert_eq!(flow.exchange.responding_model, "b");
    let (_, sent) = solo_after_send(&mut flow, &key(), 9, 9, 30, 1, &SendOutcome::TimedOut);
    assert!(matches!(sent, SoloSent::Advance));
    match solo_advance(&mut flow, &state, 0).0 {
        SoloStep::Finish(reply) => {
            assert_eq!(text(&reply), (504, "upstream timeout after 9ms".to_string()))
        }
        _ => panic!("an answer was expected"),
    }
}

#[test]
fn a_fallback_takes_its_course() {
    let mut state = adaptive_state();
    let mut flow = solo(&["a", "b"]);
    assert!(matches!(solo_begin(&mut flow, &state, 0).1, SoloAction::Admit));
    let lease = |state: &mut AppState| {
        SoloEvent::Admitted(state.pool.next_key_with_permit(0).ok().unwrap())
    };
    let limit = attempt_times(&state, "a", None, 0).ok().unwrap().1;
    let event = lease(&mut state);
    let (_, action) = solo_next(&mut flow, &state, event, 0);
    assert!(matches!(action, SoloAction::Send { limit_ms } if limit_ms == limit));
    let sent = SoloEvent::Sent { elapsed_ms: 3, outcome: SendOutcome::Answered(head(500)) };
    let (effects, action) = solo_next(&mut flow, &state, sent, 0);
    assert!(effects.is_empty());
    assert!(matches!(action, SoloAction::Read { limit_ms } if limit_ms == limit));
    assert!(matches!(flow.phase, SoloPhase::Body { ttfc_ms: 3, .. }));
    let outcome = BodyOutcome::Read(b"oops".to_vec());
    let (effects, action) =
        solo_next(&mut flow, &state, SoloEvent::Read { elapsed_ms: 5, outcome }, 0);
    assert!(matches!(effects.as_slice(), [.., Effect::Turn(t)] if t.status_code == 500));
    assert!(matches!(action, SoloAction::Admit));
    assert_eq!(flow.exchange.responding_model, "b");

    let event = lease(&mut state);
    solo_next(&mut flow, &state, event, 0);
    let sent = SoloEvent::Sent { elapsed_ms: 3, outcome: SendOutcome::Answered(head(200)) };
    solo_next(&mut flow, &state, sent, 0);
    let outcome = BodyOutcome::Read(b"{}".to_vec());
    let (_, action) = solo_next(&mut flow, &state, SoloEvent::Read { elapsed_ms: 5, outcome }, 0);
    assert!(matches!(action, SoloAction::Finish(reply) if status(&reply) == 200));
    assert!(matches!(flow.phase, SoloPhase::Over));

    let (mut late, _) = solo_model_fallback(BODY.as_bytes().to_vec(), strings(&["a"]), Some(9_000_000));
    assert!(matches!(solo_begin(&mut late, &state, 0).1, SoloAction::Admit));
    let event = lease(&mut state);
    let (effects, action) = solo_next(&mut late, &state, event, 9_000_000);
    assert_eq!(effects.len(), 2);
    assert!(matches!(action, SoloAction::Finish(reply) if status(&reply) == 504));
}

#[test]
fn the_list_of_models_to_try_ends() {
    let state = adaptive_state();
    let answer = |flow: &mut SoloFlow, now: u128| match solo_advance(flow, &state, now) {
        (SoloStep::Finish(reply), effects) => (text(&reply), effects.len()),
        _ => panic!("an answer was expected"),
    };
    let mut empty = solo(&[]);
    assert_eq!(answer(&mut empty, 0), ((429, "all API keys rate-limited".to_string()), 1));
    let (mut late, _) = solo_model_fallback(BODY.as_bytes().to_vec(), strings(&["a"]), Some(1));
    assert_eq!(
        answer(&mut late, 2),
        ((504, "racing deadline exceeded after 30000ms".to_string()), 2)
    );
    let (mut odd, _) = solo_model_fallback(b"nonsense".to_vec(), strings(&["a"]), None);
    assert_eq!(answer(&mut odd, 0), ((400, "invalid JSON body".to_string()), 0));
    let (mut number, _) = solo_model_fallback(b"7".to_vec(), strings(&["a"]), None);
    assert!(matches!(solo_advance(&mut number, &state, 0).0, SoloStep::Unanswerable));
}

#[test]
fn a_solo_answer_is_passed_on_or_tried_elsewhere() {
    let state = adaptive_state();
    let read = |status: u16, body: &str| {
        let mut flow = solo(&["a"]);
        solo_advance(&mut flow, &state, 0);
        let outcome = BodyOutcome::Read(body.as_bytes().to_vec());
        let (effects, step) =
            solo_after_body(&mut flow, &key(), 9, 9, 30, 5, 4, &head(status), &outcome);
        (flow, effects, step)
    };
    let (_, effects, step) = read(200, "fine");
    assert!(matches!(
        effects.as_slice(),
        [
            Effect::KeySucceeded(1),
            Effect::ModelOutcome { latency_ms: 4, ok: true, .. },
            Effect::Turn(_),
            Effect::RacingWin(_)
        ]
    ));
    assert!(matches!(step, SoloRead::Finish(reply) if status(&reply) == 200));
    let (flow, effects, step) = read(503, "down");
    assert_eq!(effects.len(), 2);
    assert!(matches!(step, SoloRead::Advance));
    assert_eq!(flow.last_error, Some((503, "down".to_string())));
    let (flow, effects, step) = read(400, "BadRequestError");
    assert!(matches!(&effects[0], Effect::HardError { .. }));
    assert!(matches!(step, SoloRead::Advance));
    assert_eq!(flow.last_error, Some((400, "BadRequestError".to_string())));
    let (_, _, step) = read(404, "gone");
    assert!(matches!(step, SoloRead::Finish(reply) if status(&reply) == 404));

    let mut flow = solo(&["a"]);
    let failed = BodyOutcome::Failed("reset".to_string());
    let (effects, _) = solo_after_body(&mut flow, &key(), 9, 9, 30, 5, 4, &head(200), &failed);
    assert!(matches!(effects.as_slice(), [Effect::Turn(t)] if t.latency_ms == 5));
    assert_eq!(flow.last_error, Some((502, "reset".to_string())));
    let (_, _) =
        solo_after_body(&mut flow, &key(), 9, 3, 30, 5, 4, &head(200), &BodyOutcome::TimedOut);
    assert_eq!(flow.last_error, Some((504, "racing deadline exceeded after 30ms".to_string())));
}

#[test]
fn an_attempt_gets_the_time_that_is_left() {
    let state = adaptive_state();
    assert_eq!(attempt_times(&state, "a", None, 0).ok(), Some((15000, 15000)));
    let times = attempt_times(&state, "a", Some(7_999_999), 0).ok();
    assert_eq!(times, Some((15000, 7)));
    assert!(attempt_times(&state, "a", Some(999_999), 0).is_err());
}

#[test]
fn a_solo_answer_has_until_the_deadline_to_be_read() {
    let (flow, _) = solo_model_fallback(vec![], vec![], Some(9_000_000));
    assert_eq!(solo_body_time(&flow, 70, 30, 4_000_000).ok(), Some(5));
    assert_eq!(solo_body_time(&flow, 3, 30, 4_000_000).ok(), Some(3));
    let (reply, effects) = solo_body_time(&flow, 70, 30, 9_000_000).err().unwrap();
    assert_eq!(text(&reply), (504, "racing deadline exceeded after 30ms".to_string()));
    assert!(matches!(effects.as_slice(), [Effect::Timeout, Effect::DeadlineExceeded]));
}
