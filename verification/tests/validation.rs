//! Which models may be requested, and what the gateway says of itself.

use nimaproxy::effect::{Effect, Reply};
use nimaproxy::endpoints::{
    health, models, models_from_upstream, props, stats, ModelNumbers, ModelsStep,
};
use nimaproxy::json::Json;
use nimaproxy::model_id::normalize_requested_model;
use nimaproxy::router::ModelRouter;
use nimaproxy::samples::{p95_of, LatencySamples};
use nimaproxy::state::{
    check_model_configured, timeout_for_model, validate_model_exists, AppState, ModelCompat,
    RuntimeControls,
};
use nimaproxy::stats::ModelStatsStore;
use nimaproxy::wire::from_value;
use serde_json::Value;

fn strings(list: &[&str]) -> Vec<String> {
    list.iter().map(|s| s.to_string()).collect()
}

fn state_with_keys(keys: Vec<(String, Option<String>)>) -> AppState {
    AppState::new(
        keys,
        None,
        ModelStatsStore::new(3000),
        vec![],
        3,
        8000,
        vec![],
        ModelCompat { supports_developer_role: None, supports_tool_messages: None },
        RuntimeControls {
            racing_adaptive: false,
            racing_min_parallel: 2,
            racing_pressure_parallel: 6,
            racing_degraded_parallel: 3,
            racing_fast_models: vec![],
            racing_fallback_models: vec![],
            racing_large_prompt_char_threshold: 0,
            racing_large_prompt_parallel: 1,
            racing_solo_fallback: true,
            racing_max_total_request_ms: 30000,
            max_upstream_in_flight: 64,
            max_in_flight_per_key: 4,
            admission_wait_ms: 250,
            min_dynamic_timeout_ms: 2000,
            dynamic_sample_floor: 2,
        },
    )
}

fn state() -> AppState {
    state_with_keys(vec![])
}

fn body(reply: Reply) -> Value {
    match reply {
        Reply::Forward { status, content_type, key_label, unbuffered, body } => {
            assert_eq!(status, 200);
            assert_eq!(content_type, "application/json");
            assert_eq!(key_label, None);
            assert!(!unbuffered);
            serde_json::from_slice(&body).unwrap()
        }
        Reply::Text { .. } => panic!("JSON was expected"),
    }
}

fn parsed(text: &str) -> Value {
    serde_json::from_str(text).unwrap()
}

#[test]
fn test_validate_model_exists_empty_model() {
    assert!(validate_model_exists("", &state()).is_ok());
}

#[test]
fn test_validate_model_exists_auto_model() {
    assert!(validate_model_exists("auto", &state()).is_ok());
}

#[test]
fn test_validate_model_exists_nimaproxy_auto_alias() {
    assert!(validate_model_exists("nimaproxy/auto", &state()).is_ok());
}

#[test]
fn test_validate_model_exists_in_available_models() {
    let mut state = state();
    state.available_models.push("openai/gpt-4".to_string());
    assert!(validate_model_exists("openai/gpt-4", &state).is_ok());
}

#[test]
fn test_validate_model_exists_not_in_available_models() {
    let mut state = state();
    state.available_models.push("openai/gpt-4".to_string());
    let result = validate_model_exists("anthropic/model", &state);
    assert!(result.is_err());
    assert!(result.unwrap_err().contains("not found"));
}

#[test]
fn test_validate_model_exists_in_racing_models() {
    let mut state = state();
    state.racing_models = vec!["mistralai/mistral-medium-3.5-128b".to_string()];
    assert!(validate_model_exists("mistralai/mistral-medium-3.5-128b", &state).is_ok());
}

#[test]
fn test_validate_model_exists_with_router() {
    let mut state = state();
    state.router = Some(ModelRouter::new(vec!["model1".to_string(), "model2".to_string()]));
    assert!(validate_model_exists("model1", &state).is_ok());
    let result = validate_model_exists("any-model", &state);
    assert!(result.is_err());
    assert!(result.unwrap_err().contains("not found"));
}

#[test]
fn test_validate_model_exists_passthrough_mode() {
    assert!(validate_model_exists("some-random-model", &state()).is_ok());
}

#[test]
fn an_unknown_model_is_named_in_the_message() {
    let configured = strings(&["a"]);
    assert_eq!(
        check_model_configured("b", &configured),
        Err("model 'b' not found in configured models".to_string())
    );
    assert_eq!(check_model_configured("a", &configured), Ok(()));
    assert_eq!(check_model_configured("nimaproxy/auto", &configured), Ok(()));
    assert_eq!(normalize_requested_model("nimaproxy/auto"), "auto");
    assert_eq!(normalize_requested_model("nimaproxy/auto2"), "nimaproxy/auto2");
}

#[test]
fn configured_models_are_listed_once() {
    let mut state = state();
    state.router = Some(ModelRouter::new(strings(&["b", "a", "b"])));
    state.racing_models = strings(&["c", "a"]);
    state.available_models = strings(&["d", "c"]);
    assert_eq!(state.configured_models(), strings(&["b", "a", "c", "d"]));
    assert!(state.routing_enabled());
    assert!(state.racing_enabled());
    match models(&mut state, 0) {
        ModelsStep::Finish(reply) => assert_eq!(
            body(reply),
            parsed(
                r#"{"object": "list", "data": [
                    {"id": "b", "object": "model", "owned_by": "nimaproxy"},
                    {"id": "a", "object": "model", "owned_by": "nimaproxy"},
                    {"id": "c", "object": "model", "owned_by": "nimaproxy"},
                    {"id": "d", "object": "model", "owned_by": "nimaproxy"}
                ]}"#
            )
        ),
        ModelsStep::Ask(_) => panic!("a list was expected"),
    }
}

#[test]
fn upstream_is_asked_for_models_where_none_is_configured() {
    let mut keyless = state();
    assert!(matches!(
        models(&mut keyless, 0),
        ModelsStep::Finish(Reply::Text { status: 429, message }) if message == "no active API keys"
    ));
    let mut state =
        state_with_keys(vec![("first".to_string(), None), ("second".to_string(), None)]);
    assert!(matches!(models(&mut state, 0), ModelsStep::Ask(key) if key == "first"));
    assert!(matches!(models(&mut state, 0), ModelsStep::Ask(key) if key == "second"));
    assert!(matches!(models(&mut state, 0), ModelsStep::Ask(key) if key == "first"));
    state.pool.mark_rate_limited(0, 2, 0);
    assert!(matches!(models(&mut state, 1999), ModelsStep::Ask(key) if key == "second"));
    assert!(matches!(models(&mut state, 1999), ModelsStep::Ask(key) if key == "second"));
    assert!(matches!(models(&mut state, 2000), ModelsStep::Ask(key) if key == "first"));
    assert!(matches!(
        models_from_upstream(Ok((404, b"x".to_vec()))),
        Reply::Forward { status: 404, content_type, .. } if content_type == "application/json"
    ));
    assert!(matches!(
        models_from_upstream(Err("down".to_string())),
        Reply::Text { status: 502, message } if message == "down"
    ));
}

#[test]
fn health_shows_keys_and_limits() {
    let mut state = state_with_keys(vec![
        ("nvapi-12345678".to_string(), Some("one".to_string())),
        ("abc".to_string(), None),
    ]);
    state.pool.mark_rate_limited(1, 3, 500);
    state.racing_models = strings(&["m"]);
    let v = body(health(&state, 1000));
    assert_eq!(v["status"], "UP");
    assert_eq!(v["keys_total"], 2);
    assert_eq!(v["keys_active"], 1);
    assert_eq!(
        v["keys"],
        parsed(
            r#"[
                {"label": "one", "key_hint": "...5678", "active": true, "cooldown_secs_remaining": 0,
                 "in_flight": 0, "max_in_flight": 4, "configured_max_in_flight": 4},
                {"label": null, "key_hint": "...", "active": false, "cooldown_secs_remaining": 2,
                 "in_flight": 0, "max_in_flight": 4, "configured_max_in_flight": 4}
            ]"#
        )
    );
    assert_eq!(v["gateway_limit"], 64);
    assert_eq!(v["key_window_capacity"], 4);
    assert_eq!(v["key_available_permits"], 4);
    assert_eq!(v["admission_wait_ms"], 250);
    assert_eq!(v["routing_enabled"], false);
    assert_eq!(v["racing_enabled"], true);
    assert_eq!(v["routing_models"], parsed("[]"));
    assert_eq!(v["racing_models"], parsed(r#"["m"]"#));
    assert_eq!(v["racing_max_parallel"], 3);
    assert_eq!(v["racing_timeout_ms"], 8000);
    assert_eq!(v["racing_max_total_request_ms"], 30000);
    assert_eq!(v["racing_solo_fallback"], true);
    assert_eq!(v.as_object().unwrap().len(), 23);
    assert_eq!(body(health(&state_with_keys(vec![]), 0))["status"], "DEGRADED");
}

#[test]
fn stats_show_models_and_counters() {
    let mut state = state();
    let effects = vec![
        Effect::Request { racing: true },
        Effect::Fanout(3),
        Effect::RacingWin("m".to_string()),
        Effect::RacingWin("m".to_string()),
        Effect::Timeout,
        Effect::ModelOutcome {
            model: "m".to_string(),
            key_label: None,
            latency_ms: 4000,
            ok: false,
        },
        Effect::ServerDegraded("m".to_string()),
    ];
    state.apply_all(&effects, 0);
    let half = from_value(Value::from(0.5));
    let numbers = ModelNumbers {
        avg_ms: half,
        p95_ms: Json::Null,
        success_rate: from_value(Value::from(0.0)),
    };
    let list = vec![("m".to_string(), numbers)];
    let v = body(stats(&state, &list, from_value(Value::from(3.0)), 0));
    assert_eq!(
        v["models"],
        parsed(
            r#"[{"model": "m", "avg_ms": 0.5, "p95_ms": null, "total": 1, "success": 0,
                 "success_rate": 0.0, "sample_count": 1, "consecutive_failures": 1,
                 "degraded": true}]"#
        )
    );
    let gateway = &v["gateway"];
    assert_eq!(gateway["request_total"], 1);
    assert_eq!(gateway["racing_requests"], 1);
    assert_eq!(gateway["direct_requests"], 0);
    assert_eq!(gateway["fanout_total"], 3);
    assert_eq!(gateway["fanout_samples"], 1);
    assert_eq!(gateway["fanout_avg"], 3.0);
    assert_eq!(gateway["timeout_count"], 1);
    assert_eq!(gateway["racing_wins"], parsed(r#"{"m": 2}"#));
    assert_eq!(gateway.as_object().unwrap().len(), 22);
    assert_eq!(v.as_object().unwrap().len(), 17);
}

#[test]
fn statistics_show_every_model_once_in_the_order_of_first_use() {
    let mut state = state();
    for model in ["b", "a", "b", "c", "a"] {
        state.model_stats.record(model, 10, true);
    }
    state.model_stats.block("d");
    state.model_stats.block("a");
    let v = body(stats(&state, &vec![], Json::Null, 0));
    let shown: Vec<(&str, u64)> = v["models"]
        .as_array()
        .unwrap()
        .iter()
        .map(|m| (m["model"].as_str().unwrap(), m["total"].as_u64().unwrap()))
        .collect();
    assert_eq!(shown, vec![("b", 2), ("a", 2), ("c", 1), ("d", 0)]);
    assert_eq!(v["models"][1]["degraded"], true);
    assert_eq!(v["models"][1]["avg_ms"], Value::Null);
}

#[test]
fn an_average_above_the_threshold_counts_to_the_fraction() {
    let mut stats = ModelStatsStore::new(3000);
    for ms in [3000, 3000, 3000] {
        stats.record("m", ms, true);
    }
    assert!(!stats.degraded("m"));
    stats.record("m", 3001, true);
    assert!(stats.degraded("m"));
    let mut fine = ModelStatsStore::with_threshold_us(3_000_250);
    for ms in [3000, 3000, 3000, 3001] {
        fine.record("m", ms, true);
    }
    assert!(!fine.degraded("m"));
    fine.record("m", 3001, true);
    assert!(fine.degraded("m"));
}

#[test]
fn latencies_are_kept_in_a_window() {
    let mut samples = LatencySamples::new();
    assert_eq!(samples.p95("m"), None);
    for ms in 1..=100 {
        samples.keep("m", ms);
    }
    assert_eq!(samples.p95("m"), Some(95));
    for _ in 0..195 {
        samples.keep("m", 7);
    }
    assert_eq!(samples.p95("m"), Some(7));
    samples.keep("n", 3);
    samples.note(&Effect::ModelTimeout { model: "n".to_string(), key_label: None, elapsed_ms: 5 });
    samples.note(&Effect::Timeout);
    assert_eq!(samples.p95("n"), Some(5));
    assert_eq!(samples.entries[0].1.len(), 200);
    assert_eq!(p95_of(&vec![9, 1, 4]), Some(9));
}

#[test]
fn props_show_abilities() {
    assert_eq!(
        body(props()),
        parsed(
            r#"{
                "contextWindow": 131072,
                "input": true,
                "supports_developer_role": true,
                "supports_tool_messages": true,
                "supports_tool_calls": true,
                "supports_embeddings": true,
                "supports_completions": true,
                "supported_roles": ["user", "assistant", "system", "tool", "developer", "function"],
                "tool_capabilities": {
                    "function_calling": true,
                    "code_interpreter": false,
                    "image_generation": false
                }
            }"#
        )
    );
}

#[test]
fn test_proxy_http_error_recording() {
    let mut state = state();
    state.model_stats = ModelStatsStore::new(100);
    state.model_stats.record("test-model", 1000, false);
    let snapshot = state.model_stats.snapshot();
    assert!(snapshot.iter().any(|s| s.id == "test-model"));
}

#[test]
fn test_circuit_breaker_state_transitions() {
    let mut stats = ModelStatsStore::new(100);
    for _ in 0..10 {
        stats.record("degraded-model", 5000, false);
    }
    let snapshot = stats.snapshot();
    assert!(snapshot.iter().any(|s| s.id == "degraded-model"));
}

#[test]
fn slow_models_are_degraded_and_get_a_time_of_their_own() {
    let mut state = state();
    assert_eq!(timeout_for_model(&state, "m"), 8000);
    state.model_stats.record("m", 1500, true);
    assert_eq!(timeout_for_model(&state, "m"), 8000);
    state.model_stats.record("m", 1500, true);
    assert_eq!(timeout_for_model(&state, "m"), 3000);
    assert!(!state.model_stats.degraded("m"));
    state.model_stats.record("m", 9000, true);
    assert!(state.model_stats.degraded("m"));
    assert_eq!(timeout_for_model(&state, "m"), 8000);
    let shown = state.model_stats.snapshot();
    assert_eq!(shown.len(), 1);
    assert!(shown[0].degraded);
    assert_eq!(shown[0].record.total, 3);
}

#[test]
fn requests_add_up() {
    let mut state = state();
    let effects = vec![
        Effect::Request { racing: true },
        Effect::Request { racing: false },
        Effect::Request { racing: false },
        Effect::Overload,
        Effect::NoKey,
        Effect::RateLimit,
        Effect::SoloFallback,
        Effect::SequentialFallback,
        Effect::AllRacersFailed,
        Effect::DeadlineExceeded,
    ];
    state.apply_all(&effects, 0);
    let m = &state.metrics;
    assert_eq!(m.request_total, m.direct_requests + m.racing_requests);
    assert_eq!((m.request_total, m.direct_requests, m.racing_requests), (3, 2, 1));
    assert_eq!((m.overload_rejects, m.no_key_rejects, m.rate_limit_count), (1, 1, 1));
    assert_eq!((m.solo_fallbacks, m.sequential_fallbacks), (1, 1));
    assert_eq!((m.racing_all_failed, m.racing_deadline_exceeded), (1, 1));
}

#[test]
fn effects_reach_the_keys_and_the_models() {
    let mut state = state_with_keys(vec![("a".to_string(), None)]);
    state.apply(&Effect::KeyThrottled(0), 0);
    assert_eq!(state.pool.window_capacity(0), 3);
    state.apply(&Effect::KeySucceeded(0), 0);
    assert_eq!(state.pool.window_capacity(0), 4);
    state.apply(&Effect::KeyRateLimited { key: 0, secs: 2 }, 500);
    assert_eq!(state.pool.active_count(2499), 0);
    assert_eq!(state.pool.active_count(2500), 1);
    state.apply(&Effect::KeyThrottled(7), 0);
    state.apply(
        &Effect::HardError { model: "m".to_string(), error: "e".to_string() },
        0,
    );
    assert!(state.model_stats.degraded("m"));
    state.apply(
        &Effect::ModelTimeout { model: "m".to_string(), key_label: None, elapsed_ms: 9 },
        0,
    );
    assert!(state.model_stats.degraded("m"));
    assert_eq!(state.model_stats.get("m").consecutive_failures, 1);
    state.apply(
        &Effect::ModelQuality {
            model: "m".to_string(),
            latency_ms: 1,
            ok: true,
            output_tokens: 5,
            repetitions: 0,
            tool_call: false,
        },
        0,
    );
    assert!(!state.model_stats.degraded("m"));
}

#[test]
fn resolving_the_alias_twice_changes_nothing() {
    let once = normalize_requested_model("nimaproxy/auto");
    assert_eq!(normalize_requested_model(once), once);
}
