//! From a client's request to the request that goes upstream.

use nimaproxy::json::{Json, Num};
use nimaproxy::params::{
    accept_header_for_body, accept_header_for_json, apply_model_params, ModelParams,
};
use nimaproxy::prepare::{
    prepare_any_body, prepare_model_body, request_for_model, requested_model_of,
    resolve_any_model, resolve_model, resolve_request, transform_message_roles, Prepared,
};
use nimaproxy::router::ModelRouter;
use nimaproxy::state::{AppState, ModelCompat, RuntimeControls};
use nimaproxy::stats::ModelStatsStore;
use nimaproxy::wire::{copy_json, from_value, into_value, parse_json, print_json};
use serde_json::Value;

fn strings(list: &[&str]) -> Vec<String> {
    list.iter().map(|s| s.to_string()).collect()
}

fn state() -> AppState {
    AppState::new(
        vec![],
        None,
        ModelStatsStore::new(3000),
        vec![],
        3,
        8000,
        vec![],
        ModelCompat { supports_developer_role: None, supports_tool_messages: None },
        RuntimeControls {
            racing_adaptive: false,
            racing_min_parallel: 2,
            racing_pressure_parallel: 2,
            racing_degraded_parallel: 2,
            racing_fast_models: vec![],
            racing_fallback_models: vec![],
            racing_large_prompt_char_threshold: 0,
            racing_large_prompt_parallel: 1,
            racing_solo_fallback: true,
            racing_max_total_request_ms: 0,
            max_upstream_in_flight: 64,
            max_in_flight_per_key: 4,
            admission_wait_ms: 0,
            min_dynamic_timeout_ms: 8000,
            dynamic_sample_floor: 10,
        },
    )
}

fn json(text: &str) -> Json {
    from_value(serde_json::from_str(text).unwrap())
}

fn parsed(text: &str) -> Value {
    serde_json::from_str(text).unwrap()
}

fn number(n: f64) -> Option<Json> {
    Some(from_value(Value::from(n)))
}

fn whole(n: u64) -> Option<Json> {
    Some(Json::Number(Num::Unsigned(n)))
}

#[test]
fn test_apply_model_params_uses_nested_chat_template_kwargs() {
    let mut j = json(
        r#"{
            "model": "deepseek-ai/deepseek-v4-flash",
            "messages": [{"role": "user", "content": "test"}],
            "chat_template_kwargs": {"client_value": true},
            "stream": true
        }"#,
    );
    let params = ModelParams {
        temperature: number(1.0),
        top_p: number(0.95),
        max_tokens: whole(16384),
        reasoning_budget: whole(16384),
        stream: Some(true),
        chat_template_kwargs: Some(vec![
            ("thinking".to_string(), Json::Bool(true)),
            ("enable_thinking".to_string(), Json::Bool(true)),
            ("reasoning_effort".to_string(), Json::Str("high".to_string())),
        ]),
        ..ModelParams::none()
    };

    apply_model_params(&mut j, &params);
    let v = into_value(j);

    assert_eq!(v["temperature"], Value::from(1.0));
    assert_eq!(v["top_p"], Value::from(0.95));
    assert_eq!(v["max_tokens"], Value::from(16384));
    assert_eq!(v["reasoning_budget"], Value::from(16384));
    assert_eq!(v["stream"], Value::from(true));
    assert_eq!(v["chat_template_kwargs"]["client_value"], Value::from(true));
    assert_eq!(v["chat_template_kwargs"]["thinking"], Value::from(true));
    assert_eq!(v["chat_template_kwargs"]["enable_thinking"], Value::from(true));
    assert_eq!(v["chat_template_kwargs"]["reasoning_effort"], Value::from("high"));
    assert!(v.get("thinking").is_none());
}

#[test]
fn test_apply_model_params_preserves_explicit_stream_choice() {
    let mut j = json(
        r#"{
            "model": "z-ai/glm-5.1",
            "messages": [{"role": "user", "content": "test"}],
            "stream": false
        }"#,
    );
    let params = ModelParams { stream: Some(true), ..ModelParams::none() };

    apply_model_params(&mut j, &params);

    assert_eq!(accept_header_for_json(&j), "application/json");
    assert_eq!(into_value(j)["stream"], Value::from(false));
}

#[test]
fn test_apply_model_params_does_not_enable_stream_when_omitted() {
    let mut j = json(
        r#"{
            "model": "z-ai/glm-5.1",
            "messages": [{"role": "user", "content": "test"}]
        }"#,
    );
    let params = ModelParams { stream: Some(true), ..ModelParams::none() };

    apply_model_params(&mut j, &params);

    assert!(j.get("stream").is_none());
    assert_eq!(accept_header_for_json(&j), "application/json");
}

#[test]
fn params_are_defaults_and_overrides() {
    let mut j = json(
        r#"{"max_tokens": 5, "temperature": 2, "stream": null, "chat_template_kwargs": 7}"#,
    );
    let params = ModelParams {
        temperature: number(0.5),
        top_k: whole(40),
        frequency_penalty: number(0.1),
        presence_penalty: number(0.2),
        repetition_penalty: number(1.1),
        min_p: number(0.05),
        max_tokens: whole(100),
        reasoning_effort: Some("low".to_string()),
        seed: whole(1),
        stream: Some(false),
        chat_template_kwargs: Some(vec![("a".to_string(), Json::Null)]),
        ..ModelParams::none()
    };
    apply_model_params(&mut j, &params);
    assert_eq!(
        into_value(j),
        parsed(
            r#"{"max_tokens": 5, "temperature": 0.5, "top_k": 40, "frequency_penalty": 0.1,
                "presence_penalty": 0.2, "repetition_penalty": 1.1, "min_p": 0.05,
                "reasoning_effort": "low", "seed": 1, "stream": false,
                "chat_template_kwargs": {"a": null}}"#
        )
    );
}

#[test]
fn streams_are_asked_for_by_the_request() {
    assert_eq!(accept_header_for_body(br#"{"stream": true}"#), "text/event-stream");
    assert_eq!(accept_header_for_body(br#"{"stream": "true"}"#), "application/json");
    assert_eq!(accept_header_for_body(b"nonsense"), "application/json");
}

#[test]
fn a_request_is_rewritten_for_its_model() {
    let mut state = state();
    state.model_compat = ModelCompat {
        supports_developer_role: Some(vec![]),
        supports_tool_messages: Some(strings(&["m"])),
    };
    state.model_params = vec![(
        "m".to_string(),
        ModelParams { max_tokens: whole(9), ..ModelParams::none() },
    )];
    let mut j = json(
        r#"{"model": "auto", "stream": true, "messages": [
            {"role": "tool", "content": "r", "tool_call_id": "1"},
            {"role": "developer", "content": "go on"},
            {"role": "assistant", "tool_calls": []}
        ]}"#,
    );
    request_for_model(&mut j, "m", &state);
    assert_eq!(
        into_value(j),
        parsed(
            r#"{"model": "m", "stream": true, "max_tokens": 9, "messages": [
                {"role": "tool", "content": "r", "tool_call_id": "1"},
                {"role": "assistant", "content": ""},
                {"role": "user", "content": "go on"},
                {"role": "assistant", "content": ""}
            ]}"#
        )
    );
}

#[test]
fn a_role_that_is_replaced_needs_no_gap() {
    let mut state = state();
    state.model_compat.supports_tool_messages = Some(vec![]);
    let body = br#"{"messages": [{"role": "tool", "content": "r"}, {"role": "user", "content": "x"}]}"#;
    let text = prepare_model_body(&state, body, "m").unwrap();
    assert_eq!(
        serde_json::from_slice::<Value>(&text).unwrap(),
        parsed(
            r#"{"model": "m", "messages": [
                {"role": "assistant", "content": "r"}, {"role": "user", "content": "x"}
            ]}"#
        )
    );
}

#[test]
fn a_text_is_prepared_if_it_is_a_request() {
    let state = state();
    match prepare_any_body(&state, b"null", "m") {
        Prepared::Ready(text) => assert_eq!(text, br#"{"model":"m"}"#),
        _ => panic!("a request was expected"),
    }
    assert!(matches!(prepare_any_body(&state, b"{", "m"), Prepared::NotJson));
    assert!(matches!(prepare_any_body(&state, b"[]", "m"), Prepared::NotAssignable));
    assert_eq!(prepare_model_body(&state, b"{", "m"), None);
}

#[test]
fn what_was_prepared_is_read_back() {
    let state = state();
    let body = "{\"stream\": true, \"n\": -3, \"s\": \"q\\\"\\u00e9\\n\", \"big\": 18446744073709551615}";
    let text = prepare_model_body(&state, body.as_bytes(), "m").unwrap();
    assert_eq!(accept_header_for_body(&text), "text/event-stream");
    let mut expected = json(body);
    request_for_model(&mut expected, "m", &state);
    assert_eq!(into_value(parse_json(&text).unwrap()), into_value(expected));
}

#[test]
fn an_open_choice_goes_to_the_router() {
    let mut state = state();
    state.router = Some(ModelRouter::new(strings(&["a", "b"])));
    let (model, text) = resolve_model(br#"{"model": "auto"}"#, &mut state);
    assert_eq!((model.as_str(), text.as_slice()), ("a", br#"{"model":"a"}"#.as_slice()));
    let (model, _) = resolve_model(br#"{}"#, &mut state);
    assert_eq!(model, "b");
    state.model_stats.block("a");
    let (model, _) = resolve_model(br#"{"model": "nimaproxy/auto"}"#, &mut state);
    assert_eq!(model, "b");
    let (model, _) = resolve_model(br#"{"model": "c"}"#, &mut state);
    assert_eq!(model, "c");
}

#[test]
fn without_a_router_the_alias_is_resolved() {
    let mut state = state();
    let (model, text) = resolve_model(br#"{"model": "nimaproxy/auto"}"#, &mut state);
    assert_eq!((model.as_str(), text.as_slice()), ("auto", br#"{"model":"auto"}"#.as_slice()));
    let (model, text) = resolve_model(br#"{"a": 1}"#, &mut state);
    assert_eq!((model.as_str(), text.as_slice()), ("unknown", br#"{"a":1}"#.as_slice()));
    let (model, text) = resolve_model(b"nonsense", &mut state);
    assert_eq!((model.as_str(), text.as_slice()), ("unknown", b"nonsense".as_slice()));
}

#[test]
fn json_that_takes_no_members_may_not_be_resolved() {
    let mut state = state();
    assert!(matches!(
        resolve_any_model(b"[1]", &mut state),
        Some((model, text)) if model == "unknown" && text == b"[1]"
    ));
    state.router = Some(ModelRouter::new(strings(&["a"])));
    assert!(resolve_any_model(b"[1]", &mut state).is_none());
    assert!(resolve_any_model(b"null", &mut state).is_some());
}

#[test]
fn what_the_router_offers_is_written_into_the_request() {
    let mut state = state();
    state.router = Some(ModelRouter::new(strings(&["a"])));
    let mut j = json(r#"{"model": "auto"}"#);
    assert_eq!(resolve_request(&mut j, Some("offered"), &state), "offered");
    assert_eq!(into_value(j), parsed(r#"{"model": "offered"}"#));
    let mut j = json(r#"{"model": "auto"}"#);
    assert_eq!(resolve_request(&mut j, None, &state), "auto");
}

#[test]
fn requests_name_models() {
    assert_eq!(requested_model_of(br#"{"model": "x"}"#), "x");
    assert_eq!(requested_model_of(br#"{"model": 7}"#), "");
    assert_eq!(requested_model_of(b"nonsense"), "");
}

#[test]
fn values_are_converted_and_copied() {
    let text = r#"{"a":[null,true,-5,7,1.5,"x"],"b":{"c":{}}}"#;
    let j = json(text);
    let copy = copy_json(&j);
    assert_eq!(into_value(j), parsed(text));
    assert_eq!(String::from_utf8(print_json(copy)).unwrap(), text);
    assert!(parse_json(b"{\"a\": }").is_none());
    assert!(parse_json(b"\xff").is_none());
    let twice = parse_json(br#"{"k": 1, "k": 2}"#).unwrap();
    assert_eq!(twice.get("k").unwrap().as_u64(), Some(2));
    assert_eq!(into_value(Json::Number(Num::Negative(4))), Value::from(4));
}

#[test]
fn the_nesting_that_is_read_is_limited() {
    let nested = |n: usize| format!("{}{}", "[".repeat(n), "]".repeat(n));
    assert!(parse_json(nested(127).as_bytes()).is_some());
    assert!(parse_json(nested(128).as_bytes()).is_none());
    let printed = print_json(parse_json(nested(127).as_bytes()).unwrap());
    assert_eq!(printed, nested(127).into_bytes());
}

#[test]
fn members_are_assigned_and_removed() {
    let mut j = Json::Null;
    j.put("a", Json::Bool(true));
    j.put("b", Json::Arr(vec![Json::Null]));
    j.put("a", Json::Str("x".to_string()));
    assert_eq!(j.get_str("a"), Some("x"));
    assert_eq!(j.get_array("b").unwrap().len(), 1);
    assert!(j.take_array("a").is_none());
    assert_eq!(j.take_array("b").unwrap().len(), 1);
    j.remove("a");
    assert_eq!(into_value(j), parsed("{}"));
}

#[test]
fn roles_are_replaced_by_the_lists_of_the_state() {
    let mut state = state();
    state.model_compat = ModelCompat {
        supports_developer_role: Some(strings(&["m"])),
        supports_tool_messages: Some(strings(&["n"])),
    };
    let roles = |model: &str, state: &AppState| {
        let mut j = json(r#"{"messages": [{"role": "developer"}, {"role": "tool"}]}"#);
        transform_message_roles(&mut j, model, state);
        let v = into_value(j);
        (v["messages"][0]["role"].clone(), v["messages"][1]["role"].clone())
    };
    assert_eq!(roles("m", &state), (Value::from("developer"), Value::from("assistant")));
    assert_eq!(roles("n", &state), (Value::from("user"), Value::from("tool")));
    state.model_compat.supports_developer_role = None;
    assert_eq!(roles("n", &state), (Value::from("developer"), Value::from("tool")));
}

#[test]
fn models_do_not_share_their_settings() {
    let mut state = state();
    state.model_params = vec![
        ("a".to_string(), ModelParams { seed: whole(1), ..ModelParams::none() }),
        ("b".to_string(), ModelParams { top_k: whole(2), ..ModelParams::none() }),
    ];
    let text = |model: &str| prepare_model_body(&state, br#"{"model": "auto"}"#, model).unwrap();
    assert_eq!(text("a"), br#"{"model":"a","seed":1}"#);
    assert_eq!(text("b"), br#"{"model":"b","top_k":2}"#);
    assert_eq!(text("c"), br#"{"model":"c"}"#);
}

#[test]
fn mistral_switches_follow_the_conversation_of_the_client() {
    let mut state = state();
    state.model_compat.supports_tool_messages = Some(vec![]);
    let body = br#"{"messages": [{"role": "tool", "content": "r"}]}"#;
    let text = prepare_model_body(&state, body, "mistralai/x").unwrap();
    assert_eq!(
        serde_json::from_slice::<Value>(&text).unwrap(),
        parsed(
            r#"{"model": "mistralai/x", "add_generation_prompt": false,
                "messages": [{"role": "assistant", "content": "r"}]}"#
        )
    );
}

#[test]
fn the_later_of_two_members_counts() {
    let twice = Json::Obj(vec![
        ("a".to_string(), Json::Bool(false)),
        ("b".to_string(), Json::Null),
        ("a".to_string(), Json::Bool(true)),
    ]);
    assert_eq!(print_json(twice), br#"{"a":true,"b":null}"#);
}

#[test]
fn floating_point_numbers_are_read_back_as_such() {
    let numbers =
        [0.0, -0.0, 1.0, 0.1, 1e15, 1e16, 1e17, 1e300, f64::MAX, f64::MIN, 5e-324, 123456.789e-20];
    for x in numbers {
        let text = print_json(from_value(Value::from(x)));
        assert!(matches!(parse_json(&text), Some(Json::Number(Num::Float(_)))));
    }
    let text = print_json(from_value(serde_json::from_str(r#"{"t":0.7,"stream":true}"#).unwrap()));
    assert_eq!(accept_header_for_body(&text), "text/event-stream");
}

#[test]
fn nesting_is_read_back_as_deep_as_it_may_be() {
    let nested = |levels: usize| {
        let mut value = Value::Null;
        for _ in 0..levels {
            value = Value::Array(vec![value]);
        }
        value
    };
    let text = print_json(from_value(nested(127)));
    assert_eq!(into_value(parse_json(&text).unwrap()), nested(127));
    assert!(parse_json(&print_json(from_value(nested(128)))).is_none());
}

#[test]
fn an_object_with_the_key_that_is_kept_is_not_read_back() {
    let kept = Json::Obj(vec![(
        "$serde_json::private::RawValue".to_string(),
        Json::Str("1".to_string()),
    )]);
    let text = print_json(kept);
    assert!(!matches!(parse_json(&text), Some(Json::Obj(_))));
}

#[test]
fn both_ways_to_a_model_agree() {
    let mut state = state();
    state.model_params =
        vec![("minimaxai/m".to_string(), ModelParams { max_tokens: whole(9), ..ModelParams::none() })];
    let body = br#"{"model": "auto", "messages": [{"role": "user", "content": "hi"}]}"#;
    let named = br#"{"model": "minimaxai/m", "messages": [{"role": "user", "content": "hi"}]}"#;
    let handed_in = prepare_model_body(&state, body, "minimaxai/m").unwrap();
    let (model, text) = resolve_model(named, &mut state);
    assert_eq!(model, "minimaxai/m");
    assert_eq!(text, handed_in);
    assert_eq!(requested_model_of(&text), "minimaxai/m");
}

#[test]
fn parameters_apply_once() {
    let params = ModelParams {
        temperature: number(0.5),
        max_tokens: whole(9),
        reasoning_effort: Some("high".to_string()),
        stream: Some(false),
        chat_template_kwargs: Some(vec![("thinking".to_string(), Json::Bool(true))]),
        ..ModelParams::none()
    };
    let mut once = json(r#"{"temperature": 1, "chat_template_kwargs": {"a": 1}}"#);
    apply_model_params(&mut once, &params);
    let mut twice = copy_json(&once);
    apply_model_params(&mut twice, &params);
    assert_eq!(into_value(twice), into_value(once));
}
