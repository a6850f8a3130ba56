//! Requests on their way: admission, direct chat requests, passed on requests, start-up.

use nimaproxy::admission::{
    acquire_gateway_permits, release_gateway_permits, try_acquire_gateway_permits, Admission,
    GatewayAcquireError,
};
use nimaproxy::chat::{
    chat_after_body, chat_after_send, chat_completions, chat_next, chat_settle, reroute_chat,
    BodyStep, ChatAction, ChatEvent, ChatFlow, ChatPhase, ChatStart, SendStep,
};
use nimaproxy::cli::{
    choose_listen, listen_port, parse_options, parse_port, pid_content, replace_listen_port,
};
use nimaproxy::deadline::{racing_deadline, timeout_before_deadline};
use nimaproxy::effect::{Effect, Reply};
use nimaproxy::passthrough::{
    completions, embeddings, pass_next, passthrough_after_body, passthrough_after_send,
    passthrough_settle, PassAction, PassEvent, PassPhase,
};
use nimaproxy::pool::{KeyAcquireError, KeyPool};
use nimaproxy::router::ModelRouter;
use nimaproxy::state::{AppState, ModelCompat, RuntimeControls};
use nimaproxy::stats::ModelStatsStore;
use nimaproxy::upstream::{BodyOutcome, KeyUse, ResponseHead, SendOutcome};

fn strings(list: &[&str]) -> Vec<String> {
    list.iter().map(|s| s.to_string()).collect()
}

fn state(keys: &[&str]) -> AppState {
    AppState::new(
        keys.iter().map(|k| (k.to_string(), Some(format!("label-{}", k)))).collect(),
        None,
        ModelStatsStore::new(3000),
        vec![],
        3,
        8000,
        vec![],
        ModelCompat { supports_developer_role: None, supports_tool_messages: None },
        RuntimeControls {
            racing_adaptive: false,
            racing_min_parallel: 2,
            racing_pressure_parallel: 2,
            racing_degraded_parallel: 2,
            racing_fast_models: vec![],
            racing_fallback_models: vec![],
            racing_large_prompt_char_threshold: 0,
            racing_large_prompt_parallel: 1,
            racing_solo_fallback: true,
            racing_max_total_request_ms: 0,
            max_upstream_in_flight: 3,
            max_in_flight_per_key: 1,
            admission_wait_ms: 100,
            min_dynamic_timeout_ms: 8000,
            dynamic_sample_floor: 10,
        },
    )
}

fn text(reply: &Reply) -> (u16, String) {
    match reply {
        Reply::Text { status, message } => (*status, message.clone()),
        Reply::Forward { .. } => panic!("a text was expected"),
    }
}

/// The status of a gateway without keys: what is said before anything is sent.
fn chat_status(state: &mut AppState, body: &[u8]) -> u16 {
    match chat_completions(state, body).0 {
        ChatStart::Reject(reply) => text(&reply).0,
        ChatStart::Direct(flow) => {
            assert!(matches!(flow.phase, ChatPhase::Admission));
            match acquire_gateway_permits(state, 0, 0).0 {
                Admission::Reject(reply) => text(&reply).0,
                _ => panic!("a rejection was expected"),
            }
        }
        _ => panic!("a direct request was expected"),
    }
}

#[test]
fn test_chat_completions_empty_bytes() {
    let mut state = state(&[]);
    assert!(chat_status(&mut state, b"") >= 400);
}

#[test]
fn test_stream_termination_edge_cases() {
    let mut state = state(&[]);
    let body = br#"{"model": "test", "messages": [{"role": "user", "content": "test"}], "stream": true}"#;
    let code = chat_status(&mut state, body);
    assert!(code >= 400 || code == 200);
}

#[test]
fn keys_are_handed_out_in_turn() {
    let mut pool = KeyPool::new(vec![("a".to_string(), None), ("b".to_string(), None)], 2);
    let turn = |pool: &mut KeyPool| pool.next_key_with_permit(0).map(|lease| lease.key).ok();
    assert_eq!(turn(&mut pool).as_deref(), Some("a"));
    assert_eq!(turn(&mut pool).as_deref(), Some("b"));
    assert_eq!(turn(&mut pool).as_deref(), Some("a"));
    pool.mark_rate_limited(1, 1, 0);
    assert_eq!(pool.active_count(999), 1);
    assert_eq!(pool.next_key_with_permit(999).err(), Some(KeyAcquireError::AllBusy));
    assert_eq!(pool.next_key_with_permit(1000).ok().unwrap().key, "b");
    pool.mark_rate_limited(0, 9, 0);
    pool.mark_rate_limited(1, 9, 0);
    assert_eq!(pool.next_key_with_permit(1000).err(), Some(KeyAcquireError::AllCoolingDown));
    let mut empty = KeyPool::new(vec![], 2);
    assert_eq!(empty.next_key_with_permit(0).err(), Some(KeyAcquireError::NoKeys));
}

#[test]
fn windows_narrow_and_widen() {
    let mut pool = KeyPool::new(vec![("a".to_string(), None)], 2);
    assert_eq!(pool.window_capacity(0), 2);
    pool.record_rate_limited(0);
    pool.record_rate_limited(0);
    assert_eq!(pool.window_capacity(0), 1);
    pool.record_success(0);
    pool.record_success(0);
    assert_eq!(pool.window_capacity(0), 2);
    assert_eq!(pool.available_permits(0), 2);
}

#[test]
fn an_attempt_that_ends_leaves_no_trace() {
    let mut state = state(&["a", "b"]);
    let lease = try_acquire_gateway_permits(&mut state, 0).ok().unwrap();
    assert_eq!(lease.label.as_deref(), Some("label-a"));
    assert_eq!(state.upstream_in_flight, 1);
    assert_eq!(state.pool.available_permits(0), 1);
    release_gateway_permits(&mut state, lease.idx);
    assert_eq!(state.upstream_in_flight, 0);
    assert_eq!(state.pool.available_permits(0), 2);
    assert_eq!(state.metrics.upstream_attempts, 1);
}

#[test]
fn a_full_gateway_admits_nobody() {
    let mut state = state(&["a", "b", "c", "d"]);
    for _ in 0..3 {
        assert!(try_acquire_gateway_permits(&mut state, 0).is_ok());
    }
    assert_eq!(
        try_acquire_gateway_permits(&mut state, 0).err(),
        Some(GatewayAcquireError::Overloaded)
    );
    state.controls.max_upstream_in_flight = 9;
    assert!(try_acquire_gateway_permits(&mut state, 0).is_ok());
    assert_eq!(
        try_acquire_gateway_permits(&mut state, 0).err(),
        Some(GatewayAcquireError::Overloaded)
    );
    assert_eq!(state.upstream_in_flight, 4);
    for i in 0..4 {
        state.pool.mark_rate_limited(i, 1, 0);
    }
    assert_eq!(try_acquire_gateway_permits(&mut state, 0).err(), Some(GatewayAcquireError::NoKeys));
}

#[test]
fn admission_waits_and_gives_up() {
    let mut state = state(&["a"]);
    assert!(matches!(acquire_gateway_permits(&mut state, 0, 0).0, Admission::Go(_)));
    assert!(matches!(acquire_gateway_permits(&mut state, 99, 0).0, Admission::Wait(25)));
    let (admission, effects) = acquire_gateway_permits(&mut state, 100, 0);
    assert!(matches!(effects.as_slice(), [Effect::Overload]));
    assert!(matches!(admission, Admission::Reject(reply) if text(&reply).0 == 503));
    state.pool.mark_rate_limited(0, 1, 0);
    assert!(matches!(acquire_gateway_permits(&mut state, 0, 0).0, Admission::Wait(25)));
    let (admission, effects) = acquire_gateway_permits(&mut state, 100, 0);
    assert!(matches!(effects.as_slice(), [Effect::NoKey]));
    assert!(matches!(admission, Admission::Reject(reply) if text(&reply).0 == 429));
}

#[test]
fn without_keys_nobody_waits() {
    let mut state = state(&[]);
    let (admission, _) = acquire_gateway_permits(&mut state, 0, 0);
    assert!(matches!(
        admission,
        Admission::Reject(reply)
            if text(&reply) == (429, "all API keys rate-limited".to_string())
    ));
}

#[test]
fn a_chat_request_is_rejected_races_or_goes_to_a_model() {
    let mut state = state(&["a", "b", "c"]);
    state.racing_models = strings(&["m", "n"]);
    let (start, effects) = chat_completions(&mut state, br#"{"model": "x"}"#);
    assert!(effects.is_empty());
    assert!(matches!(
        start,
        ChatStart::Reject(reply)
            if text(&reply) == (400, "model 'x' not found in configured models".to_string())
    ));
    let (start, effects) = chat_completions(&mut state, br#"{"model": "nimaproxy/auto"}"#);
    assert!(matches!(effects.as_slice(), [Effect::Request { racing: true }]));
    assert!(matches!(start, ChatStart::Race));
    let (start, effects) = chat_completions(&mut state, br#"{"messages": []}"#);
    assert!(matches!(effects.as_slice(), [Effect::Request { racing: false }]));
    match start {
        ChatStart::Direct(flow) => {
            assert_eq!(flow.turn.exchange.requested_model, "");
            assert_eq!(flow.turn.exchange.responding_model, "unknown");
            assert_eq!(flow.turn.attempts_left, 2);
            assert!(!flow.turn.automatic);
            assert!(matches!(flow.phase, ChatPhase::Admission));
        }
        _ => panic!("a direct request was expected"),
    }
    state.racing_models = strings(&["m"]);
    let (start, _) = chat_completions(&mut state, br#"{"model": "auto"}"#);
    assert!(matches!(start, ChatStart::Direct(flow) if flow.turn.automatic));
    state.router = Some(ModelRouter::new(strings(&["m"])));
    assert!(matches!(chat_completions(&mut state, b"7").0, ChatStart::Unanswerable));
}

#[test]
fn doubtful_ids_are_remarked_on() {
    let mut state = state(&["a"]);
    let body = br#"{"model": "mistralai/x", "messages": [
        {"role": "assistant", "tool_calls": [{"id": "call_1", "function": {"name": "f"}}]}
    ]}"#;
    let (_, effects) = chat_completions(&mut state, body);
    assert!(matches!(effects.as_slice(), [Effect::Request { .. }, Effect::Remark(_)]));
}

fn direct(state: &mut AppState, body: &[u8]) -> ChatFlow {
    match chat_completions(state, body).0 {
        ChatStart::Direct(flow) => flow,
        _ => panic!("a direct request was expected"),
    }
}

fn key() -> KeyUse {
    KeyUse { idx: 2, label: Some("l".to_string()) }
}

fn head(status: u16) -> ResponseHead {
    ResponseHead { status, retry_after: None, content_type: None }
}

#[test]
fn a_chat_request_is_answered_or_sent_again() {
    let mut state = state(&["a"]);
    let turn = direct(&mut state, br#"{"model": "m"}"#).turn;
    let (effects, step) = chat_after_send(&turn, &key(), 50, 9, &SendOutcome::TimedOut);
    assert!(matches!(
        effects.as_slice(),
        [Effect::Timeout, Effect::ModelTimeout { elapsed_ms: 50, .. }, Effect::Turn(t)]
            if t.latency_ms == 50 && t.status_code == 504 && !t.is_racing
    ));
    assert!(matches!(
        step,
        SendStep::Finish(reply)
            if text(&reply) == (504, "upstream timeout after 50ms".to_string())
    ));
    let failed = SendOutcome::Failed("no route".to_string());
    let (effects, step) = chat_after_send(&turn, &key(), 50, 9, &failed);
    assert!(matches!(
        effects.as_slice(),
        [Effect::ModelOutcome { latency_ms: 9, ok: false, .. }, Effect::Turn(t)]
            if t.error.as_deref() == Some("no route")
    ));
    assert!(matches!(
        step,
        SendStep::Finish(reply) if text(&reply) == (502, "no route".to_string())
    ));
    let busy = SendOutcome::Answered(ResponseHead {
        status: 429,
        retry_after: Some("12".to_string()),
        content_type: None,
    });
    let (effects, step) = chat_after_send(&turn, &key(), 50, 9, &busy);
    assert!(matches!(
        effects.as_slice(),
        [Effect::RateLimit, Effect::KeyRateLimited { key: 2, secs: 12 }]
    ));
    assert!(matches!(step, SendStep::Retry));
    let (effects, step) = chat_after_send(&turn, &key(), 50, 9, &SendOutcome::Answered(head(200)));
    assert!(matches!(effects.as_slice(), [Effect::KeySucceeded(2)]));
    assert!(matches!(step, SendStep::ReadBody));
    let (effects, step) = chat_after_send(&turn, &key(), 50, 9, &SendOutcome::Answered(head(500)));
    assert!(effects.is_empty());
    assert!(matches!(step, SendStep::ReadBody));
}

#[test]
fn a_chat_answer_is_passed_on() {
    let mut state = state(&["a"]);
    let turn = direct(&mut state, br#"{"model": "m"}"#).turn;
    let stream = ResponseHead {
        status: 200,
        retry_after: None,
        content_type: Some("text/event-stream; charset=utf-8".to_string()),
    };
    let body = br#"{"usage": {"completion_tokens": 3}}"#.to_vec();
    let (effects, step) =
        chat_after_body(&turn, &key(), 50, 9, &stream, &BodyOutcome::Read(body.clone()));
    assert!(matches!(
        effects.as_slice(),
        [Effect::ModelQuality { latency_ms: 9, ok: true, output_tokens: 3, .. }, Effect::Turn(t)]
            if t.success && t.error.is_none()
    ));
    match step {
        BodyStep::Finish(Reply::Forward { status, content_type, key_label, unbuffered, body: b }) => {
            assert_eq!(status, 200);
            assert_eq!(content_type, "text/event-stream; charset=utf-8");
            assert_eq!(key_label.as_deref(), Some("l"));
            assert!(unbuffered);
            assert_eq!(b, body);
        }
        _ => panic!("an answer was expected"),
    }
    let (effects, step) = chat_settle(&turn, &key(), 9, &head(404), b"gone", (0, 0, false));
    assert!(matches!(
        effects.as_slice(),
        [Effect::ModelOutcome { ok: false, .. }, Effect::Turn(t)]
            if t.error.as_deref() == Some("gone")
    ));
    assert!(matches!(
        step,
        BodyStep::Finish(Reply::Forward { status: 404, unbuffered: false, .. })
    ));
    let failed = BodyOutcome::Failed("reset".to_string());
    let (effects, step) = chat_after_body(&turn, &key(), 50, 9, &stream, &failed);
    assert!(effects.is_empty());
    assert!(matches!(step, BodyStep::Finish(reply) if text(&reply) == (502, "reset".to_string())));
    let (effects, step) = chat_after_body(&turn, &key(), 50, 9, &stream, &BodyOutcome::TimedOut);
    assert_eq!(effects.len(), 3);
    assert!(matches!(
        step,
        BodyStep::Finish(reply)
            if text(&reply) == (504, "upstream body timeout after 50ms".to_string())
    ));
}

#[test]
fn a_blocked_model_is_left_for_another() {
    let mut state = state(&["a", "b"]);
    state.router = Some(ModelRouter::new(strings(&["m", "n"])));
    let body = br#"{"model": "auto", "messages": [{"role": "user"}]}"#;
    let mut flow = direct(&mut state, body);
    assert_eq!(flow.turn.exchange.responding_model, "m");
    let degraded = || BodyOutcome::Read(b"DEGRADED function cannot be invoked".to_vec());
    let (effects, step) = chat_after_body(&flow.turn, &key(), 50, 9, &head(400), &degraded());
    assert!(matches!(effects.as_slice(), [Effect::ServerDegraded(m)] if m == "m"));
    assert!(matches!(step, BodyStep::Reroute));
    let attempts = flow.turn.attempts_left;
    let_in(&mut flow, &mut state);
    let sent = ChatEvent::Sent { elapsed_ms: 9, outcome: SendOutcome::Answered(head(400)) };
    assert!(matches!(chat_next(&mut flow, &state, sent).1, ChatAction::Read { limit_ms: 8000 }));
    let (effects, action) = chat_next(&mut flow, &state, ChatEvent::Read(degraded()));
    assert!(matches!(action, ChatAction::Reroute));
    state.apply_all(&effects, 0);
    let (effects, action) = reroute_chat(&mut flow, &mut state).unwrap();
    assert!(effects.is_empty());
    assert!(matches!(action, ChatAction::Admit));
    assert!(matches!(flow.phase, ChatPhase::Admission));
    assert_eq!(flow.turn.exchange.responding_model, "n");
    assert_eq!(flow.turn.exchange.message_count, 1);
    assert_eq!(flow.turn.attempts_left, attempts - 1);
    flow.turn.automatic = false;
    let (_, step) = chat_after_body(&flow.turn, &key(), 50, 9, &head(400), &degraded());
    assert!(matches!(step, BodyStep::Retry));
    flow.phase = ChatPhase::Reroute;
    flow.original = b"[]".to_vec();
    assert!(reroute_chat(&mut flow, &mut state).is_none());
}

fn let_in(flow: &mut ChatFlow, state: &mut AppState) {
    let lease = try_acquire_gateway_permits(state, 0).ok().unwrap();
    let idx = lease.idx;
    let (effects, action) = chat_next(flow, state, ChatEvent::Admitted(lease));
    assert!(effects.is_empty());
    assert!(matches!(action, ChatAction::Send { limit_ms: 8000 }));
    release_gateway_permits(state, idx);
}

#[test]
fn a_chat_request_takes_its_course() {
    let mut state = state(&["a", "b"]);
    let mut flow = direct(&mut state, br#"{"model": "m"}"#);
    assert_eq!(flow.turn.attempts_left, 1);
    let_in(&mut flow, &mut state);
    let busy = || ChatEvent::Sent { elapsed_ms: 7, outcome: SendOutcome::Answered(head(429)) };
    let (effects, action) = chat_next(&mut flow, &state, busy());
    assert!(matches!(
        effects.as_slice(),
        [Effect::RateLimit, Effect::KeyRateLimited { key: 0, secs: 60 }]
    ));
    assert!(matches!(action, ChatAction::Admit));
    assert_eq!(flow.turn.attempts_left, 0);
    let_in(&mut flow, &mut state);
    assert!(matches!(&flow.phase, ChatPhase::Answer { key, .. } if key.idx == 1));
    let (_, action) = chat_next(&mut flow, &state, busy());
    assert!(matches!(action, ChatAction::Finish(reply) if text(&reply).0 == 429));
    assert!(matches!(flow.phase, ChatPhase::Over));

    let mut flow = direct(&mut state, br#"{"model": "m"}"#);
    let_in(&mut flow, &mut state);
    let sent = ChatEvent::Sent { elapsed_ms: 7, outcome: SendOutcome::Answered(head(200)) };
    assert!(matches!(chat_next(&mut flow, &state, sent).1, ChatAction::Read { limit_ms: 8000 }));
    let body = ChatEvent::Read(BodyOutcome::Read(b"{}".to_vec()));
    let (effects, action) = chat_next(&mut flow, &state, body);
    assert!(matches!(
        effects.as_slice(),
        [.., Effect::Turn(t)] if t.latency_ms == 7 && t.key_label.as_deref() == Some("label-a")
    ));
    assert!(matches!(action, ChatAction::Finish(Reply::Forward { status: 200, .. })));
    assert!(matches!(flow.phase, ChatPhase::Over));
}

#[test]
fn a_rejected_shape_is_sent_again() {
    let mut state = state(&["a"]);
    let turn = direct(&mut state, br#"{"model": "m"}"#).turn;
    let invalid = BodyOutcome::Read(b"Invalid assistant message: x".to_vec());
    let (effects, step) = chat_after_body(&turn, &key(), 50, 9, &head(400), &invalid);
    assert!(matches!(
        effects.as_slice(),
        [Effect::HardError { model, .. }, Effect::Turn(t)]
            if model == "m" && t.error.as_deref() == Some("Invalid assistant message: x")
    ));
    assert!(matches!(step, BodyStep::Retry));
    let (_, step) = chat_after_body(&turn, &key(), 50, 9, &head(500), &invalid);
    assert!(matches!(step, BodyStep::Finish(_)));
}

#[test]
fn a_rejected_shape_that_cannot_be_cut_breaks_the_request_off() {
    let mut state = state(&["a", "b"]);
    let text = |fill: usize| {
        let start = "invalid assistant";
        format!("{}{}\u{e4}", start, "x".repeat(fill - start.len())).into_bytes()
    };
    let mut flow = direct(&mut state, br#"{"model": "m"}"#);
    let (effects, step) =
        chat_after_body(&flow.turn, &key(), 50, 9, &head(400), &BodyOutcome::Read(text(199)));
    assert!(effects.is_empty());
    assert!(matches!(step, BodyStep::Break));
    let (_, step) =
        chat_after_body(&flow.turn, &key(), 50, 9, &head(400), &BodyOutcome::Read(text(198)));
    assert!(matches!(step, BodyStep::Retry));
    let_in(&mut flow, &mut state);
    let sent = ChatEvent::Sent { elapsed_ms: 9, outcome: SendOutcome::Answered(head(400)) };
    chat_next(&mut flow, &state, sent);
    let (_, action) = chat_next(&mut flow, &state, ChatEvent::Read(BodyOutcome::Read(text(199))));
    assert!(matches!(action, ChatAction::Break));
    assert!(matches!(flow.phase, ChatPhase::Over));
}

#[test]
fn requests_are_passed_on_as_they_are() {
    let state = state(&["a", "b"]);
    let (flow, effects) = completions(&state, br#"{"model": "m"}"#);
    assert!(matches!(effects.as_slice(), [Effect::Request { racing: false }]));
    assert_eq!((flow.model.as_str(), flow.attempts_left, flow.inspects), ("m", 1, true));
    assert_eq!(flow.text, br#"{"model": "m"}"#);
    let (effects, step) = passthrough_after_send(&flow, &key(), 9, &Err("no route".to_string()));
    assert!(matches!(
        effects.as_slice(),
        [Effect::ModelOutcome { latency_ms: 9, ok: false, .. }]
    ));
    assert!(matches!(
        step,
        SendStep::Finish(reply) if text(&reply) == (502, "no route".to_string())
    ));
    let busy = ResponseHead { retry_after: Some("5".to_string()), ..head(429) };
    let (effects, step) = passthrough_after_send(&flow, &key(), 9, &Ok(busy));
    assert!(matches!(
        effects.as_slice(),
        [Effect::RateLimit, Effect::KeyRateLimited { key: 2, secs: 60 }]
    ));
    assert!(matches!(step, SendStep::Retry));
    let (effects, step) = passthrough_after_send(&flow, &key(), 9, &Ok(head(201)));
    assert!(matches!(effects.as_slice(), [Effect::KeySucceeded(2)]));
    assert!(matches!(step, SendStep::ReadBody));

    let (effects, reply) =
        passthrough_after_body(&flow, &key(), 9, &head(200), &Ok(b"eight by".to_vec()));
    assert!(matches!(effects.as_slice(), [Effect::ModelQuality { output_tokens: 2, .. }]));
    assert!(matches!(reply, Reply::Forward { status: 200, .. }));
    let (effects, reply) =
        passthrough_after_body(&flow, &key(), 9, &head(200), &Err("reset".to_string()));
    assert!(effects.is_empty());
    assert_eq!(text(&reply), (502, "reset".to_string()));
    let (effects, _) = passthrough_settle(&flow, &key(), 9, &head(200), b"", (0, 0, false));
    assert!(matches!(effects.as_slice(), [Effect::ModelOutcome { ok: true, .. }]));

    let (flow, _) = embeddings(&state, b"nonsense");
    assert_eq!((flow.model.as_str(), flow.inspects), ("", false));
    let (effects, _) =
        passthrough_after_body(&flow, &key(), 9, &head(500), &Ok(b"eight by".to_vec()));
    assert!(matches!(effects.as_slice(), [Effect::ModelOutcome { ok: false, .. }]));
}

#[test]
fn a_request_that_is_passed_on_takes_its_course() {
    let mut state = state(&["a", "b"]);
    let (mut flow, _) = completions(&state, br#"{"model": "m"}"#);
    let admitted = |state: &mut AppState| {
        PassEvent::Admitted(try_acquire_gateway_permits(state, 0).ok().unwrap())
    };
    let busy = || PassEvent::Sent { elapsed_ms: 7, outcome: Ok(head(429)) };
    assert!(matches!(pass_next(&mut flow, admitted(&mut state)).1, PassAction::Send));
    assert!(matches!(pass_next(&mut flow, busy()).1, PassAction::Admit));
    assert!(matches!(pass_next(&mut flow, admitted(&mut state)).1, PassAction::Send));
    let sent = PassEvent::Sent { elapsed_ms: 7, outcome: Ok(head(200)) };
    assert!(matches!(pass_next(&mut flow, sent).1, PassAction::Read));
    let (effects, action) = pass_next(&mut flow, PassEvent::Read(Ok(b"eight by".to_vec())));
    assert!(matches!(
        effects.as_slice(),
        [Effect::ModelQuality { latency_ms: 7, output_tokens: 2, .. }]
    ));
    assert!(matches!(action, PassAction::Finish(Reply::Forward { status: 200, .. })));
    assert!(matches!(flow.phase, PassPhase::Over));
    assert_eq!(flow.text, br#"{"model": "m"}"#);

    let (mut flow, _) = embeddings(&state, b"{}");
    flow.attempts_left = 0;
    flow.phase = PassPhase::Answer(key());
    let (_, action) = pass_next(&mut flow, busy());
    assert!(matches!(action, PassAction::Finish(reply) if text(&reply).0 == 429));
}

#[test]
fn deadlines_cut_attempts_short() {
    assert_eq!(racing_deadline(0, 5), None);
    assert_eq!(racing_deadline(2, 5), Some(2_000_005));
    assert_eq!(racing_deadline(1, u128::MAX), None);
    assert_eq!(timeout_before_deadline(None, 9, 70), Some(70));
    assert_eq!(timeout_before_deadline(Some(50_000_000), 0, 70), Some(50));
    assert_eq!(timeout_before_deadline(Some(50_000_000), 0, 7), Some(7));
    assert_eq!(timeout_before_deadline(Some(50_000_000), 49_000_001, 7), None);
    assert_eq!(timeout_before_deadline(Some(50_000_000), 50_000_001, 7), None);
}

#[test]
fn options_are_read_in_order() {
    let read = |list: &[&str]| parse_options(&strings(list));
    let o = read(&["nimaproxy", "-c", "a.toml", "--port", "81", "--pid-file", "p", "junk"]);
    assert_eq!(o.config.as_deref(), Some("a.toml"));
    assert_eq!(o.port, Some(81));
    assert_eq!(o.pid_file.as_deref(), Some("p"));
    assert!(!o.help);
    let o = read(&["nimaproxy", "-p", "81", "-p", "65536", "--config", "a", "--config"]);
    assert_eq!(o.port, Some(81));
    assert_eq!(o.config, None);
    let o = read(&["nimaproxy", "-h", "-p", "81"]);
    assert!(o.help);
    assert_eq!(o.port, None);
    let o = read(&["nimaproxy", "--config", "-h"]);
    assert_eq!(o.config.as_deref(), Some("-h"));
    assert!(!o.help);
}

#[test]
fn the_port_comes_from_the_command_line_or_the_environment() {
    let configured = || "127.0.0.1:8080".to_string();
    assert_eq!(choose_listen(configured(), Some(9), Some("10")), "127.0.0.1:9");
    assert_eq!(choose_listen(configured(), Some(0), Some("10")), "127.0.0.1:10");
    assert_eq!(choose_listen(configured(), None, Some("0")), "127.0.0.1:8080");
    assert_eq!(choose_listen(configured(), None, Some("x")), "127.0.0.1:8080");
    assert_eq!(choose_listen(configured(), None, None), "127.0.0.1:8080");
    assert_eq!(replace_listen_port("[::1]:80", 9), "[::1]:9");
    assert_eq!(replace_listen_port("host", 9), "0.0.0.0:9");
    assert_eq!(replace_listen_port(&replace_listen_port("host", 80), 9), "0.0.0.0:9");
    assert_eq!(replace_listen_port(&replace_listen_port("[::1]:1", 80), 9), "[::1]:9");
    assert_eq!(listen_port("127.0.0.1:81"), 81);
    assert_eq!(listen_port("host"), 8080);
    assert_eq!(listen_port("a:b:9"), 8080);
    assert_eq!(listen_port(&replace_listen_port("host:1", 77)), 77);
    assert_eq!(parse_port("65535"), Some(65535));
    assert_eq!(parse_port("65536"), None);
    assert_eq!(pid_content(12, 80), "12:80");
}
