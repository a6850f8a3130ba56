//! What the texts of answers show.

use nimaproxy::number::{decimal_string, parse_u64};
use nimaproxy::repetition::count_repetitions;
use nimaproxy::text::{char_is_whitespace, contains, str_eq, words};
use nimaproxy::turn::{
    extract_response_metrics, prompt_chars, request_turn_summary, response_metrics,
};
use nimaproxy::upstream::{
    attempt_count, byte_excerpt, content_type_or_json, cuts_cleanly, error_excerpt,
    is_hard_model_error, is_server_error, is_success, is_transient_race_error, lossy_text_of_body,
    retry_after_secs, take_attempt, text_of_body,
};
use nimaproxy::effect::Reply;

#[test]
fn test_count_repetitions_empty_string() {
    assert_eq!(count_repetitions(""), 0);
}

#[test]
fn test_count_repetitions_short_text() {
    assert_eq!(count_repetitions("hello world"), 0);
    assert_eq!(count_repetitions("one two three"), 0);
}

#[test]
fn test_count_repetitions_no_repetition() {
    let text = "The quick brown fox jumps over the lazy dog";
    assert_eq!(count_repetitions(text), 0);
}

#[test]
fn test_count_repetitions_simple_repetition() {
    let text = "hello world test hello world test";
    assert!(count_repetitions(text) > 0);
}

#[test]
fn test_count_repetitions_three_word_pattern() {
    let text = "the cat sat the cat sat the cat sat";
    assert!(count_repetitions(text) > 0);
}

#[test]
fn test_count_repetitions_case_insensitive() {
    let text = "Hello World Test HELLO WORLD TEST";
    assert!(count_repetitions(text) > 0);
}

#[test]
fn test_count_repetitions_max_cap() {
    let mut repeated = String::new();
    for i in 0..15 {
        if i > 0 {
            repeated.push(' ');
        }
        repeated.push_str("repeat this");
    }
    assert!(count_repetitions(&repeated) <= 10);
}

#[test]
fn repetitions_are_counted_exactly() {
    assert_eq!(count_repetitions("a b c a b c"), 1);
    // Phrases start at every position but the last ones: three rows of three words each, the
    // first followed twice, the others once.
    assert_eq!(count_repetitions("a b c a b c a b c"), 2 + 1 + 1 + 1);
    assert_eq!(count_repetitions("a b c\n\ta\u{a0}b c"), 1);
    assert_eq!(count_repetitions("\u{c4} b c \u{e4} b c"), 1);
    let mut many = String::new();
    for _ in 0..15 {
        many.push_str("repeat this ");
    }
    assert_eq!(count_repetitions(&many), 10);
}

#[test]
fn test_extract_response_metrics_empty_string() {
    let (tokens, reps, tool) = extract_response_metrics("");
    assert_eq!(tokens, 0);
    assert_eq!(reps, 0);
    assert_eq!(tool, false);
}

#[test]
fn test_extract_response_metrics_invalid_json() {
    let (tokens, _reps, tool) = extract_response_metrics("Hello, this is a test response");
    assert!(tokens > 0);
    assert_eq!(tool, false);
}

#[test]
fn test_extract_response_metrics_with_usage() {
    let json = r#"{"usage": {"completion_tokens": 42}, "choices": []}"#;
    let (tokens, reps, tool) = extract_response_metrics(json);
    assert_eq!(tokens, 42);
    assert_eq!(reps, 0);
    assert_eq!(tool, false);
}

#[test]
fn test_extract_response_metrics_with_tool_call() {
    let json = r#"{"usage": {"completion_tokens": 10}, "choices": [{"message": {"tool_calls": [{"id": "1"}]}}]}"#;
    let (tokens, _reps, tool) = extract_response_metrics(json);
    assert_eq!(tokens, 10);
    assert_eq!(tool, true);
}

#[test]
fn test_extract_response_metrics_without_tool_call() {
    let json = r#"{"usage": {"completion_tokens": 10}, "choices": [{"message": {"content": "Hello"}}]}"#;
    let (tokens, _reps, tool) = extract_response_metrics(json);
    assert_eq!(tokens, 10);
    assert_eq!(tool, false);
}

#[test]
fn test_extract_response_metrics_no_usage_field() {
    let json = r#"{"choices": [{"message": {"content": "Hello"}}]}"#;
    let (tokens, _reps, _tool) = extract_response_metrics(json);
    assert!(tokens > 0);
}

#[test]
fn test_extract_response_metrics_repetition_in_json() {
    let json = r#"{"usage": {"completion_tokens": 5}, "choices": []}"#;
    let (tokens, _reps, tool) = extract_response_metrics(json);
    assert_eq!(tokens, 5);
    assert_eq!(tool, false);
}

#[test]
fn test_extract_response_metrics_multiple_choices() {
    let json = r#"{"usage": {"completion_tokens": 20}, "choices": [{"message": {"content": "A"}}, {"message": {"tool_calls": [{"id": "1"}]}}]}"#;
    let (tokens, _reps, tool) = extract_response_metrics(json);
    assert_eq!(tokens, 20);
    assert_eq!(tool, true);
}

#[test]
fn tokens_are_estimated_by_the_bytes_of_the_text() {
    assert_eq!(extract_response_metrics("abcdefghi").0, 2);
    assert_eq!(extract_response_metrics("\u{e4}\u{e4}").0, 1);
    assert_eq!(extract_response_metrics(r#"{"usage": {"completion_tokens": 0}}"#).0, 8);
    // The count is taken modulo the range of the counter.
    assert_eq!(
        extract_response_metrics(r#"{"usage": {"completion_tokens": 4294967303}}"#).0,
        7
    );
    assert_eq!(response_metrics(None, 41), (10, false));
}

#[test]
fn requests_are_summarized() {
    let body = br#"{"messages": [
        {"role": "user"}, {"role": "tool"}, {"role": "assistant", "tool_calls": [{}, {}]}
    ]}"#;
    assert_eq!(request_turn_summary(body), (3, true, 3));
    assert_eq!(request_turn_summary(br#"{"messages": [{"role": "user"}]}"#), (1, false, 0));
    assert_eq!(request_turn_summary(br#"{"messages": 7}"#), (0, false, 0));
    assert_eq!(request_turn_summary(b"nonsense"), (0, false, 0));
    assert_eq!(prompt_chars(br#"{"messages": [{"content": {"b": 1, "a": "x"}}]}"#), 15);
    assert_eq!(prompt_chars(b"nonsense"), 0);
}

#[test]
fn errors_are_told_apart() {
    assert!(is_hard_model_error("HTTP 400 from m: Invalid assistant message"));
    assert!(is_hard_model_error("HTTP 400 tool_calls=None"));
    assert!(is_hard_model_error("BadRequestError HTTP 400"));
    assert!(is_hard_model_error("HTTP 400 invalid assistant"));
    assert!(!is_hard_model_error("HTTP 400 from m: too long"));
    assert!(!is_hard_model_error("HTTP 401 BadRequestError"));
    for e in [
        "timeout after 5ms",
        "request error: x",
        "body error: x",
        "HTTP 500 from m",
        "HTTP 502 from m",
        "HTTP 503 from m",
        "HTTP 504 from m",
    ] {
        assert!(is_transient_race_error(e));
    }
    assert!(!is_transient_race_error("HTTP 501 from m"));
    assert!(!is_transient_race_error("racing deadline exceeded after 5ms"));
}

#[test]
fn statuses_are_told_apart() {
    assert!(is_success(200) && is_success(299));
    assert!(!is_success(199) && !is_success(300));
    assert!(is_server_error(500) && is_server_error(599));
    assert!(!is_server_error(499) && !is_server_error(600));
}

#[test]
fn headers_have_defaults() {
    assert_eq!(retry_after_secs(&None), 60);
    assert_eq!(retry_after_secs(&Some("5".to_string())), 5);
    assert_eq!(retry_after_secs(&Some("+5".to_string())), 5);
    assert_eq!(retry_after_secs(&Some(" 5".to_string())), 60);
    assert_eq!(retry_after_secs(&Some("Wed, 21 Oct".to_string())), 60);
    assert_eq!(content_type_or_json(&None), "application/json");
    assert_eq!(content_type_or_json(&Some("text/html".to_string())), "text/html");
}

#[test]
fn bodies_are_read_as_text() {
    assert_eq!(text_of_body("h\u{e9}".as_bytes()), "h\u{e9}");
    assert_eq!(text_of_body(b"a\xff"), "");
    assert_eq!(lossy_text_of_body("h\u{e9}".as_bytes()), "h\u{e9}");
    assert_eq!(lossy_text_of_body(b"a\xff"), "a\u{fffd}");
}

#[test]
fn excerpts_are_cut_by_characters_or_bytes() {
    let text = "\u{e9}".repeat(401);
    assert_eq!(error_excerpt(&text), "\u{e9}".repeat(400));
    assert_eq!(error_excerpt("short"), "short");
    assert!(cuts_cleanly(&text, 400));
    assert_eq!(byte_excerpt(&text), "\u{e9}".repeat(200));
    assert!(!cuts_cleanly(&format!("x{}", text), 400));
    assert_eq!(byte_excerpt("short"), "short");
}

#[test]
fn attempts_run_out() {
    assert_eq!(attempt_count(0), 1);
    assert_eq!(attempt_count(3), 3);
    assert_eq!(attempt_count(9), 8);
    let mut left = 1;
    assert!(take_attempt(&mut left).is_none());
    assert!(matches!(
        take_attempt(&mut left),
        Some(Reply::Text { status: 429, message }) if message == "all keys exhausted after retries"
    ));
}

#[test]
fn numbers_are_written_and_read() {
    assert_eq!(decimal_string(0), "0");
    assert_eq!(decimal_string(u64::MAX), "18446744073709551615");
    assert_eq!(parse_u64("18446744073709551615"), Some(u64::MAX));
    assert_eq!(parse_u64("18446744073709551616"), None);
    assert_eq!(parse_u64("007"), Some(7));
    assert_eq!(parse_u64(""), None);
    assert_eq!(parse_u64("+"), None);
    assert_eq!(parse_u64("-1"), None);
}

#[test]
fn texts_are_searched() {
    assert!(str_eq("\u{e9}", "\u{e9}"));
    assert!(!str_eq("e", "\u{e9}"));
    assert!(contains("abc", "bc"));
    assert!(contains("abc", ""));
    assert!(!contains("ab", "abc"));
    assert_eq!(words(" a\u{2003}bc\n"), vec![vec!['a'], vec!['b', 'c']]);
}

#[test]
fn white_space_is_what_the_property_says() {
    for n in 0..=0x10ffff {
        if let Some(c) = char::from_u32(n) {
            assert_eq!(char_is_whitespace(c), c.is_whitespace());
        }
    }
}
