//! The rewriting of conversations.

use nimaproxy::json::Json;
use nimaproxy::messages::{
    fix_message_ordering, inject_minimax_system_message, inject_mistral_tool_params,
    normalize_assistant_messages, replace_roles, sanitize_tool_calls, MINIMAX_INSTRUCTION,
};
use nimaproxy::mistral::{validate_mistral_tool_call_ids, IdRemark};
use nimaproxy::model_id::{is_minimax_model, is_mistral_model};
use nimaproxy::wire::{from_value, into_value};
use serde_json::Value;

fn json(text: &str) -> Json {
    from_value(serde_json::from_str(text).unwrap())
}

fn rewritten(text: &str, change: fn(&mut Json)) -> Value {
    let mut j = json(text);
    change(&mut j);
    into_value(j)
}

fn has(v: &Value, key: &str) -> bool {
    v.as_object().unwrap().contains_key(key)
}

fn minimax(text: &str, model: &str) -> Value {
    let mut j = json(text);
    inject_minimax_system_message(&mut j, model);
    into_value(j)
}

fn mistral(text: &str, model: &str) -> Value {
    let mut j = json(text);
    inject_mistral_tool_params(&mut j, model);
    into_value(j)
}

#[test]
fn test_inject_minimax_system_message_adds_to_empty_messages() {
    let v = minimax(
        r#"{"model": "minimaxai/minimax-01", "messages": []}"#,
        "minimaxai/minimax-01",
    );
    assert_eq!(v["messages"].as_array().unwrap().len(), 1);
    assert_eq!(v["messages"][0]["role"], "system");
    assert!(v["messages"][0]["content"]
        .as_str()
        .unwrap()
        .contains("When using tools, output JSON"));
}

#[test]
fn test_inject_minimax_system_message_prepends_to_existing_system() {
    let v = minimax(
        r#"{
            "model": "minimaxai/minimax-01",
            "messages": [
                {"role": "system", "content": "Original system message"}
            ]
        }"#,
        "minimaxai/minimax-01",
    );
    let content = v["messages"][0]["content"].as_str().unwrap();
    assert!(content.contains("Original system message"));
    assert!(content.contains("When using tools, output JSON"));
}

#[test]
fn test_inject_minimax_system_message_prepends_to_non_system_first_message() {
    let v = minimax(
        r#"{
            "model": "minimaxai/minimax-01",
            "messages": [
                {"role": "user", "content": "Hello"}
            ]
        }"#,
        "minimaxai/minimax-01",
    );
    assert_eq!(v["messages"].as_array().unwrap().len(), 2);
    assert_eq!(v["messages"][0]["role"], "system");
    assert_eq!(v["messages"][1]["role"], "user");
    assert!(v["messages"][0]["content"]
        .as_str()
        .unwrap()
        .contains("When using tools, output JSON"));
}

#[test]
fn test_inject_minimax_system_message_only_for_minimax_models() {
    let gpt = minimax(r#"{"model": "openai/gpt-4", "messages": []}"#, "openai/gpt-4");
    assert_eq!(gpt["messages"].as_array().unwrap().len(), 0);

    let mistral = minimax(
        r#"{"model": "mistralai/mistral-medium-3.5-128b", "messages": []}"#,
        "mistralai/mistral-medium-3.5-128b",
    );
    assert_eq!(mistral["messages"].as_array().unwrap().len(), 0);
}

#[test]
fn test_inject_minimax_system_message_empty_model_string() {
    let v = minimax(r#"{"model": "", "messages": []}"#, "");
    assert_eq!(v["messages"].as_array().unwrap().len(), 0);
}

#[test]
fn minimax_hint_stands_behind_the_text_of_a_system_message() {
    let v = minimax(
        r#"{"messages": [{"role": "system", "content": "Be brief."}, {"role": "user", "content": "x"}]}"#,
        "minimaxai/minimax-01",
    );
    let expected = format!("Be brief.\n\n{}", MINIMAX_INSTRUCTION);
    assert_eq!(v["messages"][0]["content"], Value::from(expected));
    assert_eq!(v["messages"].as_array().unwrap().len(), 2);
    assert!(MINIMAX_INSTRUCTION.ends_with("Do NOT use XML tags like <minimax:tool_call> or <invoke>."));
}

#[test]
fn minimax_hint_leaves_a_system_message_without_text() {
    let text = r#"{"messages": [{"role": "system", "content": [{"type": "text", "text": "a"}]}]}"#;
    let v = minimax(text, "minimaxai/minimax-01");
    assert_eq!(v, serde_json::from_str::<Value>(text).unwrap());
}

#[test]
fn test_inject_mistral_tool_params_adds_generation_prompt_for_tool_messages() {
    let v = mistral(
        r#"{
            "model": "mistralai/mistral-medium-3.5-128b",
            "messages": [
                {"role": "user", "content": "Weather?"},
                {"role": "tool", "content": "Sunny"}
            ]
        }"#,
        "mistralai/mistral-medium-3.5-128b",
    );
    assert_eq!(v["add_generation_prompt"], Value::from(false));
}

#[test]
fn test_inject_mistral_tool_params_continues_final_message_from_assistant() {
    let v = mistral(
        r#"{
            "model": "mistralai/mistral-medium-3.5-128b",
            "messages": [
                {"role": "user", "content": "Hello"},
                {"role": "assistant", "content": "Hi"}
            ]
        }"#,
        "mistralai/mistral-medium-3.5-128b",
    );
    assert_eq!(v["continue_final_message"], Value::from(true));
}

#[test]
fn test_inject_mistral_tool_params_only_for_mistral_models() {
    let v = mistral(
        r#"{
            "model": "openai/gpt-4",
            "messages": [
                {"role": "user", "content": "Hello"},
                {"role": "assistant", "content": "Hi"}
            ]
        }"#,
        "openai/gpt-4",
    );
    assert!(!has(&v, "add_generation_prompt"));
    assert!(!has(&v, "continue_final_message"));
}

#[test]
fn test_inject_mistral_tool_params_no_tool_messages_no_injection() {
    let v = mistral(
        r#"{
            "model": "mistralai/mistral-medium-3.5-128b",
            "messages": [
                {"role": "user", "content": "Hello"},
                {"role": "assistant", "content": "Hi"}
            ]
        }"#,
        "mistralai/mistral-medium-3.5-128b",
    );
    assert!(!has(&v, "add_generation_prompt"));
    assert_eq!(v["continue_final_message"], Value::from(true));
}

#[test]
fn test_inject_mistral_tool_params_empty_messages() {
    let v = mistral(
        r#"{"model": "mistralai/mistral-medium-3.5-128b", "messages": []}"#,
        "mistralai/mistral-medium-3.5-128b",
    );
    assert!(!has(&v, "add_generation_prompt"));
    assert!(!has(&v, "continue_final_message"));
}

#[test]
fn test_sanitize_tool_calls_removes_empty_named_tool_calls() {
    let v = rewritten(
        r#"{
            "messages": [
                {
                    "role": "assistant",
                    "tool_calls": [
                        {"id": "call_1", "function": {"name": "get_weather", "arguments": "{}"}},
                        {"id": "call_2", "function": {"name": "", "arguments": "{}"}},
                        {"id": "call_3", "function": {"name": "get_time", "arguments": "{}"}}
                    ]
                }
            ]
        }"#,
        sanitize_tool_calls,
    );
    let tool_calls = v["messages"][0]["tool_calls"].as_array().unwrap();
    assert_eq!(tool_calls.len(), 2);
    assert_eq!(tool_calls[0]["function"]["name"], "get_weather");
    assert_eq!(tool_calls[1]["function"]["name"], "get_time");
}

#[test]
fn test_sanitize_tool_calls_removes_empty_tools_array() {
    let v = rewritten(
        r#"{
            "tools": [
                {"function": {"name": "valid_tool", "description": "A tool"}},
                {"function": {"name": "", "description": "Empty name tool"}}
            ],
            "messages": []
        }"#,
        sanitize_tool_calls,
    );
    let tools = v["tools"].as_array().unwrap();
    assert_eq!(tools.len(), 1);
    assert_eq!(tools[0]["function"]["name"], "valid_tool");
}

#[test]
fn test_sanitize_tool_calls_removes_all_empty_tool_calls() {
    let v = rewritten(
        r#"{
            "messages": [
                {
                    "role": "assistant",
                    "tool_calls": [
                        {"id": "call_1", "function": {"name": "", "arguments": "{}"}}
                    ]
                }
            ]
        }"#,
        sanitize_tool_calls,
    );
    assert!(!has(&v["messages"][0], "tool_calls"));
}

#[test]
fn test_sanitize_tool_calls_removes_all_empty_tools() {
    let v = rewritten(
        r#"{
            "tools": [
                {"function": {"name": "", "description": "Empty"}}
            ],
            "messages": []
        }"#,
        sanitize_tool_calls,
    );
    assert!(!has(&v, "tools"));
}

#[test]
fn test_sanitize_tool_calls_keeps_valid_tool_calls() {
    let v = rewritten(
        r#"{
            "messages": [
                {
                    "role": "assistant",
                    "tool_calls": [
                        {"id": "call_1", "function": {"name": "get_weather", "arguments": "{}"}}
                    ]
                }
            ]
        }"#,
        sanitize_tool_calls,
    );
    let tool_calls = v["messages"][0]["tool_calls"].as_array().unwrap();
    assert_eq!(tool_calls.len(), 1);
    assert_eq!(tool_calls[0]["function"]["name"], "get_weather");
}

#[test]
fn test_sanitize_tool_calls_no_messages_field() {
    let v = rewritten(r#"{"model": "test"}"#, sanitize_tool_calls);
    assert!(!has(&v, "tool_calls"));
}

#[test]
fn test_sanitize_tool_calls_empty_messages_array() {
    let v = rewritten(r#"{"messages": []}"#, sanitize_tool_calls);
    assert_eq!(v["messages"].as_array().unwrap().len(), 0);
}

#[test]
fn test_sanitize_tool_calls_message_without_tool_calls() {
    let v = rewritten(
        r#"{
            "messages": [
                {"role": "user", "content": "Hello"},
                {"role": "assistant", "content": "Hi"}
            ]
        }"#,
        sanitize_tool_calls,
    );
    assert_eq!(v["messages"].as_array().unwrap().len(), 2);
}

#[test]
fn test_normalize_assistant_adds_empty_content_without_tool_calls() {
    let v = rewritten(
        r#"{
            "messages": [
                {"role": "assistant", "content": null, "tool_calls": []}
            ]
        }"#,
        normalize_assistant_messages,
    );
    let msg = &v["messages"][0];
    assert_eq!(msg["content"], Value::from(""));
    assert!(!has(msg, "tool_calls"));
}

#[test]
fn test_normalize_assistant_tool_calls_keep_null_content() {
    let v = rewritten(
        r#"{
            "messages": [
                {
                    "role": "assistant",
                    "content": "will be replaced",
                    "tool_call_id": "bad-extra",
                    "tool_calls": [
                        {"id": "abc123XYZ", "type": "function", "function": {"name": "read", "arguments": "{}"}}
                    ]
                }
            ]
        }"#,
        normalize_assistant_messages,
    );
    let msg = &v["messages"][0];
    assert_eq!(msg["content"], Value::Null);
    assert!(has(msg, "tool_calls"));
    assert!(!has(msg, "tool_call_id"));
}

#[test]
fn test_sanitize_tool_calls_mixed_valid_and_empty_tools() {
    let v = rewritten(
        r#"{
            "tools": [
                {"function": {"name": "tool1", "description": "First"}},
                {"function": {"name": "", "description": "Empty"}},
                {"function": {"name": "tool2", "description": "Second"}},
                {"function": {"name": "", "description": "Another empty"}}
            ],
            "messages": []
        }"#,
        sanitize_tool_calls,
    );
    let tools = v["tools"].as_array().unwrap();
    assert_eq!(tools.len(), 2);
    assert_eq!(tools[0]["function"]["name"], "tool1");
    assert_eq!(tools[1]["function"]["name"], "tool2");
}

#[test]
fn test_is_minimax_model_true_for_minimaxai_prefix() {
    assert!(is_minimax_model("minimaxai/minimax-01"));
    assert!(is_minimax_model("minimaxai/minimax-02"));
}

#[test]
fn families_are_told_by_their_names() {
    assert!(!is_minimax_model("other/minimaxai/minimax-01"));
    assert!(!is_minimax_model("minimaxai"));
    assert!(is_mistral_model("mistralai/mistral-7b-instruct"));
    assert!(is_mistral_model("vendor/devstral-small"));
    assert!(!is_mistral_model("openai/gpt-4"));
}

#[test]
fn test_sanitize_strips_tool_call_id_from_assistant() {
    let v = rewritten(
        r#"{
            "messages": [
                {
                    "role": "assistant",
                    "content": "Let me call a tool",
                    "tool_call_id": "call_123"
                }
            ]
        }"#,
        sanitize_tool_calls,
    );
    assert!(!has(&v["messages"][0], "tool_call_id"));
}

#[test]
fn test_sanitize_keeps_tool_call_id_in_tool_messages() {
    let v = rewritten(
        r#"{
            "messages": [
                {
                    "role": "tool",
                    "content": "Tool result",
                    "tool_call_id": "call_123"
                }
            ]
        }"#,
        sanitize_tool_calls,
    );
    assert!(has(&v["messages"][0], "tool_call_id"));
}

#[test]
fn test_sanitize_removes_tool_call_id_even_with_tool_calls() {
    let v = rewritten(
        r#"{
            "messages": [
                {
                    "role": "assistant",
                    "content": null,
                    "tool_call_id": "call_123",
                    "tool_calls": [
                        {
                            "id": "call_abc",
                            "type": "function",
                            "function": {
                                "name": "get_weather",
                                "arguments": "{}"
                            }
                        }
                    ]
                }
            ]
        }"#,
        sanitize_tool_calls,
    );
    assert!(!has(&v["messages"][0], "tool_call_id"));
    assert!(has(&v["messages"][0], "tool_calls"));
}

#[test]
fn sanitizing_describes_tools() {
    let v = rewritten(
        r#"{"tools": [{"function": {"name": "a", "description": null}}, {"type": "other"}]}"#,
        sanitize_tool_calls,
    );
    let expected = r#"{"tools": [
        {"function": {"name": "a", "description": "", "parameters": {"type": "object", "properties": {}}}},
        {"type": "other"}
    ]}"#;
    assert_eq!(v, serde_json::from_str::<Value>(expected).unwrap());
}

#[test]
fn sanitizing_twice_is_sanitizing_once() {
    let text = r#"{"messages": [
            {"role": "assistant", "content": "x", "reasoning": "y", "tool_calls": [{"function": {"name": ""}}]},
            {"role": "assistant", "content": "x", "tool_calls": [{"function": {"name": "f"}}]},
            {"role": "assistant", "content": "x", "tool_calls": []}
        ], "tools": [{"function": {"name": "f"}}, {"function": {"name": ""}}]}"#;
    let once = rewritten(text, sanitize_tool_calls);
    let mut again = from_value(once.clone());
    sanitize_tool_calls(&mut again);
    assert_eq!(into_value(again), once);
    assert_eq!(once["messages"][0]["content"], Value::Null);
    assert!(!has(&once["messages"][0], "tool_calls"));
    assert_eq!(once["messages"][1]["content"], Value::Null);
    assert_eq!(once["messages"][2]["tool_calls"], Value::Array(Vec::new()));
}

#[test]
fn normalizing_gives_either_content_or_tool_calls() {
    let v = rewritten(
        r#"{"messages": [
            {"role": "assistant", "reasoning": "r"},
            {"role": "assistant", "content": "kept", "tool_calls": null},
            {"role": "user", "content": null, "reasoning": "stays"}
        ]}"#,
        normalize_assistant_messages,
    );
    let expected = r#"{"messages": [
        {"role": "assistant", "content": ""},
        {"role": "assistant", "content": "kept"},
        {"role": "user", "content": null, "reasoning": "stays"}
    ]}"#;
    assert_eq!(v, serde_json::from_str::<Value>(expected).unwrap());
}

#[test]
fn test_fix_message_ordering_no_change_needed() {
    let v = rewritten(
        r#"{
            "messages": [
                {"role": "system", "content": "sys"},
                {"role": "user", "content": "hello"}
            ]
        }"#,
        fix_message_ordering,
    );
    assert_eq!(v["messages"].as_array().unwrap().len(), 2);
}

#[test]
fn test_fix_message_ordering_inserts_assistant() {
    let v = rewritten(
        r#"{
            "messages": [
                {"role": "tool", "tool_call_id": "1", "content": "result"},
                {"role": "user", "content": "next"}
            ]
        }"#,
        fix_message_ordering,
    );
    let msgs = v["messages"].as_array().unwrap();
    assert_eq!(msgs.len(), 3);
    assert_eq!(msgs[0]["role"], "tool");
    assert_eq!(msgs[1]["role"], "assistant");
    assert_eq!(msgs[1]["content"], Value::String(String::new()));
    assert_eq!(msgs[2]["role"], "user");
}

#[test]
fn test_fix_message_ordering_developer_role() {
    let v = rewritten(
        r#"{
            "messages": [
                {"role": "assistant", "content": null, "tool_calls": [{"id": "abc123XYZ", "type": "function", "function": {"name": "read"}}]},
                {"role": "tool", "tool_call_id": "abc123XYZ", "content": "result"},
                {"role": "developer", "content": "<turn-aborted>\nThe previous turn was aborted."},
                {"role": "user", "content": "continue"}
            ]
        }"#,
        fix_message_ordering,
    );
    let msgs = v["messages"].as_array().unwrap();
    assert_eq!(msgs.len(), 5);
    assert_eq!(msgs[0]["role"], "assistant");
    assert_eq!(msgs[1]["role"], "tool");
    assert_eq!(msgs[2]["role"], "assistant");
    assert_eq!(msgs[2]["content"], Value::String(String::new()));
    assert_eq!(msgs[3]["role"], "developer");
    assert_eq!(msgs[4]["role"], "user");
}

#[test]
fn test_fix_message_ordering_multiple_tools_before_user() {
    let v = rewritten(
        r#"{
            "messages": [
                {"role": "tool", "tool_call_id": "1", "content": "r1"},
                {"role": "tool", "tool_call_id": "2", "content": "r2"},
                {"role": "user", "content": "next"}
            ]
        }"#,
        fix_message_ordering,
    );
    let msgs = v["messages"].as_array().unwrap();
    assert_eq!(msgs.len(), 4);
    assert_eq!(msgs[0]["role"], "tool");
    assert_eq!(msgs[1]["role"], "tool");
    assert_eq!(msgs[2]["role"], "assistant");
    assert_eq!(msgs[3]["role"], "user");
}

#[test]
fn test_fix_message_ordering_assistant_exists_no_change() {
    let v = rewritten(
        r#"{
            "messages": [
                {"role": "tool", "tool_call_id": "1", "content": "result"},
                {"role": "assistant", "content": "summary"},
                {"role": "user", "content": "next"}
            ]
        }"#,
        fix_message_ordering,
    );
    assert_eq!(v["messages"].as_array().unwrap().len(), 3);
}

#[test]
fn ordering_twice_is_ordering_once() {
    let text = r#"{"messages": [
        {"role": "tool", "content": "a"}, {"role": "user", "content": "b"},
        {"role": "tool", "content": "c"}, {"role": "developer", "content": "d"}
    ]}"#;
    let once = rewritten(text, fix_message_ordering);
    assert_eq!(once["messages"].as_array().unwrap().len(), 6);
    let mut again = from_value(once.clone());
    fix_message_ordering(&mut again);
    assert_eq!(into_value(again), once);
}

#[test]
fn retagging_changes_roles_only() {
    let text = r#"{"messages": [
        {"role": "developer", "content": "a"},
        {"role": "tool", "content": "b", "tool_call_id": "1"},
        {"role": "user", "content": "c"},
        {"content": "d"}
    ]}"#;
    let mut both = json(text);
    replace_roles(&mut both, true, true);
    let both = into_value(both);
    assert_eq!(both["messages"][0]["role"], "user");
    assert_eq!(both["messages"][0]["content"], "a");
    assert_eq!(both["messages"][1]["role"], "assistant");
    assert_eq!(both["messages"][1]["tool_call_id"], "1");
    assert_eq!(both["messages"][2]["role"], "user");
    assert!(!has(&both["messages"][3], "role"));

    let mut developer = json(text);
    replace_roles(&mut developer, true, false);
    let developer = into_value(developer);
    assert_eq!(developer["messages"][0]["role"], "user");
    assert_eq!(developer["messages"][1]["role"], "tool");

    let mut none = json(text);
    replace_roles(&mut none, false, false);
    assert_eq!(into_value(none), serde_json::from_str::<Value>(text).unwrap());
}

#[test]
fn test_validate_mistral_tool_call_ids_valid() {
    let j = json(
        r#"{"messages": [{"role": "assistant", "tool_calls": [{"id": "abc123XYZ", "type": "function", "function": {"name": "test"}}]}]}"#,
    );
    let result = validate_mistral_tool_call_ids(&j, "mistralai/mistral-medium-3.5-128b");
    assert!(result.is_ok());
}

#[test]
fn test_validate_mistral_tool_call_ids_invalid_length() {
    let j = json(
        r#"{"messages": [{"role": "assistant", "tool_calls": [{"id": "call_1", "type": "function", "function": {"name": "test"}}]}]}"#,
    );
    let result = validate_mistral_tool_call_ids(&j, "mistralai/mistral-7b-instruct");
    assert!(result.is_ok());
}

#[test]
fn test_validate_mistral_tool_call_ids_invalid_chars() {
    let j = json(
        r#"{"messages": [{"role": "assistant", "tool_calls": [{"id": "call_123", "type": "function", "function": {"name": "test"}}]}]}"#,
    );
    let result = validate_mistral_tool_call_ids(&j, "mistralai/mistral-7b-instruct");
    assert!(result.is_ok());
}

#[test]
fn test_validate_mistral_tool_call_ids_non_mistral() {
    let j = json(
        r#"{"messages": [{"role": "assistant", "tool_calls": [{"id": "call_123", "type": "function", "function": {"name": "test"}}]}]}"#,
    );
    let result = validate_mistral_tool_call_ids(&j, "openai/gpt-4");
    assert!(result.is_ok());
}

fn remarks(text: &str) -> Vec<String> {
    let found = validate_mistral_tool_call_ids(&json(text), "mistralai/mistral-7b-instruct");
    found
        .unwrap()
        .iter()
        .map(|w| match w {
            IdRemark::Malformed(id) => format!("malformed {}", id),
            IdRemark::Unanswered(id) => format!("unanswered {}", id),
            IdRemark::Unasked(id) => format!("unasked {}", id),
        })
        .collect()
}

#[test]
fn ids_of_nine_alphanumeric_characters_are_well_formed() {
    let call = |id: &str| {
        format!(
            r#"{{"messages": [{{"role": "assistant", "tool_calls": [{{"id": "{}"}}]}}]}}"#,
            id
        )
    };
    assert_eq!(remarks(&call("abc123XYZ")), Vec::<String>::new());
    assert_eq!(remarks(&call("\u{e4}bc123XYZ")), Vec::<String>::new());
    assert_eq!(remarks(&call("abc123XY")), vec!["malformed abc123XY"]);
    assert_eq!(remarks(&call("abc123XYZ0")), vec!["malformed abc123XYZ0"]);
    assert_eq!(remarks(&call("abc_23XYZ")), vec!["malformed abc_23XYZ"]);
}

#[test]
fn calls_and_answers_are_matched_by_their_ids() {
    let text = r#"{"messages": [
        {"role": "assistant", "tool_calls": [{"id": "aaaaaaaaa"}, {"id": "bbbbbbbbb"}, {"id": "bbbbbbbbb"}]},
        {"role": "tool", "tool_call_id": "aaaaaaaaa"},
        {"role": "tool", "tool_call_id": "ccccccccc"}
    ]}"#;
    assert_eq!(remarks(text), vec!["unanswered bbbbbbbbb", "unasked ccccccccc"]);
    let unanswered = r#"{"messages": [{"role": "assistant", "tool_calls": [{"id": "aaaaaaaaa"}]}]}"#;
    assert_eq!(remarks(unanswered), Vec::<String>::new());
}

#[test]
fn normalizing_twice_is_normalizing_once() {
    let text = r#"{"messages": [
        {"role": "assistant", "content": null, "tool_calls": [{"id": "1"}], "reasoning": "r"},
        {"role": "assistant", "tool_calls": []},
        {"role": "tool", "content": null}
    ]}"#;
    let once = rewritten(text, normalize_assistant_messages);
    let mut again = from_value(once.clone());
    normalize_assistant_messages(&mut again);
    assert_eq!(into_value(again), once);
}

#[test]
fn ordering_keeps_every_message_in_its_order() {
    let text = r#"{"messages": [
        {"role": "user", "content": "0"}, {"role": "tool", "content": "1"},
        {"role": "user", "content": "2"}, {"role": "tool", "content": "3"},
        {"role": "tool", "content": "4"}, {"role": "developer", "content": "5"}
    ]}"#;
    let v = rewritten(text, fix_message_ordering);
    let contents: Vec<&str> =
        v["messages"].as_array().unwrap().iter().map(|m| m["content"].as_str().unwrap()).collect();
    assert_eq!(contents, vec!["0", "1", "", "2", "3", "4", "", "5"]);
}
