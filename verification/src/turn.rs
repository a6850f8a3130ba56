//! What a request and its response say about a turn of the conversation.

use vstd::prelude::*;
use vstd::utf8::encode_utf8;

use crate::json::{items_view, Json, JsonView};
use crate::messages::has_role;
use crate::number::clipped;
use crate::repetition::{count_repetitions, repetitions};
use crate::text::{lowercase_of, words_of};
use crate::wire::{copy_json, json_parse, json_text, parse_json, print_json};

verus! {

/// The number of tokens that a response reports.
pub open spec fn reported_tokens(json: JsonView) -> Option<u64> {
    match json.get("usage"@) {
        Some(usage) => match usage.get("completion_tokens"@) {
            Some(n) => n.as_u64(),
            None => None,
        },
        None => None,
    }
}

/// Whether a choice of a response holds tool calls.
pub open spec fn choice_calls_tools(choice: JsonView) -> bool {
    match choice.get("message"@) {
        Some(message) => message.get("tool_calls"@) is Some,
        None => false,
    }
}

/// Whether one of the choices holds tool calls.
pub open spec fn choices_call_tools(choices: Seq<JsonView>) -> bool {
    exists|i: int| 0 <= i < choices.len() && choice_calls_tools(#[trigger] choices[i])
}

/// Whether a response calls a tool.
pub open spec fn response_calls_tools(json: JsonView) -> bool {
    match json.get_array("choices"@) {
        Some(choices) => choices_call_tools(choices),
        None => false,
    }
}

/// The number of output tokens: what the response reports, cut to 32 bits; a quarter of the
/// bytes where it reports none or zero.
pub open spec fn output_tokens(json: Option<JsonView>, bytes: usize) -> u32 {
    let reported: u32 = match json {
        Some(j) => match reported_tokens(j) {
            Some(n) => n as u32,
            None => 0,
        },
        None => 0,
    };
    if reported == 0 {
        (bytes as u32) / 4
    } else {
        reported
    }
}

/// Whether a response, if it is JSON at all, calls a tool.
pub open spec fn output_calls_tools(json: Option<JsonView>) -> bool {
    match json {
        Some(j) => response_calls_tools(j),
        None => false,
    }
}

fn tokens_in(json: &Json) -> (r: Option<u64>)
    ensures
        r == reported_tokens(json@),
{
    match json.get("usage") {
        Some(usage) => match usage.get("completion_tokens") {
            Some(n) => n.as_u64(),
            None => None,
        },
        None => None,
    }
}

fn calls_tools_in(json: &Json) -> (r: bool)
    ensures
        r == response_calls_tools(json@),
{
    match json.get_array("choices") {
        Some(choices) => {
            let ghost models = items_view(choices@);
            let mut i: usize = 0;
            while i < choices.len()
                invariant
                    json@.get_array("choices"@) == Some(models),
                    models == items_view(choices@),
                    i <= choices@.len(),
                    forall|k: int| 0 <= k < i ==> !choice_calls_tools(#[trigger] models[k]),
                decreases choices@.len() - i,
            {
                let calls: bool = match choices[i].get("message") {
                    Some(message) => message.get("tool_calls").is_some(),
                    None => false,
                };
                if calls {
                    assert(choice_calls_tools(models[i as int]));
                    assert(choices_call_tools(models));
                    return true;
                }
                i = i + 1;
            }
            false
        },
        None => false,
    }
}

/// The output tokens and the tool calls of a response of `bytes` bytes, read as `json`.
pub fn response_metrics(json: Option<&Json>, bytes: usize) -> (r: (u32, bool))
    ensures
        json matches Some(j) ==> r.0 == output_tokens(Some(j@), bytes) && r.1
            == output_calls_tools(Some(j@)),
        json is None ==> r.0 == output_tokens(None, bytes) && r.1 == output_calls_tools(None),
{
    let mut tokens: u32 = 0;
    let mut calls: bool = false;
    match json {
        Some(j) => {
            match tokens_in(j) {
                Some(n) => {
                    tokens = #[verifier::truncate] (n as u32);
                },
                None => {},
            }
            calls = calls_tools_in(j);
        },
        None => {},
    }
    if tokens == 0 {
        tokens = (#[verifier::truncate] (bytes as u32)) / 4;
    }
    (tokens, calls)
}

/// The output tokens of a response, how often it repeats itself, and whether it calls a
/// tool.
pub fn extract_response_metrics(text: &str) -> (r: (u32, u32, bool))
    ensures
        r.0 == output_tokens(json_parse(encode_utf8(text@)), encode_utf8(text@).len() as usize),
        r.1 == repetitions(words_of(lowercase_of(text@))),
        r.2 == output_calls_tools(json_parse(encode_utf8(text@))),
{
    let repetition_count: u32 = count_repetitions(text);
    let parsed: Option<Json> = parse_json(text.as_bytes());
    let bytes: usize = text.len();
    match parsed {
        Some(json) => {
            let (tokens, calls) = response_metrics(Some(&json), bytes);
            (tokens, repetition_count, calls)
        },
        None => {
            let (tokens, calls) = response_metrics(None, bytes);
            (tokens, repetition_count, calls)
        },
    }
}

/// The number of tool calls and of tools' answers in a message.
pub open spec fn tool_uses_of(msg: JsonView) -> nat {
    let answers: nat = if msg.get_str("role"@) == Some("tool"@) {
        1
    } else {
        0
    };
    match msg.get_array("tool_calls"@) {
        Some(calls) => answers + calls.len(),
        None => answers,
    }
}

/// The number of tool calls and of tools' answers in a conversation.
pub open spec fn tool_uses(messages: Seq<JsonView>) -> nat
    decreases messages.len(),
{
    if messages.len() == 0 {
        0
    } else {
        tool_uses(messages.drop_last()) + tool_uses_of(messages.last())
    }
}

/// The number of messages of a request, whether it uses tools, and how often.
pub open spec fn turn_summary(json: Option<JsonView>) -> (usize, bool, usize) {
    match json {
        Some(j) => match j.get_array("messages"@) {
            Some(messages) => (
                clipped(messages.len()),
                tool_uses(messages) > 0,
                clipped(tool_uses(messages)),
            ),
            None => (0, false, 0),
        },
        None => (0, false, 0),
    }
}

/// Summarises a request.
pub fn summarize_turn(json: &Json) -> (r: (usize, bool, usize))
    ensures
        r == turn_summary(Some(json@)),
{
    match json.get_array("messages") {
        Some(messages) => {
            let ghost models = items_view(messages@);
            let mut count: usize = 0;
            let mut i: usize = 0;
            assert(models.take(0) =~= Seq::empty());
            while i < messages.len()
                invariant
                    models == items_view(messages@),
                    i <= messages@.len(),
                    count == clipped(tool_uses(models.take(i as int))),
                decreases messages@.len() - i,
            {
                assert(models.take(i + 1).drop_last() =~= models.take(i as int));
                assert(models.take(i + 1).last() == models[i as int]);
                if has_role(&messages[i], "tool") {
                    count = count.saturating_add(1);
                }
                match messages[i].get_array("tool_calls") {
                    Some(calls) => {
                        count = count.saturating_add(calls.len());
                    },
                    None => {},
                }
                i = i + 1;
            }
            assert(models.take(models.len() as int) =~= models);
            (messages.len(), count > 0, count)
        },
        None => (0, false, 0),
    }
}

/// Summarises the text of a request: the number of messages, whether tools are in use, and
/// how often. All zero where the text is not JSON or holds no messages.
pub fn request_turn_summary(body: &[u8]) -> (r: (usize, bool, usize))
    ensures
        r == turn_summary(json_parse(body@)),
{
    match parse_json(body) {
        Some(json) => summarize_turn(&json),
        None => (0, false, 0),
    }
}

/// The length of the text of a message's content.
pub open spec fn content_length(msg: JsonView) -> nat {
    match msg.get("content"@) {
        Some(content) => json_text(content).len(),
        None => 0,
    }
}

/// The length of the texts of the contents.
pub open spec fn contents_length(messages: Seq<JsonView>) -> nat
    decreases messages.len(),
{
    if messages.len() == 0 {
        0
    } else {
        contents_length(messages.drop_last()) + content_length(messages.last())
    }
}

/// The size of the prompt that a request holds.
pub open spec fn prompt_size(json: Option<JsonView>) -> usize {
    match json {
        Some(j) => match j.get_array("messages"@) {
            Some(messages) => clipped(contents_length(messages)),
            None => 0,
        },
        None => 0,
    }
}

/// The size of the prompt that a request holds: the lengths, in JSON text, of what its
/// messages contain.
pub fn prompt_length(json: &Json) -> (r: usize)
    ensures
        r == prompt_size(Some(json@)),
{
    match json.get_array("messages") {
        Some(messages) => {
            let ghost models = items_view(messages@);
            let mut total: usize = 0;
            let mut i: usize = 0;
            assert(models.take(0) =~= Seq::empty());
            while i < messages.len()
                invariant
                    models == items_view(messages@),
                    i <= messages@.len(),
                    total == clipped(contents_length(models.take(i as int))),
                decreases messages@.len() - i,
            {
                assert(models.take(i + 1).drop_last() =~= models.take(i as int));
                assert(models.take(i + 1).last() == models[i as int]);
                match messages[i].get("content") {
                    Some(content) => {
                        let text: Vec<u8> = print_json(copy_json(content));
                        total = total.saturating_add(text.len());
                    },
                    None => {},
                }
                i = i + 1;
            }
            assert(models.take(models.len() as int) =~= models);
            total
        },
        None => 0,
    }
}

/// The size of the prompt in the text of a request; zero where the text is not JSON.
pub fn prompt_chars(body: &[u8]) -> (r: usize)
    ensures
        r == prompt_size(json_parse(body@)),
{
    match parse_json(body) {
        Some(json) => prompt_length(&json),
        None => 0,
    }
}

} // verus!
