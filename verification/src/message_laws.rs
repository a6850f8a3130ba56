//! What holds of every conversation that was rewritten.

use vstd::prelude::*;

use crate::json::JsonView;
use crate::messages::{
    calls_tools, described_tool, described_tools, empty_assistant, instructed_messages, keeps_name,
    named_only, needs_gap, normalized, normalized_message, normalized_messages, ordered_messages,
    retagged, retagged_message, retagged_messages, role_of, sanitized, sanitized_message,
    sanitized_messages, stripped_assistant, with_minimax_hint, with_mistral_params,
    with_ordered_messages, with_sanitized_messages, MINIMAX_INSTRUCTION,
};
use crate::prepare::{rewritten_conversation, ModelRules};

verus! {

/// The lengths of the names of members and roles, which tell them apart.
pub proof fn lemma_key_lengths()
    ensures
        ""@.len() == 0,
        "role"@.len() == 4,
        "tool"@.len() == 4,
        "user"@.len() == 4,
        "name"@.len() == 4,
        "tools"@.len() == 5,
        "content"@.len() == 7,
        "messages"@.len() == 8,
        "function"@.len() == 8,
        "assistant"@.len() == 9,
        "reasoning"@.len() == 9,
        "developer"@.len() == 9,
        "tool_calls"@.len() == 10,
        "parameters"@.len() == 10,
        "description"@.len() == 11,
        "tool_call_id"@.len() == 12,
        "assistant"@ != "developer"@,
        "assistant"@ != "reasoning"@,
        "tool"@ != "user"@,
{
    reveal_strlit("");
    reveal_strlit("role");
    reveal_strlit("tool");
    reveal_strlit("user");
    reveal_strlit("name");
    reveal_strlit("tools");
    reveal_strlit("content");
    reveal_strlit("messages");
    reveal_strlit("function");
    reveal_strlit("assistant");
    reveal_strlit("reasoning");
    reveal_strlit("developer");
    reveal_strlit("tool_calls");
    reveal_strlit("parameters");
    reveal_strlit("description");
    reveal_strlit("tool_call_id");
    assert("assistant"@[0] == 'a');
    assert("developer"@[0] == 'd');
    assert("reasoning"@[0] == 'r');
    assert("tool"@[0] == 't');
    assert("user"@[0] == 'u');
}

// ---------------------------------------------------------------------------------------
// Order
// ---------------------------------------------------------------------------------------

/// Whether no request follows a tool's answer directly.
pub open spec fn well_ordered(messages: Seq<JsonView>) -> bool {
    forall|i: int| 0 <= i < messages.len() - 1 ==> !needs_gap(#[trigger] messages[i], messages[i + 1])
}

proof fn lemma_ordered_end(messages: Seq<JsonView>)
    requires
        messages.len() > 0,
    ensures
        ordered_messages(messages).len() > 0,
        ordered_messages(messages).last() == messages.last(),
{
}

/// Mending the order leaves no request directly behind a tool's answer.
pub proof fn law_ordering_leaves_no_gap(messages: Seq<JsonView>)
    ensures
        well_ordered(ordered_messages(messages)),
    decreases messages.len(),
{
    if messages.len() > 1 {
        let rest = messages.drop_last();
        law_ordering_leaves_no_gap(rest);
        lemma_ordered_end(rest);
        lemma_key_lengths();
        let before = ordered_messages(rest);
        let after = ordered_messages(messages);
        assert(rest.last() == messages[messages.len() - 2]);
        assert(role_of(empty_assistant()) == "assistant"@);
        assert forall|i: int| 0 <= i < after.len() - 1 implies !needs_gap(
            #[trigger] after[i],
            after[i + 1],
        ) by {
            if i < before.len() - 1 {
                assert(after[i] == before[i]);
                assert(after[i + 1] == before[i + 1]);
                assert(!needs_gap(before[i], before[i + 1]));
            }
        }
    }
}

/// Messages in order stay as they are: mending the order twice is mending it once.
pub proof fn law_ordering_is_stable(messages: Seq<JsonView>)
    ensures
        well_ordered(messages) ==> ordered_messages(messages) == messages,
        ordered_messages(ordered_messages(messages)) == ordered_messages(messages),
{
    if well_ordered(messages) {
        lemma_ordered_stays(messages);
    }
    law_ordering_leaves_no_gap(messages);
    lemma_ordered_stays(ordered_messages(messages));
}

proof fn lemma_ordered_stays(messages: Seq<JsonView>)
    requires
        well_ordered(messages),
    ensures
        ordered_messages(messages) == messages,
    decreases messages.len(),
{
    if messages.len() > 1 {
        let rest = messages.drop_last();
        assert forall|i: int| 0 <= i < rest.len() - 1 implies !needs_gap(
            #[trigger] rest[i],
            rest[i + 1],
        ) by {
            assert(!needs_gap(messages[i], messages[i + 1]));
        }
        lemma_ordered_stays(rest);
        assert(!needs_gap(messages[messages.len() - 2], messages[messages.len() - 1]));
        assert(rest.push(messages.last()) =~= messages);
    }
}

/// The number of gaps between messages.
pub open spec fn gaps(messages: Seq<JsonView>) -> nat
    decreases messages.len(),
{
    if messages.len() <= 1 {
        0
    } else {
        gaps(messages.drop_last()) + (if needs_gap(
            messages[messages.len() - 2],
            messages.last(),
        ) {
            1nat
        } else {
            0
        })
    }
}

/// Where a message stands after the order was mended.
pub open spec fn place(messages: Seq<JsonView>, i: int) -> int {
    i + gaps(messages.take(i + 1))
}

/// Mending the order only adds: every message is still there, in the order that it was in,
/// and whatever else is there is an empty assistant message.
pub proof fn law_ordering_only_adds(messages: Seq<JsonView>)
    ensures
        ordered_messages(messages).len() == messages.len() + gaps(messages),
        forall|i: int|
            0 <= i < messages.len() ==> {
                &&& 0 <= #[trigger] place(messages, i) < ordered_messages(messages).len()
                &&& ordered_messages(messages)[place(messages, i)] == messages[i]
            },
        forall|i: int, j: int|
            0 <= i < j < messages.len() ==> #[trigger] place(messages, i) < #[trigger] place(
                messages,
                j,
            ),
        forall|k: int|
            0 <= k < ordered_messages(messages).len() ==> (#[trigger] ordered_messages(messages)[k]
                == empty_assistant() || exists|i: int|
                0 <= i < messages.len() && #[trigger] place(messages, i) == k),
    decreases messages.len(),
{
    let after = ordered_messages(messages);
    let n = messages.len() as int;
    if n == 0 {
    } else if n == 1 {
        assert(messages.take(1) =~= messages);
        assert(place(messages, 0) == 0);
    } else {
        let rest = messages.drop_last();
        law_ordering_only_adds(rest);
        let before = ordered_messages(rest);
        assert(messages.take(n) =~= messages);
        assert forall|i: int| 0 <= i < n - 1 implies place(messages, i) == #[trigger] place(
            rest,
            i,
        ) by {
            assert(messages.take(i + 1) =~= rest.take(i + 1));
        }
        assert(place(messages, n - 1) == after.len() - 1);
        assert forall|i: int| 0 <= i < n implies {
            &&& 0 <= #[trigger] place(messages, i) < after.len()
            &&& after[place(messages, i)] == messages[i]
        } by {
            if i < n - 1 {
                assert(place(messages, i) == place(rest, i));
                assert(before[place(rest, i)] == rest[i]);
            }
        }
        assert forall|i: int, j: int| 0 <= i < j < n implies #[trigger] place(messages, i)
            < #[trigger] place(messages, j) by {
            assert(place(messages, i) == place(rest, i));
            if j < n - 1 {
                assert(place(messages, j) == place(rest, j));
            }
        }
        assert forall|k: int| 0 <= k < after.len() implies #[trigger] after[k] == empty_assistant()
            || exists|i: int| 0 <= i < n && #[trigger] place(messages, i) == k by {
            if k < before.len() {
                assert(after[k] == before[k]);
                if before[k] != empty_assistant() {
                    let i = choose|i: int| 0 <= i < n - 1 && #[trigger] place(rest, i) == k;
                    assert(place(messages, i) == k);
                }
            } else if k == after.len() - 1 {
                assert(place(messages, n - 1) == k);
            }
        }
    }
}

// ---------------------------------------------------------------------------------------
// Assistant messages
// ---------------------------------------------------------------------------------------

/// Whether a message is in the form that upstream takes: a message of the assistant has
/// either tool calls and null content, or content and no tool calls, and no extra fields.
pub open spec fn acceptable(msg: JsonView) -> bool {
    msg.get_str("role"@) == Some("assistant"@) ==> {
        &&& msg.get("tool_call_id"@) is None
        &&& msg.get("reasoning"@) is None
        &&& if msg.get("tool_calls"@) is Some {
            calls_tools(msg) && msg.get("content"@) == Some(JsonView::Null)
        } else {
            msg.get("content"@) is Some && msg.get("content"@) != Some(JsonView::Null)
        }
    }
}

/// Every message of the assistant has one of the two forms that upstream takes.
pub proof fn law_normalized_messages_are_acceptable(msg: JsonView)
    ensures
        acceptable(normalized_message(msg)),
{
    lemma_key_lengths();
}

/// A message in the form that upstream takes stays as it is.
pub proof fn law_normalizing_is_stable(msg: JsonView)
    ensures
        acceptable(msg) ==> normalized_message(msg) == msg,
        normalized_message(normalized_message(msg)) == normalized_message(msg),
{
    if acceptable(msg) {
        lemma_acceptable_stays(msg);
    }
    law_normalized_messages_are_acceptable(msg);
    lemma_acceptable_stays(normalized_message(msg));
}

proof fn lemma_acceptable_stays(msg: JsonView)
    requires
        acceptable(msg),
    ensures
        normalized_message(msg) == msg,
{
    lemma_key_lengths();
    if msg.get_str("role"@) == Some("assistant"@) {
        let map = msg->Obj_0;
        assert(map.remove("tool_call_id"@) =~= map);
        assert(map.remove("reasoning"@) =~= map);
        if msg.get("tool_calls"@) is Some {
            assert(map.insert("content"@, JsonView::Null) =~= map);
        } else {
            assert(map.remove("tool_calls"@) =~= map);
        }
    }
}

/// Normalizing changes no role, and no message but the assistant's.
pub proof fn law_normalizing_keeps_roles(msg: JsonView)
    ensures
        role_of(normalized_message(msg)) == role_of(msg),
        msg.get_str("role"@) != Some("assistant"@) ==> normalized_message(msg) == msg,
{
    lemma_key_lengths();
}

// ---------------------------------------------------------------------------------------
// Tools
// ---------------------------------------------------------------------------------------

/// Whether every entry speaks of a function whose name is not the empty string.
pub open spec fn all_named(tools: Seq<JsonView>) -> bool {
    forall|i: int| 0 <= i < tools.len() ==> keeps_name(#[trigger] tools[i])
}

proof fn lemma_named_only(tools: Seq<JsonView>)
    ensures
        all_named(named_only(tools)),
        all_named(tools) ==> named_only(tools) == tools,
        named_only(tools).len() <= tools.len(),
    decreases tools.len(),
{
    reveal(Seq::filter);
    if tools.len() > 0 {
        let rest = tools.drop_last();
        lemma_named_only(rest);
        if all_named(tools) {
            assert forall|i: int| 0 <= i < rest.len() implies keeps_name(#[trigger] rest[i]) by {
                assert(keeps_name(tools[i]));
            }
            assert(keeps_name(tools[tools.len() - 1]));
            assert(rest.push(tools.last()) =~= tools);
        }
        assert forall|i: int| 0 <= i < named_only(tools).len() implies keeps_name(
            #[trigger] named_only(tools)[i],
        ) by {
            if i < named_only(rest).len() {
                assert(named_only(tools)[i] == named_only(rest)[i]);
            }
        }
    } else {
        assert(named_only(tools) =~= tools);
    }
}

/// No tool call of a sanitized message has an empty name, and a message that made calls does
/// not keep an empty list of them.
pub proof fn law_sanitized_calls_are_named(msg: JsonView)
    ensures
        sanitized_message(msg).get_array("tool_calls"@) matches Some(calls) ==> all_named(calls),
        calls_tools(msg) && sanitized_message(msg).get("tool_calls"@) is Some ==> calls_tools(
            sanitized_message(msg),
        ),
{
    lemma_key_lengths();
    let m = stripped_assistant(msg);
    match m.get_array("tool_calls"@) {
        Some(calls) => {
            lemma_named_only(calls);
        },
        None => {},
    }
}

/// Sanitizing a message twice is sanitizing it once.
pub proof fn law_sanitizing_messages_is_stable(msg: JsonView)
    ensures
        sanitized_message(sanitized_message(msg)) == sanitized_message(msg),
{
    lemma_key_lengths();
    law_sanitized_calls_are_named(msg);
    let once = sanitized_message(msg);
    if once.get_str("role"@) == Some("assistant"@) {
        let map = once->Obj_0;
        assert(map.remove("tool_call_id"@) =~= map);
        assert(map.remove("reasoning"@) =~= map);
        if once.get("tool_calls"@) is Some {
            assert(map.insert("content"@, JsonView::Null) =~= map);
        }
    }
    assert(stripped_assistant(once) == once);
    match once.get_array("tool_calls"@) {
        Some(calls) => {
            lemma_named_only(calls);
            let map = once->Obj_0;
            assert(map.insert("tool_calls"@, JsonView::Arr(calls)) =~= map);
            let m = stripped_assistant(msg);
            match m.get_array("tool_calls"@) {
                Some(first) => {
                    lemma_named_only(first);
                },
                None => {},
            }
        },
        None => {},
    }
}

/// Whether a tool definition has what upstream wants: a function that is described has a
/// description and parameters.
pub open spec fn described(tool: JsonView) -> bool {
    tool.get("function"@) matches Some(f) ==> f is Obj ==> {
        &&& f.get("description"@) is Some && f.get("description"@) != Some(JsonView::Null)
        &&& f.get("parameters"@) is Some && f.get("parameters"@) != Some(JsonView::Null)
    }
}

proof fn lemma_described(tool: JsonView)
    ensures
        described(described_tool(tool)),
        described(tool) ==> described_tool(tool) == tool,
        keeps_name(described_tool(tool)) == keeps_name(tool),
{
    lemma_key_lengths();
    match tool.get("function"@) {
        Some(f) => {
            if f is Obj {
                let map = tool->Obj_0;
                if described(tool) {
                    assert(map.insert("function"@, f) =~= map);
                }
            }
        },
        None => {},
    }
}

/// A sanitized request has no empty list of tools; every tool in it has a name that is not
/// empty, a description and parameters.
pub proof fn law_sanitized_tools_are_described(json: JsonView)
    ensures
        sanitized(json).get_array("tools"@) matches Some(tools) ==> {
            &&& tools.len() > 0
            &&& all_named(tools)
            &&& forall|i: int| 0 <= i < tools.len() ==> described(#[trigger] tools[i])
        },
{
    lemma_key_lengths();
    let j = with_sanitized_messages(json);
    match j.get_array("tools"@) {
        Some(tools) => {
            lemma_named_only(described_tools(tools));
            lemma_kept_described(tools);
        },
        None => {},
    }
}

proof fn lemma_kept_described(tools: Seq<JsonView>)
    ensures
        forall|i: int|
            0 <= i < named_only(described_tools(tools)).len() ==> described(
                #[trigger] named_only(described_tools(tools))[i],
            ),
    decreases tools.len(),
{
    reveal(Seq::filter);
    let all = described_tools(tools);
    if tools.len() > 0 {
        let rest = tools.drop_last();
        lemma_kept_described(rest);
        lemma_described(tools.last());
        assert(all.drop_last() =~= described_tools(rest));
        assert(all.last() == described_tool(tools.last()));
        assert forall|i: int| 0 <= i < named_only(all).len() implies described(
            #[trigger] named_only(all)[i],
        ) by {
            if i < named_only(described_tools(rest)).len() {
                assert(named_only(all)[i] == named_only(described_tools(rest))[i]);
            }
        }
    }
}

/// Sanitizing a request twice is sanitizing it once.
pub proof fn law_sanitizing_is_stable(json: JsonView)
    ensures
        sanitized(sanitized(json)) == sanitized(json),
{
    lemma_key_lengths();
    let once = sanitized(json);
    law_sanitized_tools_are_described(json);
    match once.get_array("messages"@) {
        Some(messages) => {
            let first = json.get_array("messages"@).unwrap();
            assert(messages == sanitized_messages(first));
            assert forall|i: int| 0 <= i < messages.len() implies #[trigger] sanitized_message(
                messages[i],
            ) == messages[i] by {
                law_sanitizing_messages_is_stable(first[i]);
            }
            assert(sanitized_messages(messages) =~= messages);
            assert((once->Obj_0).insert("messages"@, JsonView::Arr(messages)) =~= once->Obj_0);
        },
        None => {},
    }
    assert(with_sanitized_messages(once) == once);
    match once.get_array("tools"@) {
        Some(tools) => {
            assert forall|i: int| 0 <= i < tools.len() implies #[trigger] described_tool(tools[i])
                == tools[i] by {
                lemma_described(tools[i]);
            }
            assert(described_tools(tools) =~= tools);
            lemma_named_only(tools);
            assert((once->Obj_0).insert("tools"@, JsonView::Arr(tools)) =~= once->Obj_0);
        },
        None => {},
    }
}

// ---------------------------------------------------------------------------------------
// Roles
// ---------------------------------------------------------------------------------------

/// No message keeps a role that the model does not take, and nothing of a message changes but
/// its role.
pub proof fn law_retagging_changes_roles_only(
    msg: JsonView,
    developer: bool,
    tool: bool,
    key: Seq<char>,
)
    ensures
        developer ==> role_of(retagged_message(msg, developer, tool)) != "developer"@,
        tool ==> role_of(retagged_message(msg, developer, tool)) != "tool"@,
        key != "role"@ ==> retagged_message(msg, developer, tool).get(key) == msg.get(key),
        retagged_message(retagged_message(msg, developer, tool), developer, tool)
            == retagged_message(msg, developer, tool),
{
    lemma_key_lengths();
}

// ---------------------------------------------------------------------------------------
// Hints
// ---------------------------------------------------------------------------------------

/// The conversation with a MiniMax model starts with a system message whose text ends with
/// the hint, unless it started with a system message that has no text; the other messages
/// stay.
pub proof fn law_minimax_hint_comes_first(messages: Seq<JsonView>)
    requires
        messages.len() > 0 && messages[0].get_str("role"@) == Some("system"@)
            ==> messages[0].get_str("content"@) is Some,
    ensures
        instructed_messages(messages).len() > 0,
        instructed_messages(messages)[0].get_str("role"@) == Some("system"@),
        instructed_messages(messages)[0].get_str("content"@) matches Some(text)
            && MINIMAX_INSTRUCTION@.len() <= text.len() && text.skip(
            text.len() - MINIMAX_INSTRUCTION@.len(),
        ) == MINIMAX_INSTRUCTION@,
        forall|m: JsonView|
            messages.contains(m) && m.get_str("role"@) != Some("system"@)
                ==> #[trigger] instructed_messages(messages).contains(m),
{
    lemma_key_lengths();
    let after = instructed_messages(messages);
    let text = after[0].get_str("content"@).unwrap();
    assert(text.skip(text.len() - MINIMAX_INSTRUCTION@.len()) =~= MINIMAX_INSTRUCTION@);
    assert forall|m: JsonView|
        messages.contains(m) && m.get_str("role"@) != Some(
            "system"@,
        ) implies #[trigger] after.contains(m) by {
        let k = choose|k: int| 0 <= k < messages.len() && messages[k] == m;
        if after.len() == messages.len() {
            assert(after[k] == m);
        } else {
            assert(after[k + 1] == m);
        }
    }
}

// ---------------------------------------------------------------------------------------
// The whole
// ---------------------------------------------------------------------------------------

proof fn lemma_hints_keep_messages(json: JsonView, model: Seq<char>)
    ensures
        json.get_array("messages"@) is Some ==> with_minimax_hint(
            with_mistral_params(json, model),
            model,
        ).get_array("messages"@) is Some,
{
    reveal_strlit("messages");
    reveal_strlit("add_generation_prompt");
    reveal_strlit("continue_final_message");
    assert("messages"@.len() == 8);
    assert("add_generation_prompt"@.len() == 21);
    assert("continue_final_message"@.len() == 22);
}

/// However the client's conversation looks, the one that goes upstream has no request
/// directly behind a tool's answer, every message of the assistant in a form that upstream
/// takes, and no role that the model does not take.
pub proof fn law_rewritten_conversation_is_acceptable(
    json: JsonView,
    model: Seq<char>,
    rules: ModelRules,
)
    ensures
        rewritten_conversation(json, model, rules).get_array("messages"@) matches Some(messages)
            ==> {
            &&& well_ordered(messages)
            &&& forall|i: int| 0 <= i < messages.len() ==> acceptable(#[trigger] messages[i])
            &&& rules.developer ==> forall|i: int|
                0 <= i < messages.len() ==> role_of(#[trigger] messages[i]) != "developer"@
            &&& rules.tool ==> forall|i: int|
                0 <= i < messages.len() ==> role_of(#[trigger] messages[i]) != "tool"@
        },
        json.get_array("messages"@) is Some ==> rewritten_conversation(
            json,
            model,
            rules,
        ).get_array("messages"@) is Some,
{
    lemma_key_lengths();
    lemma_hints_keep_messages(json, model);
    let hinted = with_minimax_hint(with_mistral_params(json, model), model);
    let clean = sanitized(hinted);
    let tagged = retagged(clean, rules.developer, rules.tool);
    let ordered = with_ordered_messages(tagged);
    let out = normalized(ordered);
    match tagged.get_array("messages"@) {
        Some(given) => {
            let mended = ordered_messages(given);
            assert(ordered.get_array("messages"@) == Some(mended));
            let messages = normalized_messages(mended);
            assert(out.get_array("messages"@) == Some(messages));
            law_ordering_leaves_no_gap(given);
            assert forall|i: int| 0 <= i < messages.len() implies acceptable(
                #[trigger] messages[i],
            ) by {
                law_normalized_messages_are_acceptable(mended[i]);
            }
            assert forall|i: int| 0 <= i < messages.len() - 1 implies !needs_gap(
                #[trigger] messages[i],
                messages[i + 1],
            ) by {
                law_normalizing_keeps_roles(mended[i]);
                law_normalizing_keeps_roles(mended[i + 1]);
                assert(!needs_gap(mended[i], mended[i + 1]));
            }
            assert forall|i: int| 0 <= i < messages.len() implies (rules.developer ==> role_of(
                #[trigger] messages[i],
            ) != "developer"@) && (rules.tool ==> role_of(messages[i]) != "tool"@) by {
                law_normalizing_keeps_roles(mended[i]);
                law_ordering_only_adds(given);
                assert(role_of(empty_assistant()) == "assistant"@);
                if mended[i] != empty_assistant() {
                    let k = choose|k: int| 0 <= k < given.len() && #[trigger] place(given, k) == i;
                    assert(mended[i] == given[k]);
                    if rules.developer || rules.tool {
                        let source = clean.get_array("messages"@).unwrap();
                        assert(given == retagged_messages(source, rules.developer, rules.tool));
                        law_retagging_changes_roles_only(
                            source[k],
                            rules.developer,
                            rules.tool,
                            ""@,
                        );
                    }
                }
            }
        },
        None => {},
    }
}

} // verus!
