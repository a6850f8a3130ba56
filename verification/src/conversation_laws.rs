//! What of a client's conversation goes upstream.

use vstd::prelude::*;

use crate::json::JsonView;
use crate::message_laws::{
    law_ordering_is_stable, law_ordering_leaves_no_gap, law_ordering_only_adds, lemma_key_lengths,
    place, well_ordered,
};
use crate::messages::{
    described_tool, described_tools, empty_assistant, instructed_messages, named_only, needs_gap,
    normalized, normalized_message, normalized_messages, ordered_messages, retagged,
    retagged_message, retagged_messages, role_of, sanitized, sanitized_message, sanitized_messages,
    stripped_assistant, with_minimax_hint, with_mistral_params, with_ordered_messages,
    with_sanitized_messages, MINIMAX_INSTRUCTION,
};
use crate::prepare::{request_for, rewritten_conversation, rules_of, ModelRules};
use crate::request_laws::law_request_carries_the_conversation;
use crate::state::AppState;
use crate::text::{has_text, occurs_at};

verus! {

// ---------------------------------------------------------------------------------------
// One message
// ---------------------------------------------------------------------------------------

/// Whether a tool call or a tool definition has a function whose name is the empty string.
pub open spec fn nameless(tool: JsonView) -> bool {
    tool.get("function"@) matches Some(f) && f.get("name"@) == Some(JsonView::Str(""@))
}

/// Whether a member of a message is one that rewriting may change besides its role.
pub open spec fn rewritable(key: Seq<char>) -> bool {
    ||| key == "content"@
    ||| key == "tool_calls"@
    ||| key == "tool_call_id"@
    ||| key == "reasoning"@
}

/// Sanitizing a message keeps what it says: the content of a message that calls no tools stays,
/// and so does every member but the content, the tool calls and the two extra fields. Of any
/// message but the assistant's only the tool calls may change.
pub proof fn law_sanitizing_keeps_what_is_said(msg: JsonView, key: Seq<char>)
    ensures
        !rewritable(key) ==> sanitized_message(msg).get(key) == msg.get(key),
        msg.get("tool_calls"@) is None ==> sanitized_message(msg).get("content"@) == msg.get(
            "content"@,
        ),
        msg.get("role"@) != Some(JsonView::Str("assistant"@)) && key != "tool_calls"@
            ==> sanitized_message(msg).get(key) == msg.get(key),
        msg.get("role"@) == Some(JsonView::Str("assistant"@)) ==> {
            &&& sanitized_message(msg).get("tool_call_id"@) is None
            &&& sanitized_message(msg).get("reasoning"@) is None
            &&& msg.get("tool_calls"@) is Some ==> sanitized_message(msg).get("content"@) == Some(
                JsonView::Null,
            )
        },
        role_of(sanitized_message(msg)) == role_of(msg),
{
    lemma_key_lengths();
}

proof fn lemma_named(tools: Seq<JsonView>, t: JsonView)
    ensures
        named_only(tools).contains(t) <==> tools.contains(t) && !nameless(t),
        named_only(tools).len() <= tools.len(),
        (forall|i: int| 0 <= i < tools.len() ==> !nameless(#[trigger] tools[i])) ==> named_only(tools)
            == tools,
    decreases tools.len(),
{
    reveal(Seq::filter);
    lemma_key_lengths();
    let all = named_only(tools);
    if tools.len() > 0 {
        let rest = tools.drop_last();
        let n = tools.len() - 1;
        lemma_named(rest, t);
        lemma_in_front(tools, t);
        if !nameless(tools.last()) {
            assert(all.drop_last() =~= named_only(rest));
            lemma_in_front(all, t);
        }
        if forall|i: int| 0 <= i < tools.len() ==> !nameless(#[trigger] tools[i]) {
            assert forall|i: int| 0 <= i < rest.len() implies !nameless(#[trigger] rest[i]) by {
                assert(rest[i] == tools[i]);
            }
            assert(!nameless(tools[n]));
            assert(rest.push(tools.last()) =~= tools);
        }
    } else {
        assert(all =~= tools);
    }
}

proof fn lemma_in_front(list: Seq<JsonView>, t: JsonView)
    requires
        list.len() > 0,
    ensures
        list.contains(t) <==> list.drop_last().contains(t) || list.last() == t,
{
    let rest = list.drop_last();
    if list.contains(t) {
        let k = choose|k: int| 0 <= k < list.len() && list[k] == t;
        if k < rest.len() {
            assert(rest[k] == t);
        }
    }
    if rest.contains(t) {
        let k = choose|k: int| 0 <= k < rest.len() && rest[k] == t;
        assert(list[k] == t);
    }
    if list.last() == t {
        assert(list[list.len() - 1] == t);
    }
}

/// Sanitizing a message drops exactly the tool calls whose function's name is empty: the others
/// stay, the list stays as it is where none is dropped, and it goes where none of several is
/// left.
pub proof fn law_sanitizing_drops_nameless_calls_only(
    msg: JsonView,
    calls: Seq<JsonView>,
    call: JsonView,
)
    requires
        msg.get("tool_calls"@) == Some(JsonView::Arr(calls)),
    ensures
        match sanitized_message(msg).get("tool_calls"@) {
            Some(JsonView::Arr(kept)) => {
                &&& kept.contains(call) <==> calls.contains(call) && !nameless(call)
                &&& kept.len() <= calls.len()
                &&& (forall|i: int| 0 <= i < calls.len() ==> !nameless(#[trigger] calls[i])) ==> kept
                    == calls
            },
            Some(_) => false,
            None => calls.len() > 0 && forall|i: int|
                0 <= i < calls.len() ==> nameless(#[trigger] calls[i]),
        },
{
    lemma_key_lengths();
    let m = stripped_assistant(msg);
    assert(m.get("tool_calls"@) == msg.get("tool_calls"@));
    lemma_named(calls, call);
    if sanitized_message(msg).get("tool_calls"@) is None {
        assert forall|i: int| 0 <= i < calls.len() implies nameless(#[trigger] calls[i]) by {
            lemma_named(calls, calls[i]);
            assert(calls.contains(calls[i]));
        }
    }
}

/// Normalizing a message keeps what it says: only the assistant's messages change; of those the
/// content stays where there is any and no tool is called, and the tool calls stay where there
/// are any. Nothing else changes but the two extra fields.
pub proof fn law_normalizing_keeps_what_is_said(msg: JsonView, key: Seq<char>)
    ensures
        msg.get("role"@) != Some(JsonView::Str("assistant"@)) ==> normalized_message(msg) == msg,
        !rewritable(key) ==> normalized_message(msg).get(key) == msg.get(key),
        msg.get("role"@) == Some(JsonView::Str("assistant"@)) ==> {
            let calls = msg.get("tool_calls"@) matches Some(JsonView::Arr(list)) && list.len() > 0;
            let silent = msg.get("content"@) is None || msg.get("content"@) == Some(JsonView::Null);
            let out = normalized_message(msg);
            &&& out.get("tool_call_id"@) is None
            &&& out.get("reasoning"@) is None
            &&& calls ==> out.get("tool_calls"@) == msg.get("tool_calls"@) && out.get("content"@)
                == Some(JsonView::Null)
            &&& !calls ==> out.get("tool_calls"@) is None
            &&& !calls && !silent ==> out.get("content"@) == msg.get("content"@)
            &&& !calls && silent ==> out.get("content"@) == Some(JsonView::Str(""@))
        },
{
    lemma_key_lengths();
}

/// The role under which a message goes upstream.
pub open spec fn sent_role(role: Seq<char>, developer: bool, tool: bool) -> Seq<char> {
    if developer && role == "developer"@ {
        "user"@
    } else if tool && role == "tool"@ {
        "assistant"@
    } else {
        role
    }
}

/// Replacing roles turns "developer" into "user" and "tool" into "assistant", each where it is
/// asked for, and changes nothing else of any message.
pub proof fn law_roles_are_replaced(msg: JsonView, developer: bool, tool: bool, key: Seq<char>)
    ensures
        role_of(retagged_message(msg, developer, tool)) == sent_role(
            role_of(msg),
            developer,
            tool,
        ),
        key != "role"@ ==> retagged_message(msg, developer, tool).get(key) == msg.get(key),
        sent_role(role_of(msg), developer, tool) == role_of(msg) ==> retagged_message(
            msg,
            developer,
            tool,
        ) == msg,
{
    lemma_key_lengths();
}

// ---------------------------------------------------------------------------------------
// Tools
// ---------------------------------------------------------------------------------------

/// A tool definition keeps all that it says. Only a function that is an object gets anything: an
/// empty description and the schema of an object without properties, each where it has none.
pub proof fn law_tools_keep_what_they_say(tool: JsonView, key: Seq<char>)
    ensures
        key != "function"@ ==> described_tool(tool).get(key) == tool.get(key),
        !(tool.get("function"@) matches Some(JsonView::Obj(_))) ==> described_tool(tool) == tool,
        tool.get("function"@) matches Some(f) ==> f is Obj ==> (described_tool(tool).get(
            "function"@,
        ) matches Some(g) && {
            &&& key != "description"@ && key != "parameters"@ ==> g.get(key) == f.get(key)
            &&& g.get("description"@) == (if f.get("description"@) is None || f.get("description"@)
                == Some(JsonView::Null) {
                Some(JsonView::Str(""@))
            } else {
                f.get("description"@)
            })
            &&& if f.get("parameters"@) is None || f.get("parameters"@) == Some(JsonView::Null) {
                g.get("parameters"@) matches Some(p) && p.get("type"@) == Some(
                    JsonView::Str("object"@),
                ) && p.get("properties"@) == Some(JsonView::Obj(Map::empty()))
            } else {
                g.get("parameters"@) == f.get("parameters"@)
            }
        }),
{
    lemma_key_lengths();
    reveal_strlit("type");
    reveal_strlit("properties");
    assert("type"@.len() == 4);
    assert("properties"@.len() == 10);
}

/// A sanitized request has every tool of the client whose function's name is not empty, and no
/// other; the list goes where none is left. What is no list stays.
pub proof fn law_sanitizing_keeps_named_tools(json: JsonView, tool: JsonView)
    ensures
        json.get("tools"@) matches Some(JsonView::Arr(tools)) ==> match sanitized(json).get(
            "tools"@,
        ) {
            Some(JsonView::Arr(kept)) => {
                &&& kept.len() > 0
                &&& tools.contains(tool) && !nameless(tool) ==> kept.contains(described_tool(tool))
                &&& forall|i: int| 0 <= i < kept.len() ==> !nameless(#[trigger] kept[i])
                &&& kept.len() <= tools.len()
            },
            Some(_) => false,
            None => forall|i: int| 0 <= i < tools.len() ==> nameless(#[trigger] tools[i]),
        },
        !(json.get("tools"@) matches Some(JsonView::Arr(_))) ==> sanitized(json).get("tools"@)
            == json.get("tools"@),
{
    lemma_key_lengths();
    let j = with_sanitized_messages(json);
    assert(j.get("tools"@) == json.get("tools"@));
    if json.get("tools"@) is Some && json.get("tools"@)->Some_0 is Arr {
        let tools = json.get("tools"@)->Some_0->Arr_0;
        let all = described_tools(tools);
        let kept = named_only(all);
        assert(j.get_array("tools"@) == Some(tools));
        lemma_named(all, tool);
        assert forall|i: int| 0 <= i < kept.len() implies !nameless(#[trigger] kept[i]) by {
            lemma_named(all, kept[i]);
            assert(kept.contains(kept[i]));
        }
        assert forall|i: int| 0 <= i < tools.len() && !nameless(#[trigger] tools[i]) implies kept.contains(
            described_tool(tools[i]),
        ) by {
            law_tools_keep_what_they_say(tools[i], "name"@);
            assert(all[i] == described_tool(tools[i]));
            lemma_function_name(tools[i]);
            lemma_named(all, all[i]);
            assert(all.contains(all[i]));
        }
        if tools.contains(tool) && !nameless(tool) {
            let k = choose|k: int| 0 <= k < tools.len() && tools[k] == tool;
            assert(!nameless(tools[k]));
        }
        if kept.len() == 0 {
            assert forall|i: int| 0 <= i < tools.len() implies nameless(#[trigger] tools[i]) by {
                if !nameless(tools[i]) {
                    assert(kept.contains(described_tool(tools[i])));
                }
            }
        }
    }
}

proof fn lemma_function_name(tool: JsonView)
    ensures
        nameless(described_tool(tool)) == nameless(tool),
{
    lemma_key_lengths();
}

// ---------------------------------------------------------------------------------------
// The whole conversation
// ---------------------------------------------------------------------------------------

/// Whether a message that is sent carries a message of the client: under its role, or the one
/// that the model takes for it; with all its members but those that rewriting may change; with
/// its content where it calls no tools and has any; with its tool calls where all have names. A
/// message that is not sent as the assistant's keeps its content and its two extra fields in any case.
pub open spec fn carried(msg: JsonView, sent: JsonView, rules: ModelRules) -> bool {
    &&& role_of(sent) == sent_role(role_of(msg), rules.developer, rules.tool)
    &&& forall|key: Seq<char>|
        !rewritable(key) && key != "role"@ ==> #[trigger] sent.get(key) == msg.get(key)
    &&& msg.get("tool_calls"@) is None && msg.get("content"@) is Some && msg.get("content"@)
        != Some(JsonView::Null) ==> sent.get("content"@) == msg.get("content"@)
    &&& msg.get("tool_calls"@) matches Some(JsonView::Arr(calls)) ==> calls.len() > 0 && (forall|
        i: int,
    | 0 <= i < calls.len() ==> !nameless(#[trigger] calls[i])) ==> sent.get("tool_calls"@)
        == msg.get("tool_calls"@)
    &&& role_of(sent) != "assistant"@ ==> {
        &&& sent.get("content"@) == msg.get("content"@)
        &&& sent.get("tool_call_id"@) == msg.get("tool_call_id"@)
        &&& sent.get("reasoning"@) == msg.get("reasoning"@)
    }
}

/// The messages of a conversation when its order is mended.
pub open spec fn tagged_messages(messages: Seq<JsonView>, rules: ModelRules) -> Seq<JsonView> {
    if rules.developer || rules.tool {
        retagged_messages(sanitized_messages(messages), rules.developer, rules.tool)
    } else {
        sanitized_messages(messages)
    }
}

/// Where a message of a conversation stands among those that are sent.
pub open spec fn seat(messages: Seq<JsonView>, rules: ModelRules, i: int) -> int {
    place(tagged_messages(messages, rules), i)
}

/// Whether the messages that are sent carry a conversation: each of its messages has a seat, in
/// the order of the conversation, and whatever else is sent is an empty message of the
/// assistant.
pub open spec fn carries_all(messages: Seq<JsonView>, sent: Seq<JsonView>, rules: ModelRules) -> bool {
    &&& messages.len() <= sent.len()
    &&& forall|i: int|
        0 <= i < messages.len() ==> 0 <= #[trigger] seat(messages, rules, i) < sent.len()
            && carried(messages[i], sent[seat(messages, rules, i)], rules)
    &&& forall|i: int, j: int|
        0 <= i < j < messages.len() ==> #[trigger] seat(messages, rules, i) < #[trigger] seat(
            messages,
            rules,
            j,
        )
    &&& forall|k: int|
        0 <= k < sent.len() ==> (exists|i: int|
            0 <= i < messages.len() && #[trigger] seat(messages, rules, i) == k) || {
            &&& (#[trigger] sent[k]).get("role"@) == Some(JsonView::Str("assistant"@))
            &&& sent[k].get("content"@) == Some(JsonView::Str(""@))
            &&& sent[k].get("tool_calls"@) is None
        }
}

proof fn lemma_message_carried(msg: JsonView, rules: ModelRules)
    ensures
        ({
            let clean = sanitized_message(msg);
            let tagged = if rules.developer || rules.tool {
                retagged_message(clean, rules.developer, rules.tool)
            } else {
                clean
            };
            carried(msg, normalized_message(tagged), rules)
        }),
{
    lemma_key_lengths();
    let clean = sanitized_message(msg);
    let tagged = if rules.developer || rules.tool {
        retagged_message(clean, rules.developer, rules.tool)
    } else {
        clean
    };
    let sent = normalized_message(tagged);
    law_sanitizing_keeps_what_is_said(msg, "content"@);
    law_sanitizing_keeps_what_is_said(msg, "tool_call_id"@);
    law_sanitizing_keeps_what_is_said(msg, "reasoning"@);
    law_roles_are_replaced(clean, rules.developer, rules.tool, "content"@);
    law_roles_are_replaced(clean, rules.developer, rules.tool, "tool_call_id"@);
    law_roles_are_replaced(clean, rules.developer, rules.tool, "reasoning"@);
    law_roles_are_replaced(clean, rules.developer, rules.tool, "tool_calls"@);
    law_normalizing_keeps_what_is_said(tagged, "content"@);
    law_normalizing_keeps_what_is_said(tagged, "role"@);
    assert forall|key: Seq<char>| !rewritable(key) && key != "role"@ implies #[trigger] sent.get(key)
        == msg.get(key) by {
        law_sanitizing_keeps_what_is_said(msg, key);
        law_roles_are_replaced(clean, rules.developer, rules.tool, key);
        law_normalizing_keeps_what_is_said(tagged, key);
    }
    assert(msg.get("tool_calls"@) is None ==> clean.get("tool_calls"@) is None);
    if let Some(JsonView::Arr(calls)) = msg.get("tool_calls"@) {
        if calls.len() > 0 && forall|i: int| 0 <= i < calls.len() ==> !nameless(#[trigger] calls[i]) {
            law_sanitizing_drops_nameless_calls_only(msg, calls, JsonView::Null);
            assert(!nameless(calls[0]));
            assert(clean.get("tool_calls"@) == msg.get("tool_calls"@));
        }
    }
}

proof fn lemma_conversation_carried(
    hinted: JsonView,
    messages: Seq<JsonView>,
    rules: ModelRules,
)
    requires
        hinted.get("messages"@) == Some(JsonView::Arr(messages)),
    ensures
        normalized(
            with_ordered_messages(retagged(sanitized(hinted), rules.developer, rules.tool)),
        ).get("messages"@) matches Some(JsonView::Arr(sent)) && carries_all(
            messages,
            sent,
            rules,
        ),
{
    lemma_key_lengths();
    let clean = sanitized(hinted);
    let tagged = tagged_messages(messages, rules);
    assert(with_sanitized_messages(hinted).get("messages"@) == Some(
        JsonView::Arr(sanitized_messages(messages)),
    ));
    assert(clean.get("messages"@) == Some(JsonView::Arr(sanitized_messages(messages))));
    let marked = retagged(clean, rules.developer, rules.tool);
    assert(marked.get("messages"@) == Some(JsonView::Arr(tagged)));
    let mended = ordered_messages(tagged);
    assert(with_ordered_messages(marked).get("messages"@) == Some(JsonView::Arr(mended)));
    let sent = normalized_messages(mended);
    law_ordering_only_adds(tagged);
    assert forall|i: int| 0 <= i < messages.len() implies 0 <= #[trigger] seat(messages, rules, i)
        < sent.len() && carried(messages[i], sent[seat(messages, rules, i)], rules) by {
        let k = place(tagged, i);
        assert(mended[k] == tagged[i]);
        lemma_message_carried(messages[i], rules);
    }
    assert forall|i: int, j: int| 0 <= i < j < messages.len() implies #[trigger] seat(
        messages,
        rules,
        i,
    ) < #[trigger] seat(messages, rules, j) by {
        assert(place(tagged, i) < place(tagged, j));
    }
    assert forall|k: int| 0 <= k < sent.len() implies (exists|i: int|
        0 <= i < messages.len() && #[trigger] seat(messages, rules, i) == k) || {
        &&& (#[trigger] sent[k]).get("role"@) == Some(JsonView::Str("assistant"@))
        &&& sent[k].get("content"@) == Some(JsonView::Str(""@))
        &&& sent[k].get("tool_calls"@) is None
    } by {
        if mended[k] == empty_assistant() {
            law_normalizing_keeps_what_is_said(empty_assistant(), "role"@);
        } else {
            let i = choose|i: int| 0 <= i < tagged.len() && #[trigger] place(tagged, i) == k;
            assert(seat(messages, rules, i) == k);
        }
    }
}

proof fn lemma_switches_keep_messages(json: JsonView, model: Seq<char>)
    ensures
        with_mistral_params(json, model).get("messages"@) == json.get("messages"@),
{
    reveal_strlit("messages");
    reveal_strlit("add_generation_prompt");
    reveal_strlit("continue_final_message");
    assert("messages"@.len() == 8);
    assert("add_generation_prompt"@.len() == 21);
    assert("continue_final_message"@.len() == 22);
}

/// Whatever a conversation is rewritten to, all of it goes upstream: each message in its order,
/// with its role or the one that the model takes for it, and with its content where it calls no
/// tools and has any. For a MiniMax model see `law_minimax_conversation_is_carried`.
pub proof fn law_conversation_is_carried(
    json: JsonView,
    messages: Seq<JsonView>,
    model: Seq<char>,
    rules: ModelRules,
)
    requires
        json.get("messages"@) == Some(JsonView::Arr(messages)),
        !occurs_at(model, "minimaxai/"@, 0),
    ensures
        rewritten_conversation(json, model, rules).get("messages"@) matches Some(
            JsonView::Arr(sent),
        ) && carries_all(messages, sent, rules),
{
    lemma_switches_keep_messages(json, model);
    let hinted = with_minimax_hint(with_mistral_params(json, model), model);
    assert(hinted.get("messages"@) == Some(JsonView::Arr(messages)));
    lemma_conversation_carried(hinted, messages, rules);
}

/// The hint for a MiniMax model is all that its conversation gets: behind the text of a first
/// system message, with an empty line between, or in a system message of its own in front of
/// all others. Where the first message is a system message without a text nothing is added.
pub proof fn law_minimax_hint_adds_only(messages: Seq<JsonView>, key: Seq<char>)
    ensures
        ({
            let out = instructed_messages(messages);
            if messages.len() > 0 && messages[0].get("role"@) == Some(JsonView::Str("system"@)) {
                &&& out.len() == messages.len()
                &&& forall|i: int| 1 <= i < messages.len() ==> #[trigger] out[i] == messages[i]
                &&& key != "content"@ ==> out[0].get(key) == messages[0].get(key)
                &&& match messages[0].get("content"@) {
                    Some(JsonView::Str(text)) => out[0].get("content"@) == Some(
                        JsonView::Str(text + "\n\n"@ + MINIMAX_INSTRUCTION@),
                    ),
                    _ => out[0] == messages[0],
                }
            } else {
                &&& out.len() == messages.len() + 1
                &&& forall|i: int| 0 <= i < messages.len() ==> #[trigger] out[i + 1] == messages[i]
                &&& out[0].get("role"@) == Some(JsonView::Str("system"@))
                &&& out[0].get("content"@) == Some(JsonView::Str(MINIMAX_INSTRUCTION@))
            }
        }),
        MINIMAX_INSTRUCTION@ == "When using tools, output JSON in this exact format:\n{\"tool_calls\": [{\"id\": \"call_1\", \"type\": \"function\", \"function\": {\"name\": \"function_name\", \"arguments\": {\"arg\": \"value\"}}}]}\nDo NOT use XML tags like <minimax:tool_call> or <invoke>."@,
{
    lemma_key_lengths();
}

/// The conversation with a MiniMax model goes upstream in the same way, with the hint in it.
pub proof fn law_minimax_conversation_is_carried(
    json: JsonView,
    messages: Seq<JsonView>,
    model: Seq<char>,
    rules: ModelRules,
)
    requires
        json.get("messages"@) == Some(JsonView::Arr(messages)),
        occurs_at(model, "minimaxai/"@, 0),
    ensures
        rewritten_conversation(json, model, rules).get("messages"@) matches Some(
            JsonView::Arr(sent),
        ) && carries_all(instructed_messages(messages), sent, rules),
{
    lemma_key_lengths();
    lemma_switches_keep_messages(json, model);
    let hinted = with_minimax_hint(with_mistral_params(json, model), model);
    assert(hinted.get("messages"@) == Some(JsonView::Arr(instructed_messages(messages))));
    lemma_conversation_carried(hinted, instructed_messages(messages), rules);
}

/// The request that goes to a model carries the client's conversation, whatever the state says
/// of the model.
pub proof fn law_request_carries_the_clients_words(
    json: JsonView,
    messages: Seq<JsonView>,
    model: Seq<char>,
    state: AppState,
)
    requires
        json.get("messages"@) == Some(JsonView::Arr(messages)),
        !occurs_at(model, "minimaxai/"@, 0),
    ensures
        request_for(json, model, state).get("messages"@) matches Some(JsonView::Arr(sent))
            && carries_all(messages, sent, rules_of(state, model)),
{
    lemma_key_lengths();
    reveal_strlit("model");
    assert("model"@.len() == 5);
    let named = json.put("model"@, JsonView::Str(model));
    assert(named.get("messages"@) == json.get("messages"@));
    law_request_carries_the_conversation(json, model, state);
    law_conversation_is_carried(named, messages, model, rules_of(state, model));
}

/// A Mistral model is told not to start a new message exactly where a message is a tool's or
/// calls tools, and to go on with the last one exactly where that is the assistant's; any other
/// model is told neither.
pub proof fn law_mistral_switches(
    json: JsonView,
    messages: Seq<JsonView>,
    model: Seq<char>,
    rules: ModelRules,
)
    requires
        json.get("messages"@) == Some(JsonView::Arr(messages)),
    ensures
        ({
            let out = rewritten_conversation(json, model, rules);
            let mistral = has_text(model, "mistral"@) || has_text(model, "devstral"@);
            let tools = exists|i: int|
                0 <= i < messages.len() && ((#[trigger] messages[i]).get("role"@) == Some(
                    JsonView::Str("tool"@),
                ) || messages[i].get("tool_calls"@) is Some);
            let ends = messages.len() > 0 && messages.last().get("role"@) == Some(
                JsonView::Str("assistant"@),
            );
            &&& out.get("add_generation_prompt"@) == (if mistral && tools {
                Some(JsonView::Bool(false))
            } else {
                json.get("add_generation_prompt"@)
            })
            &&& out.get("continue_final_message"@) == (if mistral && ends {
                Some(JsonView::Bool(true))
            } else {
                json.get("continue_final_message"@)
            })
        }),
{
    lemma_key_lengths();
    reveal_strlit("add_generation_prompt");
    reveal_strlit("continue_final_message");
    let p = "add_generation_prompt"@;
    let q = "continue_final_message"@;
    assert(p.len() == 21);
    assert(q.len() == 22);
    let a = with_mistral_params(json, model);
    let b = with_minimax_hint(a, model);
    let c = sanitized(b);
    let d = retagged(c, rules.developer, rules.tool);
    let e = with_ordered_messages(d);
    let f = rewritten_conversation(json, model, rules);
    assert(json.get_array("messages"@) == Some(messages));
    assert(b.get(p) == a.get(p) && b.get(q) == a.get(q));
    assert(c.get(p) == b.get(p) && c.get(q) == b.get(q));
    assert(d.get(p) == c.get(p) && d.get(q) == c.get(q));
    assert(e.get(p) == d.get(p) && e.get(q) == d.get(q));
    assert(f.get(p) == e.get(p) && f.get(q) == e.get(q));
}

/// Whether a message is a tool's and the next one asks: as the user or as the developer.
pub open spec fn asks_behind_tool(msg: JsonView, next: JsonView) -> bool {
    &&& msg.get("role"@) == Some(JsonView::Str("tool"@))
    &&& next.get("role"@) == Some(JsonView::Str("user"@)) || next.get("role"@) == Some(
        JsonView::Str("developer"@),
    )
}

proof fn lemma_asks(msg: JsonView, next: JsonView)
    ensures
        needs_gap(msg, next) == asks_behind_tool(msg, next),
{
    lemma_key_lengths();
}

/// Mending the order puts an empty message of the assistant between a tool's message and a
/// request right behind it, and nowhere else: no such pair is left, and a conversation without
/// one stays as it is.
pub proof fn law_order_is_mended(messages: Seq<JsonView>)
    ensures
        forall|i: int|
            0 <= i < ordered_messages(messages).len() - 1 ==> !asks_behind_tool(
                #[trigger] ordered_messages(messages)[i],
                ordered_messages(messages)[i + 1],
            ),
        (forall|i: int|
            0 <= i < messages.len() - 1 ==> !asks_behind_tool(
                #[trigger] messages[i],
                messages[i + 1],
            )) ==> ordered_messages(messages) == messages,
{
    let out = ordered_messages(messages);
    law_ordering_leaves_no_gap(messages);
    law_ordering_is_stable(messages);
    assert forall|i: int| 0 <= i < out.len() - 1 implies !asks_behind_tool(
        #[trigger] out[i],
        out[i + 1],
    ) by {
        assert(!needs_gap(out[i], out[i + 1]));
        lemma_asks(out[i], out[i + 1]);
    }
    if forall|i: int|
        0 <= i < messages.len() - 1 ==> !asks_behind_tool(#[trigger] messages[i], messages[i + 1]) {
        assert forall|i: int| 0 <= i < messages.len() - 1 implies !needs_gap(
            #[trigger] messages[i],
            messages[i + 1],
        ) by {
            assert(!asks_behind_tool(messages[i], messages[i + 1]));
            lemma_asks(messages[i], messages[i + 1]);
        }
        assert(well_ordered(messages));
    }
}

/// Where a request stands right behind a tool's message, one message more is sent, between them.
pub proof fn law_gaps_are_filled(messages: Seq<JsonView>, next: JsonView)
    requires
        messages.len() > 0,
    ensures
        asks_behind_tool(messages.last(), next) ==> ordered_messages(messages.push(next))
            == ordered_messages(messages).push(empty_assistant()).push(next),
        !asks_behind_tool(messages.last(), next) ==> ordered_messages(messages.push(next))
            == ordered_messages(messages).push(next),
        empty_assistant().get("role"@) == Some(JsonView::Str("assistant"@)),
        empty_assistant().get("content"@) == Some(JsonView::Str(""@)),
{
    lemma_key_lengths();
    lemma_asks(messages.last(), next);
    assert(messages.push(next).drop_last() =~= messages);
}

/// The entries that have names are kept in their order, each as often as it stands there: what is
/// kept of two rows is what is kept of the first, then of the second.
pub proof fn law_named_entries_keep_their_order(a: Seq<JsonView>, b: Seq<JsonView>, tool: JsonView)
    ensures
        named_only(a + b) == named_only(a) + named_only(b),
        named_only(seq![tool]) == (if nameless(tool) {
            Seq::empty()
        } else {
            seq![tool]
        }),
    decreases b.len(),
{
    reveal(Seq::filter);
    reveal_with_fuel(Seq::filter, 2);
    let one = seq![tool];
    assert(one.drop_last() =~= Seq::<JsonView>::empty());
    assert(Seq::<JsonView>::empty().push(tool) =~= one);
    if b.len() == 0 {
        assert(a + b =~= a);
        assert(named_only(a) + named_only(b) =~= named_only(a));
    } else {
        let rest = b.drop_last();
        law_named_entries_keep_their_order(a, rest, tool);
        assert((a + b).drop_last() =~= a + rest);
        assert((a + b).last() == b.last());
        assert((named_only(a) + named_only(rest)).push(b.last()) =~= named_only(a) + named_only(
            rest,
        ).push(b.last()));
    }
}

/// The tools that go upstream are those of the client with names, in their order, each with a
/// description and parameters, whatever else is rewritten.
pub proof fn law_tools_go_upstream(json: JsonView, model: Seq<char>, rules: ModelRules)
    ensures
        rewritten_conversation(json, model, rules).get("tools"@) == sanitized(json).get("tools"@),
        json.get("tools"@) matches Some(JsonView::Arr(tools)) ==> (sanitized(json).get(
            "tools"@,
        ) matches Some(JsonView::Arr(kept)) ==> kept == named_only(
            Seq::new(tools.len(), |i: int| described_tool(tools[i])),
        )),
{
    lemma_key_lengths();
    reveal_strlit("add_generation_prompt");
    reveal_strlit("continue_final_message");
    let t = "tools"@;
    assert("add_generation_prompt"@.len() == 21);
    assert("continue_final_message"@.len() == 22);
    let a = with_mistral_params(json, model);
    let b = with_minimax_hint(a, model);
    let c = sanitized(b);
    let d = retagged(c, rules.developer, rules.tool);
    let e = with_ordered_messages(d);
    let f = rewritten_conversation(json, model, rules);
    assert(a.get(t) == json.get(t));
    assert(b.get(t) == a.get(t));
    assert(with_sanitized_messages(b).get(t) == json.get(t));
    assert(with_sanitized_messages(json).get(t) == json.get(t));
    assert(c.get(t) == sanitized(json).get(t));
    assert(d.get(t) == c.get(t));
    assert(e.get(t) == d.get(t));
    assert(f.get(t) == e.get(t));
    if let Some(JsonView::Arr(tools)) = json.get(t) {
        assert(described_tools(tools) =~= Seq::new(
            tools.len(),
            |i: int| described_tool(tools[i]),
        ));
    }
}

} // verus!
