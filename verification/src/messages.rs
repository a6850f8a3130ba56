//! The rewriting of chat messages and tool definitions before a request goes upstream.

use vstd::prelude::*;
use vstd::string::*;

use crate::json::{items_view, json_view, lemma_items_push, Json, JsonView};
use crate::model_id::{is_minimax_model, is_mistral_model, minimax_model, mistral_model};
use crate::text::str_eq;

verus! {

/// The role of a message; empty where it has none.
pub open spec fn role_of(msg: JsonView) -> Seq<char> {
    match msg.get_str("role"@) {
        Some(r) => r,
        None => ""@,
    }
}

fn role(msg: &Json) -> (r: &str)
    ensures
        r@ == role_of(msg@),
{
    match msg.get_str("role") {
        Some(r) => r,
        None => "",
    }
}

pub(crate) fn has_role(msg: &Json, name: &str) -> (r: bool)
    ensures
        r == (msg@.get_str("role"@) == Some(name@)),
{
    match msg.get_str("role") {
        Some(r) => str_eq(r, name),
        None => false,
    }
}

/// A value with its messages, where it has an array of them, replaced.
pub open spec fn with_messages(json: JsonView, messages: Seq<JsonView>) -> JsonView {
    json.put("messages"@, JsonView::Arr(messages))
}

// ---------------------------------------------------------------------------------------
// Tool calls and tool definitions
// ---------------------------------------------------------------------------------------

/// The name of the function that a tool call or a tool definition speaks of.
pub open spec fn function_name(tool: JsonView) -> Option<Seq<char>> {
    match tool.get("function"@) {
        Some(f) => f.get_str("name"@),
        None => None,
    }
}

/// Whether the function's name is not the empty string.
pub open spec fn keeps_name(tool: JsonView) -> bool {
    function_name(tool) != Some(""@)
}

/// The entries whose function's name is not the empty string.
pub open spec fn named_only(tools: Seq<JsonView>) -> Seq<JsonView> {
    tools.filter(|t: JsonView| keeps_name(t))
}

fn has_usable_name(tool: &Json) -> (r: bool)
    ensures
        r == keeps_name(tool@),
{
    match tool.get("function") {
        Some(f) => match f.get_str("name") {
            Some(name) => {
                assert(name@ == ""@ <==> name@.len() == 0) by {
                    reveal_strlit("");
                    assert(""@.len() == 0);
                    assert(name@.len() == 0 ==> name@ =~= ""@);
                }
                !name.is_empty()
            },
            None => true,
        },
        None => true,
    }
}

fn keep_named(tools: Vec<Json>) -> (r: Vec<Json>)
    ensures
        items_view(r@) == named_only(items_view(tools@)),
{
    let ghost all = tools@;
    let ghost models = items_view(all);
    let mut out: Vec<Json> = Vec::new();
    proof {
        assert(models.take(0) =~= Seq::empty());
        reveal(Seq::filter);
        assert(items_view(out@) =~= Seq::empty());
    }
    for tool in it: tools
        invariant
            it.seq() == all,
            models == items_view(all),
            items_view(out@) == named_only(models.take(it.index() as int)),
    {
        let ghost i = it.index() as int;
        proof {
            reveal(Seq::filter);
            assert(models.take(i + 1).drop_last() =~= models.take(i));
            assert(models.take(i + 1).last() == json_view(tool));
            lemma_items_push(out@, tool);
        }
        if has_usable_name(&tool) {
            out.push(tool);
        }
    }
    assert(models.take(models.len() as int) =~= models);
    out
}

/// An assistant message without the fields that upstream rejects; where it calls tools its
/// content is null.
pub open spec fn stripped_assistant(msg: JsonView) -> JsonView {
    if msg.get_str("role"@) == Some("assistant"@) {
        let m = msg.without("tool_call_id"@).without("reasoning"@);
        if m.get("tool_calls"@) is Some {
            m.put("content"@, JsonView::Null)
        } else {
            m
        }
    } else {
        msg
    }
}

/// A message without the tool calls whose function has an empty name, and without the list
/// where none of several is left.
pub open spec fn without_unnamed_calls(msg: JsonView) -> JsonView {
    match msg.get_array("tool_calls"@) {
        Some(calls) => if calls.len() > 0 && named_only(calls).len() == 0 {
            msg.without("tool_calls"@)
        } else {
            msg.put("tool_calls"@, JsonView::Arr(named_only(calls)))
        },
        None => msg,
    }
}

/// A message after `sanitize_tool_calls`.
pub open spec fn sanitized_message(msg: JsonView) -> JsonView {
    without_unnamed_calls(stripped_assistant(msg))
}

/// The messages after `sanitize_tool_calls`.
pub open spec fn sanitized_messages(messages: Seq<JsonView>) -> Seq<JsonView> {
    messages.map_values(|m: JsonView| sanitized_message(m))
}

/// The schema of a function without parameters.
pub open spec fn empty_parameters() -> JsonView {
    JsonView::Obj(
        Map::empty().insert("type"@, JsonView::Str("object"@)).insert(
            "properties"@,
            JsonView::Obj(Map::empty()),
        ),
    )
}

/// A value with a default for member `key` where that is missing or null.
pub open spec fn with_default(j: JsonView, key: Seq<char>, default: JsonView) -> JsonView {
    if j.get(key) is None || j.get(key) == Some(JsonView::Null) {
        j.put(key, default)
    } else {
        j
    }
}

/// A tool definition with a description and parameters.
pub open spec fn described_tool(tool: JsonView) -> JsonView {
    match tool.get("function"@) {
        Some(f) => if f is Obj {
            tool.put(
                "function"@,
                with_default(
                    with_default(f, "description"@, JsonView::Str(""@)),
                    "parameters"@,
                    empty_parameters(),
                ),
            )
        } else {
            tool
        },
        None => tool,
    }
}

/// The tool definitions, each with a description and parameters.
pub open spec fn described_tools(tools: Seq<JsonView>) -> Seq<JsonView> {
    tools.map_values(|t: JsonView| described_tool(t))
}

/// A request with its messages sanitized.
pub open spec fn with_sanitized_messages(json: JsonView) -> JsonView {
    match json.get_array("messages"@) {
        Some(messages) => with_messages(json, sanitized_messages(messages)),
        None => json,
    }
}

/// A request with its tool definitions sanitized; without the list where none is left.
pub open spec fn with_sanitized_tools(json: JsonView) -> JsonView {
    match json.get_array("tools"@) {
        Some(tools) => {
            let kept = named_only(described_tools(tools));
            if kept.len() == 0 {
                json.without("tools"@)
            } else {
                json.put("tools"@, JsonView::Arr(kept))
            }
        },
        None => json,
    }
}

/// A request after `sanitize_tool_calls`.
pub open spec fn sanitized(json: JsonView) -> JsonView {
    with_sanitized_tools(with_sanitized_messages(json))
}

fn strip_assistant(msg: &mut Json)
    ensures
        final(msg)@ == stripped_assistant(old(msg)@),
{
    if has_role(msg, "assistant") {
        msg.remove("tool_call_id");
        msg.remove("reasoning");
        if msg.get("tool_calls").is_some() {
            msg.put("content", Json::Null);
        }
    }
}

fn drop_unnamed_calls(msg: &mut Json)
    ensures
        final(msg)@ == without_unnamed_calls(old(msg)@),
{
    let ghost before = msg@;
    match msg.take_array("tool_calls") {
        Some(calls) => {
            let original_len: usize = calls.len();
            let kept: Vec<Json> = keep_named(calls);
            if original_len > 0 && kept.len() == 0 {
            } else {
                msg.put("tool_calls", Json::Arr(kept));
                proof {
                    lemma_put_back(before, "tool_calls"@, msg@.get("tool_calls"@).unwrap());
                }
            }
        },
        None => {},
    }
}

/// Assigning a member after it was removed is assigning it.
proof fn lemma_put_back(j: JsonView, key: Seq<char>, value: JsonView)
    requires
        j is Obj,
    ensures
        j.without(key).put(key, value) == j.put(key, value),
        j.put(key, value).get(key) == Some(value),
{
    let m = j->Obj_0;
    assert(m.remove(key).insert(key, value) =~= m.insert(key, value));
}

fn sanitize_message(msg: &mut Json)
    ensures
        final(msg)@ == sanitized_message(old(msg)@),
{
    strip_assistant(msg);
    drop_unnamed_calls(msg);
}

fn empty_schema() -> (r: Json)
    ensures
        r@ == empty_parameters(),
{
    let mut j: Json = Json::Null;
    j.put("type", Json::Str("object".to_owned()));
    let empty: Json = Json::Obj(Vec::new());
    assert(empty@ == JsonView::Obj(Map::empty()));
    j.put("properties", empty);
    j
}

fn missing_or_null(j: &Json, key: &str) -> (r: bool)
    ensures
        r == (j@.get(key@) is None || j@.get(key@) == Some(JsonView::Null)),
{
    match j.get(key) {
        Some(v) => v.is_null(),
        None => true,
    }
}

fn describe_tool(tool: &mut Json)
    ensures
        final(tool)@ == described_tool(old(tool)@),
{
    let ghost before = tool@;
    let is_object: bool = match tool.get("function") {
        Some(f) => f.is_object(),
        None => false,
    };
    if is_object {
        match tool.take("function") {
            Some(f) => {
                let mut f: Json = f;
                if missing_or_null(&f, "description") {
                    f.put("description", Json::Str("".to_owned()));
                }
                if missing_or_null(&f, "parameters") {
                    f.put("parameters", empty_schema());
                }
                let ghost done = f@;
                tool.put("function", f);
                proof {
                    lemma_put_back(before, "function"@, done);
                }
            },
            None => {},
        }
    }
}

/// Removes from the messages and from the tool definitions what upstream rejects: entries
/// with an empty function name, extra fields of assistant messages, content beside tool
/// calls, missing descriptions and parameters.
pub fn sanitize_tool_calls(json: &mut Json)
    ensures
        final(json)@ == sanitized(old(json)@),
{
    let ghost before = json@;
    match json.take_array("messages") {
        Some(messages) => {
            let ghost all = messages@;
            let mut out: Vec<Json> = Vec::new();
            for msg in it: messages
                invariant
                    it.seq() == all,
                    items_view(out@) =~= sanitized_messages(items_view(all).take(it.index() as int)),
            {
                let ghost done = out@;
                let mut msg: Json = msg;
                sanitize_message(&mut msg);
                proof {
                    lemma_items_push(done, msg);
                }
                out.push(msg);
            }
            assert(items_view(all).take(all.len() as int) =~= items_view(all));
            let ghost done = JsonView::Arr(items_view(out@));
            json.put("messages", Json::Arr(out));
            proof {
                lemma_put_back(before, "messages"@, done);
            }
        },
        None => {},
    }
    let ghost before = json@;
    match json.take_array("tools") {
        Some(tools) => {
            let ghost all = tools@;
            let mut out: Vec<Json> = Vec::new();
            for tool in it: tools
                invariant
                    it.seq() == all,
                    items_view(out@) =~= described_tools(items_view(all).take(it.index() as int)),
            {
                let ghost done = out@;
                let mut tool: Json = tool;
                describe_tool(&mut tool);
                proof {
                    lemma_items_push(done, tool);
                }
                out.push(tool);
            }
            assert(items_view(all).take(all.len() as int) =~= items_view(all));
            let kept: Vec<Json> = keep_named(out);
            if kept.len() > 0 {
                let ghost done = JsonView::Arr(items_view(kept@));
                json.put("tools", Json::Arr(kept));
                proof {
                    lemma_put_back(before, "tools"@, done);
                }
            }
        },
        None => {},
    }
}

// ---------------------------------------------------------------------------------------
// Assistant messages
// ---------------------------------------------------------------------------------------

/// Whether the message has an array of tool calls that is not empty.
pub open spec fn calls_tools(msg: JsonView) -> bool {
    match msg.get_array("tool_calls"@) {
        Some(calls) => calls.len() > 0,
        None => false,
    }
}

/// A message after `normalize_assistant_messages`.
pub open spec fn normalized_message(msg: JsonView) -> JsonView {
    if msg.get_str("role"@) == Some("assistant"@) {
        let m = msg.without("tool_call_id"@).without("reasoning"@);
        if calls_tools(m) {
            m.put("content"@, JsonView::Null)
        } else {
            with_default(m.without("tool_calls"@), "content"@, JsonView::Str(""@))
        }
    } else {
        msg
    }
}

/// The messages after `normalize_assistant_messages`.
pub open spec fn normalized_messages(messages: Seq<JsonView>) -> Seq<JsonView> {
    messages.map_values(|m: JsonView| normalized_message(m))
}

/// A request after `normalize_assistant_messages`.
pub open spec fn normalized(json: JsonView) -> JsonView {
    match json.get_array("messages"@) {
        Some(messages) => with_messages(json, normalized_messages(messages)),
        None => json,
    }
}

fn normalize_message(msg: &mut Json)
    ensures
        final(msg)@ == normalized_message(old(msg)@),
{
    if has_role(msg, "assistant") {
        msg.remove("tool_call_id");
        msg.remove("reasoning");
        let has_tool_calls: bool = match msg.get_array("tool_calls") {
            Some(calls) => calls.len() > 0,
            None => false,
        };
        if has_tool_calls {
            msg.put("content", Json::Null);
        } else {
            msg.remove("tool_calls");
            if missing_or_null(msg, "content") {
                msg.put("content", Json::Str("".to_owned()));
            }
        }
    }
}

/// Gives every assistant message either tool calls with null content, or content and no
/// tool calls.
pub fn normalize_assistant_messages(json: &mut Json)
    ensures
        final(json)@ == normalized(old(json)@),
{
    let ghost before = json@;
    match json.take_array("messages") {
        Some(messages) => {
            let ghost all = messages@;
            let mut out: Vec<Json> = Vec::new();
            for msg in it: messages
                invariant
                    it.seq() == all,
                    items_view(out@) =~= normalized_messages(items_view(all).take(it.index() as int)),
            {
                let ghost done = out@;
                let mut msg: Json = msg;
                normalize_message(&mut msg);
                proof {
                    lemma_items_push(done, msg);
                }
                out.push(msg);
            }
            assert(items_view(all).take(all.len() as int) =~= items_view(all));
            let ghost done = JsonView::Arr(items_view(out@));
            json.put("messages", Json::Arr(out));
            proof {
                lemma_put_back(before, "messages"@, done);
            }
        },
        None => {},
    }
}

// ---------------------------------------------------------------------------------------
// Order of messages
// ---------------------------------------------------------------------------------------

/// The message that stands between a tool's answer and the next request.
pub open spec fn empty_assistant() -> JsonView {
    JsonView::Obj(
        Map::empty().insert("role"@, JsonView::Str("assistant"@)).insert(
            "content"@,
            JsonView::Str(""@),
        ),
    )
}

/// Whether `next` may not follow `msg` directly: a request right after a tool's answer.
pub open spec fn needs_gap(msg: JsonView, next: JsonView) -> bool {
    role_of(msg) == "tool"@ && (role_of(next) == "user"@ || role_of(next) == "developer"@)
}

/// The messages with an empty assistant message in every gap that needs one.
pub open spec fn ordered_messages(messages: Seq<JsonView>) -> Seq<JsonView>
    decreases messages.len(),
{
    if messages.len() <= 1 {
        messages
    } else {
        let before = ordered_messages(messages.drop_last());
        if needs_gap(messages[messages.len() - 2], messages.last()) {
            before.push(empty_assistant()).push(messages.last())
        } else {
            before.push(messages.last())
        }
    }
}

/// A request after `fix_message_ordering`.
pub open spec fn with_ordered_messages(json: JsonView) -> JsonView {
    match json.get_array("messages"@) {
        Some(messages) => with_messages(json, ordered_messages(messages)),
        None => json,
    }
}

fn assistant_filler() -> (r: Json)
    ensures
        r@ == empty_assistant(),
{
    let mut j: Json = Json::Null;
    j.put("role", Json::Str("assistant".to_owned()));
    j.put("content", Json::Str("".to_owned()));
    j
}

/// Inserts an empty assistant message wherever a request follows a tool's answer directly.
pub fn fix_message_ordering(json: &mut Json)
    ensures
        final(json)@ == with_ordered_messages(old(json)@),
{
    let ghost before = json@;
    match json.take_array("messages") {
        Some(messages) => {
            let ghost all = messages@;
            let ghost models = items_view(all);
            let mut out: Vec<Json> = Vec::new();
            let mut after_tool: bool = false;
            assert(models.take(0) =~= Seq::empty());
            assert(items_view(out@) =~= Seq::empty());
            for msg in it: messages
                invariant
                    it.seq() == all,
                    models == items_view(all),
                    items_view(out@) == ordered_messages(models.take(it.index() as int)),
                    it.index() == 0 ==> !after_tool,
                    it.index() > 0 ==> after_tool == (role_of(models[it.index() as int - 1])
                        == "tool"@),
            {
                let ghost i = it.index() as int;
                proof {
                    assert(models.take(i + 1).drop_last() =~= models.take(i));
                    assert(models.take(i + 1).last() == msg@);
                    assert(i == 0 ==> models.take(1) =~= seq![msg@]);
                    assert(i > 0 ==> models.take(i + 1)[i - 1] == models[i - 1]);
                }
                let r: &str = role(&msg);
                let asks: bool = str_eq(r, "user") || str_eq(r, "developer");
                let is_tool: bool = str_eq(r, "tool");
                if after_tool && asks {
                    let filler: Json = assistant_filler();
                    proof {
                        lemma_items_push(out@, filler);
                    }
                    out.push(filler);
                }
                proof {
                    lemma_items_push(out@, msg);
                }
                out.push(msg);
                proof {
                    if i == 0 {
                        assert(items_view(out@) =~= seq![models[0]]);
                    }
                }
                after_tool = is_tool;
            }
            assert(models.take(models.len() as int) =~= models);
            let ghost done = JsonView::Arr(items_view(out@));
            json.put("messages", Json::Arr(out));
            proof {
                lemma_put_back(before, "messages"@, done);
            }
        },
        None => {},
    }
}

// ---------------------------------------------------------------------------------------
// Roles
// ---------------------------------------------------------------------------------------

/// A message after `replace_roles`.
pub open spec fn retagged_message(msg: JsonView, developer: bool, tool: bool) -> JsonView {
    if developer && role_of(msg) == "developer"@ {
        msg.put("role"@, JsonView::Str("user"@))
    } else if tool && role_of(msg) == "tool"@ {
        msg.put("role"@, JsonView::Str("assistant"@))
    } else {
        msg
    }
}

/// The messages after `replace_roles`.
pub open spec fn retagged_messages(messages: Seq<JsonView>, developer: bool, tool: bool) -> Seq<
    JsonView,
> {
    messages.map_values(|m: JsonView| retagged_message(m, developer, tool))
}

/// A request after `replace_roles`.
pub open spec fn retagged(json: JsonView, developer: bool, tool: bool) -> JsonView {
    match json.get_array("messages"@) {
        Some(messages) => if developer || tool {
            with_messages(json, retagged_messages(messages, developer, tool))
        } else {
            json
        },
        None => json,
    }
}

/// Replaces the roles that the model does not take: "developer" by "user" where `developer`
/// says so, "tool" by "assistant" where `tool` says so. Nothing else of a message changes.
pub fn replace_roles(json: &mut Json, developer: bool, tool: bool)
    ensures
        final(json)@ == retagged(old(json)@, developer, tool),
{
    if !developer && !tool {
        return;
    }
    let ghost before = json@;
    match json.take_array("messages") {
        Some(messages) => {
            let ghost all = messages@;
            let mut out: Vec<Json> = Vec::new();
            for msg in it: messages
                invariant
                    it.seq() == all,
                    items_view(out@) =~= retagged_messages(
                        items_view(all).take(it.index() as int),
                        developer,
                        tool,
                    ),
            {
                let ghost done = out@;
                let mut msg: Json = msg;
                proof {
                    reveal_strlit("");
                    reveal_strlit("developer");
                    reveal_strlit("tool");
                    assert(""@.len() == 0);
                    assert("developer"@.len() > 0);
                    assert("tool"@.len() > 0);
                }
                let r: &str = role(&msg);
                let is_developer: bool = str_eq(r, "developer");
                let is_tool: bool = str_eq(r, "tool");
                if developer && is_developer {
                    msg.put("role", Json::Str("user".to_owned()));
                } else if tool && is_tool {
                    msg.put("role", Json::Str("assistant".to_owned()));
                }
                proof {
                    lemma_items_push(done, msg);
                }
                out.push(msg);
            }
            assert(items_view(all).take(all.len() as int) =~= items_view(all));
            let ghost done = JsonView::Arr(items_view(out@));
            json.put("messages", Json::Arr(out));
            proof {
                lemma_put_back(before, "messages"@, done);
            }
        },
        None => {},
    }
}

// ---------------------------------------------------------------------------------------
// Parameters and hints for single families of models
// ---------------------------------------------------------------------------------------

/// Whether a message belongs to a tool conversation.
pub open spec fn tool_message(msg: JsonView) -> bool {
    msg.get_str("role"@) == Some("tool"@) || msg.get("tool_calls"@) is Some
}

/// Whether one of the messages belongs to a tool conversation.
pub open spec fn messages_use_tools(messages: Seq<JsonView>) -> bool {
    exists|i: int| 0 <= i < messages.len() && tool_message(#[trigger] messages[i])
}

/// Whether the conversation holds a tool's answer or a tool call.
pub open spec fn uses_tools(json: JsonView) -> bool {
    match json.get_array("messages"@) {
        Some(messages) => messages_use_tools(messages),
        None => false,
    }
}

/// Whether the conversation holds a tool's answer or a tool call.
pub fn has_tool_messages(json: &Json) -> (r: bool)
    ensures
        r == uses_tools(json@),
{
    match json.get_array("messages") {
        Some(messages) => {
            let ghost models = items_view(messages@);
            let mut i: usize = 0;
            while i < messages.len()
                invariant
                    json@.get_array("messages"@) == Some(models),
                    models == items_view(messages@),
                    i <= messages@.len(),
                    forall|k: int| 0 <= k < i ==> !tool_message(#[trigger] models[k]),
                decreases messages@.len() - i,
            {
                let is_tool: bool = has_role(&messages[i], "tool");
                let has_calls: bool = messages[i].get("tool_calls").is_some();
                if is_tool || has_calls {
                    assert(tool_message(models[i as int]));
                    assert(messages_use_tools(models));
                    return true;
                }
                i = i + 1;
            }
            false
        },
        None => false,
    }
}

/// Whether the last message is the assistant's.
pub open spec fn ends_with_assistant(json: JsonView) -> bool {
    match json.get_array("messages"@) {
        Some(messages) => messages.len() > 0 && messages.last().get_str("role"@) == Some(
            "assistant"@,
        ),
        None => false,
    }
}

/// Whether the last message is the assistant's.
pub fn is_last_message_from_assistant(json: &Json) -> (r: bool)
    ensures
        r == ends_with_assistant(json@),
{
    match json.get_array("messages") {
        Some(messages) => if messages.len() > 0 {
            has_role(&messages[messages.len() - 1], "assistant")
        } else {
            false
        },
        None => false,
    }
}

/// A request after `inject_mistral_tool_params`.
pub open spec fn with_mistral_params(json: JsonView, model: Seq<char>) -> JsonView {
    if mistral_model(model) {
        let j = if uses_tools(json) {
            json.put("add_generation_prompt"@, JsonView::Bool(false))
        } else {
            json
        };
        if ends_with_assistant(json) {
            j.put("continue_final_message"@, JsonView::Bool(true))
        } else {
            j
        }
    } else {
        json
    }
}

/// Tells a Mistral model how the conversation goes on: no generation prompt where tools are
/// in use, the final message continued where it is the assistant's.
pub fn inject_mistral_tool_params(json: &mut Json, model_id: &str)
    ensures
        final(json)@ == with_mistral_params(old(json)@, model_id@),
{
    let is_mistral: bool = is_mistral_model(model_id);
    let has_tools: bool = has_tool_messages(json);
    let last_from_assistant: bool = is_last_message_from_assistant(json);
    if is_mistral {
        if has_tools {
            json.put("add_generation_prompt", Json::Bool(false));
        }
        if last_from_assistant {
            json.put("continue_final_message", Json::Bool(true));
        }
    }
}

/// The hint on the format of tool calls.
pub const MINIMAX_INSTRUCTION: &'static str = "When using tools, output JSON in this exact format:\n{\"tool_calls\": [{\"id\": \"call_1\", \"type\": \"function\", \"function\": {\"name\": \"function_name\", \"arguments\": {\"arg\": \"value\"}}}]}\nDo NOT use XML tags like <minimax:tool_call> or <invoke>.";

/// The system message that carries only the hint.
pub open spec fn minimax_system_message() -> JsonView {
    JsonView::Obj(
        Map::empty().insert("role"@, JsonView::Str("system"@)).insert(
            "content"@,
            JsonView::Str(MINIMAX_INSTRUCTION@),
        ),
    )
}

/// The messages with the hint: behind the text of a first system message, or in a system
/// message of its own in front. A system message without a text stays as it is.
pub open spec fn instructed_messages(messages: Seq<JsonView>) -> Seq<JsonView> {
    if messages.len() > 0 && messages[0].get_str("role"@) == Some("system"@) {
        match messages[0].get_str("content"@) {
            Some(text) => messages.update(
                0,
                messages[0].put("content"@, JsonView::Str(text + "\n\n"@ + MINIMAX_INSTRUCTION@)),
            ),
            None => messages,
        }
    } else {
        seq![minimax_system_message()] + messages
    }
}

/// A request after `inject_minimax_system_message`.
pub open spec fn with_minimax_hint(json: JsonView, model: Seq<char>) -> JsonView {
    match json.get_array("messages"@) {
        Some(messages) => if minimax_model(model) {
            with_messages(json, instructed_messages(messages))
        } else {
            json
        },
        None => json,
    }
}

fn minimax_message() -> (r: Json)
    ensures
        r@ == minimax_system_message(),
{
    let mut j: Json = Json::Null;
    j.put("role", Json::Str("system".to_owned()));
    j.put("content", Json::Str(MINIMAX_INSTRUCTION.to_owned()));
    j
}

/// Tells a MiniMax model the format of tool calls.
pub fn inject_minimax_system_message(json: &mut Json, model_id: &str)
    ensures
        final(json)@ == with_minimax_hint(old(json)@, model_id@),
{
    if !is_minimax_model(model_id) {
        return;
    }
    let ghost before = json@;
    match json.take_array("messages") {
        Some(messages) => {
            let mut messages: Vec<Json> = messages;
            let ghost models = items_view(messages@);
            let has_system: bool = messages.len() > 0 && has_role(&messages[0], "system");
            if has_system {
                let text: Option<String> = match messages[0].get_str("content") {
                    Some(s) => {
                        let mut t: String = s.to_owned();
                        t.append("\n\n");
                        t.append(MINIMAX_INSTRUCTION);
                        Some(t)
                    },
                    None => None,
                };
                match text {
                    Some(t) => {
                        let mut first: Json = messages.remove(0);
                        first.put("content", Json::Str(t));
                        messages.insert(0, first);
                        assert(items_view(messages@) =~= instructed_messages(models));
                    },
                    None => {},
                }
            } else {
                messages.insert(0, minimax_message());
                assert(items_view(messages@) =~= instructed_messages(models));
            }
            let ghost done = JsonView::Arr(items_view(messages@));
            json.put("messages", Json::Arr(messages));
            proof {
                lemma_put_back(before, "messages"@, done);
            }
        },
        None => {},
    }
}

} // verus!
