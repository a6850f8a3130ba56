//! What holds of the remarks on the ids of tool calls.

use vstd::prelude::*;

use crate::json::JsonView;
use crate::mistral::{
    body_remarks, conversation_remarks, distinct, ids_answered, ids_called, ids_called_by,
    ids_of_calls, ids_outside, malformed_remarks, mistral_remarks, tool_answered,
    unanswered_remarks, unasked_remarks, well_formed_ids, IdRemark,
};
use crate::text::{has_text, is_alphanumeric};
use crate::wire::json_parse;

verus! {

/// Whether a tool call has an id.
pub open spec fn call_has_id(call: JsonView, id: Seq<char>) -> bool {
    call.get("id"@) == Some(JsonView::Str(id))
}

/// Whether a message of the assistant calls a tool under an id.
pub open spec fn calls_under(msg: JsonView, id: Seq<char>) -> bool {
    &&& msg.get("role"@) == Some(JsonView::Str("assistant"@))
    &&& msg.get("tool_calls"@) matches Some(JsonView::Arr(calls)) && exists|k: int|
        0 <= k < calls.len() && call_has_id(#[trigger] calls[k], id)
}

/// Whether a message is a tool's answer to a call with an id.
pub open spec fn answers_under(msg: JsonView, id: Seq<char>) -> bool {
    &&& msg.get("role"@) == Some(JsonView::Str("tool"@))
    &&& msg.get("tool_call_id"@) == Some(JsonView::Str(id))
}

/// Whether a conversation calls a tool under an id.
pub open spec fn called_under(messages: Seq<JsonView>, id: Seq<char>) -> bool {
    exists|i: int| 0 <= i < messages.len() && calls_under(#[trigger] messages[i], id)
}

/// Whether a tool answers a call with an id in a conversation.
pub open spec fn answered_under(messages: Seq<JsonView>, id: Seq<char>) -> bool {
    exists|i: int| 0 <= i < messages.len() && answers_under(#[trigger] messages[i], id)
}

/// Whether an id is made of nine letters or digits.
pub open spec fn nine_letters_or_digits(id: Seq<char>) -> bool {
    id.len() == 9 && forall|i: int| 0 <= i < id.len() ==> is_alphanumeric(#[trigger] id[i])
}

/// Whether some message of a conversation is a tool's.
pub open spec fn some_tool_speaks(messages: Seq<JsonView>) -> bool {
    exists|i: int|
        0 <= i < messages.len() && (#[trigger] messages[i]).get("role"@) == Some(
            JsonView::Str("tool"@),
        )
}

proof fn lemma_last_in<A>(list: Seq<A>, x: A)
    requires
        list.len() > 0,
    ensures
        list.contains(x) <==> list.drop_last().contains(x) || list.last() == x,
{
    let rest = list.drop_last();
    if list.contains(x) {
        let k = choose|k: int| 0 <= k < list.len() && list[k] == x;
        if k < rest.len() {
            assert(rest[k] == x);
        }
    }
    if rest.contains(x) {
        let k = choose|k: int| 0 <= k < rest.len() && rest[k] == x;
        assert(list[k] == x);
    }
    if list.last() == x {
        assert(list[list.len() - 1] == x);
    }
}

proof fn lemma_in_sum<A>(a: Seq<A>, b: Seq<A>, x: A)
    ensures
        (a + b).contains(x) <==> a.contains(x) || b.contains(x),
{
    if (a + b).contains(x) {
        let k = choose|k: int| 0 <= k < (a + b).len() && (a + b)[k] == x;
        if k < a.len() {
            assert(a[k] == x);
        } else {
            assert(b[k - a.len()] == x);
        }
    }
    if a.contains(x) {
        let k = choose|k: int| 0 <= k < a.len() && a[k] == x;
        assert((a + b)[k] == x);
    }
    if b.contains(x) {
        let k = choose|k: int| 0 <= k < b.len() && b[k] == x;
        assert((a + b)[a.len() + k] == x);
    }
}

proof fn lemma_ids_of_calls(calls: Seq<JsonView>, id: Seq<char>)
    ensures
        ids_of_calls(calls).contains(id) <==> exists|k: int|
            0 <= k < calls.len() && call_has_id(#[trigger] calls[k], id),
    decreases calls.len(),
{
    if calls.len() > 0 {
        let rest = calls.drop_last();
        let n = calls.len() - 1;
        lemma_ids_of_calls(rest, id);
        assert(calls[n] == calls.last());
        let ids = ids_of_calls(calls);
        if calls.last().get_str("id"@) is Some {
            assert(ids.drop_last() =~= ids_of_calls(rest));
            lemma_last_in(ids, id);
        }
        if ids_of_calls(rest).contains(id) {
            let k = choose|k: int| 0 <= k < rest.len() && call_has_id(#[trigger] rest[k], id);
            assert(call_has_id(calls[k], id));
        }
        if exists|k: int| 0 <= k < calls.len() && call_has_id(#[trigger] calls[k], id) {
            let k = choose|k: int| 0 <= k < calls.len() && call_has_id(#[trigger] calls[k], id);
            if k < n {
                assert(call_has_id(rest[k], id));
            }
        }
    }
}

proof fn lemma_ids_called(messages: Seq<JsonView>, id: Seq<char>)
    ensures
        ids_called(messages).contains(id) <==> called_under(messages, id),
        ids_answered(messages).contains(id) <==> answered_under(messages, id),
    decreases messages.len(),
{
    if messages.len() > 0 {
        let rest = messages.drop_last();
        let last = messages.last();
        let n = messages.len() - 1;
        lemma_ids_called(rest, id);
        assert(messages[n] == last);
        lemma_in_sum(ids_called(rest), ids_called_by(last), id);
        if last.get("role"@) == Some(JsonView::Str("assistant"@)) {
            if let Some(JsonView::Arr(calls)) = last.get("tool_calls"@) {
                lemma_ids_of_calls(calls, id);
            }
        }
        assert(ids_called_by(last).contains(id) <==> calls_under(last, id));
        let ids = ids_answered(messages);
        if ids.len() > ids_answered(rest).len() {
            assert(ids.drop_last() =~= ids_answered(rest));
            lemma_last_in(ids, id);
        }
        if called_under(rest, id) {
            let i = choose|i: int| 0 <= i < rest.len() && calls_under(#[trigger] rest[i], id);
            assert(calls_under(messages[i], id));
        }
        if called_under(messages, id) {
            let i = choose|i: int|
                0 <= i < messages.len() && calls_under(#[trigger] messages[i], id);
            if i < n {
                assert(calls_under(rest[i], id));
            }
        }
        if answered_under(rest, id) {
            let i = choose|i: int| 0 <= i < rest.len() && answers_under(#[trigger] rest[i], id);
            assert(answers_under(messages[i], id));
        }
        if answered_under(messages, id) {
            let i = choose|i: int|
                0 <= i < messages.len() && answers_under(#[trigger] messages[i], id);
            if i < n {
                assert(answers_under(rest[i], id));
            }
        }
    }
}

proof fn lemma_id_lists(ids: Seq<Seq<char>>, others: Seq<Seq<char>>, id: Seq<char>)
    ensures
        distinct(ids).contains(id) <==> ids.contains(id),
        well_formed_ids(ids).contains(id) <==> ids.contains(id) && nine_letters_or_digits(id),
        malformed_remarks(ids).contains(IdRemark::Malformed(id)) <==> ids.contains(id)
            && !nine_letters_or_digits(id),
        ids_outside(ids, others).contains(id) <==> ids.contains(id) && !others.contains(id),
        forall|i: int|
            0 <= i < malformed_remarks(ids).len() ==> (#[trigger] malformed_remarks(ids)[i]) is Malformed,
    decreases ids.len(),
{
    if ids.len() > 0 {
        let rest = ids.drop_last();
        lemma_id_lists(rest, others, id);
        lemma_last_in(ids, id);
        let d = distinct(ids);
        if d.len() > distinct(rest).len() {
            assert(d.drop_last() =~= distinct(rest));
            lemma_last_in(d, id);
        }
        lemma_id_lists(rest, others, ids.last());
        let w = well_formed_ids(ids);
        if w.len() > well_formed_ids(rest).len() {
            assert(w.drop_last() =~= well_formed_ids(rest));
            lemma_last_in(w, id);
        }
        let m = malformed_remarks(ids);
        if m.len() > malformed_remarks(rest).len() {
            assert(m.drop_last() =~= malformed_remarks(rest));
            lemma_last_in(m, IdRemark::Malformed(id));
        }
        assert forall|i: int| 0 <= i < m.len() implies (#[trigger] m[i]) is Malformed by {
            if i < malformed_remarks(rest).len() {
                assert(m[i] == malformed_remarks(rest)[i]);
            }
        }
        let o = ids_outside(ids, others);
        if o.len() > ids_outside(rest, others).len() {
            assert(o.drop_last() =~= ids_outside(rest, others));
            lemma_last_in(o, id);
        }
    }
}

/// An id that the assistant calls a tool under leads to a remark exactly where it is not made of
/// nine letters or digits. Where a tool speaks, a good id that no tool answers leads to one, and
/// so does an answer to no call with a good id. Nothing else does.
pub proof fn law_remarks_tell_of_doubtful_ids(messages: Seq<JsonView>, id: Seq<char>)
    ensures
        ({
            let remarks = conversation_remarks(messages);
            let called = called_under(messages, id);
            let good = nine_letters_or_digits(id);
            let answered = answered_under(messages, id);
            &&& remarks.contains(IdRemark::Malformed(id)) <==> called && !good
            &&& remarks.contains(IdRemark::Unanswered(id)) <==> some_tool_speaks(messages) && called
                && good && !answered
            &&& remarks.contains(IdRemark::Unasked(id)) <==> answered && !(called && good)
        }),
{
    let ids = ids_called(messages);
    let calls = distinct(well_formed_ids(ids));
    let answers = distinct(ids_answered(messages));
    lemma_ids_called(messages, id);
    lemma_id_lists(ids, Seq::empty(), id);
    lemma_id_lists(well_formed_ids(ids), Seq::empty(), id);
    lemma_id_lists(ids_answered(messages), Seq::empty(), id);
    lemma_id_lists(calls, answers, id);
    lemma_id_lists(answers, calls, id);
    let a = malformed_remarks(ids);
    let lonely = ids_outside(calls, answers);
    let strange = ids_outside(answers, calls);
    let b = unanswered_remarks(lonely);
    let c = unasked_remarks(strange);
    let x = IdRemark::Malformed(id);
    let y = IdRemark::Unanswered(id);
    let z = IdRemark::Unasked(id);
    assert(tool_answered(messages) == some_tool_speaks(messages)) by {
        if tool_answered(messages) {
            let i = choose|i: int|
                0 <= i < messages.len() && (#[trigger] messages[i]).get_str("role"@) == Some(
                    "tool"@,
                );
            assert(messages[i].get("role"@) == Some(JsonView::Str("tool"@)));
        }
        if some_tool_speaks(messages) {
            let i = choose|i: int|
                0 <= i < messages.len() && (#[trigger] messages[i]).get("role"@) == Some(
                    JsonView::Str("tool"@),
                );
            assert(messages[i].get_str("role"@) == Some("tool"@));
        }
    }
    assert(answered_under(messages, id) ==> some_tool_speaks(messages)) by {
        if answered_under(messages, id) {
            let i = choose|i: int|
                0 <= i < messages.len() && answers_under(#[trigger] messages[i], id);
            assert(messages[i].get("role"@) == Some(JsonView::Str("tool"@)));
        }
    }
    lemma_in_sum(a + b, c, x);
    lemma_in_sum(a, b, x);
    lemma_in_sum(a + b, c, y);
    lemma_in_sum(a, b, y);
    lemma_in_sum(a + b, c, z);
    lemma_in_sum(a, b, z);
    if lonely.contains(id) {
        let k = choose|k: int| 0 <= k < lonely.len() && lonely[k] == id;
        assert(b[k] == y);
    }
    if b.contains(y) {
        let k = choose|k: int| 0 <= k < b.len() && b[k] == y;
        assert(lonely[k] == id);
    }
    if strange.contains(id) {
        let k = choose|k: int| 0 <= k < strange.len() && strange[k] == id;
        assert(c[k] == z);
    }
    if c.contains(z) {
        let k = choose|k: int| 0 <= k < c.len() && c[k] == z;
        assert(strange[k] == id);
    }
}

/// Remarks are made on requests for Mistral's models only, and on what their messages hold.
pub proof fn law_remarks_are_for_mistral(
    json: JsonView,
    messages: Seq<JsonView>,
    model: Seq<char>,
    body: Seq<u8>,
)
    ensures
        !has_text(model, "mistral"@) && !has_text(model, "devstral"@) ==> mistral_remarks(
            json,
            model,
        ).len() == 0,
        (has_text(model, "mistral"@) || has_text(model, "devstral"@)) && json.get("messages"@)
            == Some(JsonView::Arr(messages)) ==> mistral_remarks(json, model)
            == conversation_remarks(messages),
        json_parse(body) is None ==> body_remarks(body, model).len() == 0,
        json_parse(body) == Some(json) ==> body_remarks(body, model) == mistral_remarks(json, model),
{
}

} // verus!
