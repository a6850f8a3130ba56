//! What a Mistral model may not like about the ids of tool calls.

use vstd::prelude::*;
use vstd::string::*;

use crate::json::{items_view, Json, JsonView};
use crate::messages::has_role;
use crate::model_id::{is_mistral_model, mistral_model};
use crate::table::{has_name, names};
use crate::text::{all_alphanumeric, is_alphanumeric};
use crate::wire::{json_parse, parse_json};

verus! {

/// A remark on the id of a tool call. No remark makes a request invalid.
pub enum IdRemark<S> {
    /// The id of a call does not consist of nine alphanumeric characters.
    Malformed(S),
    /// No tool answered the call.
    Unanswered(S),
    /// A tool's answer belongs to no call.
    Unasked(S),
}

/// The model of a remark.
pub open spec fn remark_view(w: IdRemark<String>) -> IdRemark<Seq<char>> {
    match w {
        IdRemark::Malformed(s) => IdRemark::Malformed(s@),
        IdRemark::Unanswered(s) => IdRemark::Unanswered(s@),
        IdRemark::Unasked(s) => IdRemark::Unasked(s@),
    }
}

/// The models of remarks.
pub open spec fn remarks_view(ws: Seq<IdRemark<String>>) -> Seq<IdRemark<Seq<char>>> {
    ws.map_values(|w: IdRemark<String>| remark_view(w))
}

/// The length of an id that a Mistral model takes.
pub const MISTRAL_ID_LENGTH: usize = 9;

/// Whether an id is one that a Mistral model takes: nine alphanumeric characters.
pub open spec fn well_formed_id(id: Seq<char>) -> bool {
    id.len() == MISTRAL_ID_LENGTH && forall|i: int|
        0 <= i < id.len() ==> is_alphanumeric(#[trigger] id[i])
}

/// The ids of tool calls, in order.
pub open spec fn ids_of_calls(calls: Seq<JsonView>) -> Seq<Seq<char>>
    decreases calls.len(),
{
    if calls.len() == 0 {
        Seq::empty()
    } else {
        let before = ids_of_calls(calls.drop_last());
        match calls.last().get_str("id"@) {
            Some(id) => before.push(id),
            None => before,
        }
    }
}

/// The ids of the tool calls that a message makes; only the assistant makes any.
pub open spec fn ids_called_by(msg: JsonView) -> Seq<Seq<char>> {
    if msg.get_str("role"@) == Some("assistant"@) {
        match msg.get_array("tool_calls"@) {
            Some(calls) => ids_of_calls(calls),
            None => Seq::empty(),
        }
    } else {
        Seq::empty()
    }
}

/// The ids of all tool calls of a conversation, in order.
pub open spec fn ids_called(messages: Seq<JsonView>) -> Seq<Seq<char>>
    decreases messages.len(),
{
    if messages.len() == 0 {
        Seq::empty()
    } else {
        ids_called(messages.drop_last()) + ids_called_by(messages.last())
    }
}

/// The ids that the tools' answers of a conversation name, in order.
pub open spec fn ids_answered(messages: Seq<JsonView>) -> Seq<Seq<char>>
    decreases messages.len(),
{
    if messages.len() == 0 {
        Seq::empty()
    } else {
        let before = ids_answered(messages.drop_last());
        if messages.last().get_str("role"@) == Some("tool"@) {
            match messages.last().get_str("tool_call_id"@) {
                Some(id) => before.push(id),
                None => before,
            }
        } else {
            before
        }
    }
}

/// Whether a tool answered in the conversation.
pub open spec fn tool_answered(messages: Seq<JsonView>) -> bool {
    exists|i: int|
        0 <= i < messages.len() && (#[trigger] messages[i]).get_str("role"@) == Some("tool"@)
}

/// The first occurrence of every id.
pub open spec fn distinct(ids: Seq<Seq<char>>) -> Seq<Seq<char>>
    decreases ids.len(),
{
    if ids.len() == 0 {
        Seq::empty()
    } else {
        let before = distinct(ids.drop_last());
        if before.contains(ids.last()) {
            before
        } else {
            before.push(ids.last())
        }
    }
}

/// The well-formed ids among `ids`.
pub open spec fn well_formed_ids(ids: Seq<Seq<char>>) -> Seq<Seq<char>>
    decreases ids.len(),
{
    if ids.len() == 0 {
        Seq::empty()
    } else {
        let before = well_formed_ids(ids.drop_last());
        if well_formed_id(ids.last()) {
            before.push(ids.last())
        } else {
            before
        }
    }
}

/// A remark for every id that is not well-formed.
pub open spec fn malformed_remarks(ids: Seq<Seq<char>>) -> Seq<IdRemark<Seq<char>>>
    decreases ids.len(),
{
    if ids.len() == 0 {
        Seq::empty()
    } else {
        let before = malformed_remarks(ids.drop_last());
        if well_formed_id(ids.last()) {
            before
        } else {
            before.push(IdRemark::Malformed(ids.last()))
        }
    }
}

/// The ids that are not among `others`.
pub open spec fn ids_outside(ids: Seq<Seq<char>>, others: Seq<Seq<char>>) -> Seq<Seq<char>>
    decreases ids.len(),
{
    if ids.len() == 0 {
        Seq::empty()
    } else {
        let before = ids_outside(ids.drop_last(), others);
        if others.contains(ids.last()) {
            before
        } else {
            before.push(ids.last())
        }
    }
}

/// The remarks on the calls that no tool answered.
pub open spec fn unanswered_remarks(ids: Seq<Seq<char>>) -> Seq<IdRemark<Seq<char>>> {
    ids.map_values(|id: Seq<char>| IdRemark::Unanswered(id))
}

/// The remarks on the answers that belong to no call.
pub open spec fn unasked_remarks(ids: Seq<Seq<char>>) -> Seq<IdRemark<Seq<char>>> {
    ids.map_values(|id: Seq<char>| IdRemark::Unasked(id))
}

/// The remarks on a conversation: the malformed ids; then, where a tool answered, every
/// well-formed call without an answer, once, and every answer without a well-formed call,
/// once.
pub open spec fn conversation_remarks(messages: Seq<JsonView>) -> Seq<IdRemark<Seq<char>>> {
    let called = ids_called(messages);
    let calls = distinct(well_formed_ids(called));
    let answers = distinct(ids_answered(messages));
    if tool_answered(messages) {
        malformed_remarks(called) + unanswered_remarks(ids_outside(calls, answers))
            + unasked_remarks(ids_outside(answers, calls))
    } else {
        malformed_remarks(called)
    }
}

/// The remarks on a request for a model.
pub open spec fn mistral_remarks(json: JsonView, model: Seq<char>) -> Seq<IdRemark<Seq<char>>> {
    match json.get_array("messages"@) {
        Some(messages) => if mistral_model(model) {
            conversation_remarks(messages)
        } else {
            Seq::empty()
        },
        None => Seq::empty(),
    }
}

fn ids_not_in(ids: &Vec<String>, others: &Vec<String>) -> (r: Vec<String>)
    ensures
        names(r@) == ids_outside(names(ids@), names(others@)),
{
    let ghost v = names(ids@);
    let ghost o = names(others@);
    let mut out: Vec<String> = Vec::new();
    let mut i: usize = 0;
    assert(v.take(0) =~= Seq::empty());
    assert(names(out@) =~= Seq::empty());
    while i < ids.len()
        invariant
            v == names(ids@),
            o == names(others@),
            i <= ids@.len(),
            names(out@) == ids_outside(v.take(i as int), o),
        decreases ids@.len() - i,
    {
        assert(v.take(i + 1).drop_last() =~= v.take(i as int));
        let ghost done = out@;
        if !has_name(others, ids[i].as_str()) {
            out.push(ids[i].clone());
            assert(names(out@) =~= names(done).push(v[i as int]));
        }
        i = i + 1;
    }
    assert(v.take(v.len() as int) =~= v);
    out
}

/// The ids of a conversation that a pass over its messages collects.
struct IdCensus {
    remarks: Vec<IdRemark<String>>,
    calls: Vec<String>,
    answers: Vec<String>,
    answered: bool,
}

impl IdCensus {
    spec fn holds(self, called: Seq<Seq<char>>) -> bool {
        &&& remarks_view(self.remarks@) == malformed_remarks(called)
        &&& names(self.calls@) == distinct(well_formed_ids(called))
    }

    fn count_call(&mut self, id: &str, called: Ghost<Seq<Seq<char>>>)
        requires
            old(self).holds(called@),
        ensures
            final(self).holds(called@.push(id@)),
            final(self).answers == old(self).answers,
            final(self).answered == old(self).answered,
    {
        proof {
            assert(called@.push(id@).drop_last() =~= called@);
        }
        if id.unicode_len() != MISTRAL_ID_LENGTH || !all_alphanumeric(id) {
            let ghost before = self.remarks@;
            self.remarks.push(IdRemark::Malformed(id.to_owned()));
            assert(remarks_view(self.remarks@) =~= remarks_view(before).push(
                IdRemark::Malformed(id@),
            ));
        } else {
            let ghost w = well_formed_ids(called@);
            assert(w.push(id@).drop_last() =~= w);
            if !has_name(&self.calls, id) {
                let ghost before = self.calls@;
                self.calls.push(id.to_owned());
                assert(names(self.calls@) =~= names(before).push(id@));
            }
        }
    }

    fn count_calls(&mut self, calls: &Vec<Json>, called: Ghost<Seq<Seq<char>>>)
        requires
            old(self).holds(called@),
        ensures
            final(self).holds(called@ + ids_of_calls(items_view(calls@))),
            final(self).answers == old(self).answers,
            final(self).answered == old(self).answered,
    {
        let ghost models = items_view(calls@);
        let mut i: usize = 0;
        proof {
            assert(models.take(0) =~= Seq::empty());
            assert(called@ + Seq::<Seq<char>>::empty() =~= called@);
        }
        while i < calls.len()
            invariant
                models == items_view(calls@),
                i <= calls@.len(),
                self.holds(called@ + ids_of_calls(models.take(i as int))),
                self.answers == old(self).answers,
                self.answered == old(self).answered,
            decreases calls@.len() - i,
        {
            let ghost so_far = called@ + ids_of_calls(models.take(i as int));
            assert(models.take(i + 1).drop_last() =~= models.take(i as int));
            match calls[i].get_str("id") {
                Some(id) => {
                    self.count_call(id, Ghost(so_far));
                    assert(so_far.push(id@) =~= called@ + ids_of_calls(
                        models.take(i as int),
                    ).push(id@));
                },
                None => {},
            }
            i = i + 1;
        }
        assert(models.take(models.len() as int) =~= models);
    }
}

fn take_census(messages: &Vec<Json>) -> (r: IdCensus)
    ensures
        r.holds(ids_called(items_view(messages@))),
        names(r.answers@) == distinct(ids_answered(items_view(messages@))),
        r.answered == tool_answered(items_view(messages@)),
{
    let ghost models = items_view(messages@);
    let mut census: IdCensus = IdCensus {
        remarks: Vec::new(),
        calls: Vec::new(),
        answers: Vec::new(),
        answered: false,
    };
    let mut i: usize = 0;
    proof {
        assert(models.take(0) =~= Seq::empty());
        assert(remarks_view(census.remarks@) =~= Seq::empty());
        assert(names(census.calls@) =~= Seq::empty());
        assert(names(census.answers@) =~= Seq::empty());
    }
    while i < messages.len()
        invariant
            models == items_view(messages@),
            i <= messages@.len(),
            census.holds(ids_called(models.take(i as int))),
            names(census.answers@) == distinct(ids_answered(models.take(i as int))),
            census.answered == tool_answered(models.take(i as int)),
        decreases messages@.len() - i,
    {
        let ghost prefix = models.take(i as int);
        let ghost longer = models.take(i + 1);
        let msg: &Json = &messages[i];
        proof {
            assert(longer.drop_last() =~= prefix);
            assert(longer.last() == msg@);
            assert(ids_called(prefix) + Seq::<Seq<char>>::empty() =~= ids_called(prefix));
            assert(tool_answered(longer) == (tool_answered(prefix) || msg@.get_str("role"@)
                == Some("tool"@))) by {
                if tool_answered(prefix) {
                    let k = choose|k: int|
                        0 <= k < prefix.len() && (#[trigger] prefix[k]).get_str("role"@) == Some(
                            "tool"@,
                        );
                    assert(longer[k].get_str("role"@) == Some("tool"@));
                }
                if msg@.get_str("role"@) == Some("tool"@) {
                    assert(longer[i as int].get_str("role"@) == Some("tool"@));
                }
                if tool_answered(longer) {
                    let k = choose|k: int|
                        0 <= k < longer.len() && (#[trigger] longer[k]).get_str("role"@) == Some(
                            "tool"@,
                        );
                    if k < i {
                        assert(prefix[k].get_str("role"@) == Some("tool"@));
                    }
                }
            }
            reveal_strlit("assistant");
            reveal_strlit("tool");
            assert("assistant"@.len() != "tool"@.len());
        }
        if has_role(msg, "assistant") {
            match msg.get_array("tool_calls") {
                Some(calls) => {
                    census.count_calls(calls, Ghost(ids_called(prefix)));
                },
                None => {},
            }
        } else if has_role(msg, "tool") {
            census.answered = true;
            match msg.get_str("tool_call_id") {
                Some(id) => {
                    let ghost answers = ids_answered(prefix);
                    assert(answers.push(id@).drop_last() =~= answers);
                    if !has_name(&census.answers, id) {
                        let ghost before = census.answers@;
                        census.answers.push(id.to_owned());
                        assert(names(census.answers@) =~= names(before).push(id@));
                    }
                },
                None => {},
            }
        }
        i = i + 1;
    }
    assert(models.take(models.len() as int) =~= models);
    census
}

fn add_remarks(remarks: &mut Vec<IdRemark<String>>, ids: Vec<String>, unasked: bool)
    ensures
        remarks_view(final(remarks)@) == remarks_view(old(remarks)@) + (if unasked {
            unasked_remarks(names(ids@))
        } else {
            unanswered_remarks(names(ids@))
        }),
{
    let ghost v = names(ids@);
    let ghost added = if unasked {
        unasked_remarks(v)
    } else {
        unanswered_remarks(v)
    };
    let ghost start = remarks_view(remarks@);
    let mut i: usize = 0;
    assert(start + added.take(0) =~= start);
    while i < ids.len()
        invariant
            v == names(ids@),
            added == (if unasked {
                unasked_remarks(v)
            } else {
                unanswered_remarks(v)
            }),
            i <= ids@.len(),
            remarks_view(remarks@) == start + added.take(i as int),
        decreases ids@.len() - i,
    {
        let ghost before = remarks@;
        let id: String = ids[i].clone();
        if unasked {
            remarks.push(IdRemark::Unasked(id));
        } else {
            remarks.push(IdRemark::Unanswered(id));
        }
        proof {
            assert(remarks_view(remarks@) =~= remarks_view(before).push(added[i as int]));
            assert(start + added.take(i + 1) =~= (start + added.take(i as int)).push(
                added[i as int],
            ));
        }
        i = i + 1;
    }
    assert(added.take(added.len() as int) =~= added);
}

/// Looks at the ids of the tool calls in a request for a Mistral model. A doubtful id leads
/// to a remark, never to a rejection: the result is always `Ok`.
pub fn validate_mistral_tool_call_ids(json: &Json, model_id: &str) -> (r: Result<
    Vec<IdRemark<String>>,
    (u16, String),
>)
    ensures
        r is Ok,
        remarks_view(r->Ok_0@) == mistral_remarks(json@, model_id@),
{
    if is_mistral_model(model_id) {
        match json.get_array("messages") {
            Some(messages) => {
                let census: IdCensus = take_census(messages);
                let mut remarks: Vec<IdRemark<String>> = census.remarks;
                if census.answered {
                    let unanswered: Vec<String> = ids_not_in(&census.calls, &census.answers);
                    let unasked: Vec<String> = ids_not_in(&census.answers, &census.calls);
                    add_remarks(&mut remarks, unanswered, false);
                    add_remarks(&mut remarks, unasked, true);
                }
                return Ok(remarks);
            },
            None => {},
        }
    }
    let none: Vec<IdRemark<String>> = Vec::new();
    assert(remarks_view(none@) =~= Seq::empty());
    Ok(none)
}

/// The remarks on the text of a request for a model; none where the text is not JSON.
pub open spec fn body_remarks(body: Seq<u8>, model: Seq<char>) -> Seq<IdRemark<Seq<char>>> {
    match json_parse(body) {
        Some(json) => mistral_remarks(json, model),
        None => Seq::empty(),
    }
}

/// The rejection that the ids of tool calls lead to, which is none, and the remarks.
pub fn mistral_validation_error(model_id: &str, body: &[u8]) -> (r: (
    Option<(u16, String)>,
    Vec<IdRemark<String>>,
))
    ensures
        r.0 is None,
        remarks_view(r.1@) == body_remarks(body@, model_id@),
{
    let none: Vec<IdRemark<String>> = Vec::new();
    assert(remarks_view(none@) =~= Seq::empty());
    match parse_json(body) {
        Some(json) => match validate_mistral_tool_call_ids(&json, model_id) {
            Ok(remarks) => (None, remarks),
            Err(rejection) => (Some(rejection), none),
        },
        None => (None, none),
    }
}

} // verus!
