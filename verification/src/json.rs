//! JSON values, their mathematical model, and the operations that the gateway makes on them.

use vstd::prelude::*;

use crate::text::str_eq;

verus! {

/// Declares `serde_json::Number`, which carries floating point numbers through unread.
#[verifier::external_type_specification]
#[verifier::external_body]
pub struct ExNumber(serde_json::Number);

/// A JSON number that is not an integer. Only the conversion from `serde_json` makes one.
pub struct FloatNumber {
    pub(crate) number: serde_json::Number,
}

/// A JSON number.
pub enum Num {
    Unsigned(u64),
    Negative(i64),
    Float(FloatNumber),
}

/// A JSON value. Where an object holds a key twice, the later member counts.
pub enum Json {
    Null,
    Bool(bool),
    Number(Num),
    Str(String),
    Arr(Vec<Json>),
    Obj(Vec<(String, Json)>),
}

/// What a JSON value is: an array is a sequence, an object is a map.
pub enum JsonView {
    Null,
    Bool(bool),
    Number(Num),
    Str(Seq<char>),
    Arr(Seq<JsonView>),
    Obj(Map<Seq<char>, JsonView>),
}

/// A number with a single form: only numbers below zero are `Negative`.
pub open spec fn num_view(n: Num) -> Num {
    match n {
        Num::Negative(i) => if i >= 0 {
            Num::Unsigned(i as u64)
        } else {
            n
        },
        _ => n,
    }
}

/// The model of a value.
pub open spec fn json_view(j: Json) -> JsonView
    decreases j,
{
    match j {
        Json::Null => JsonView::Null,
        Json::Bool(b) => JsonView::Bool(b),
        Json::Number(n) => JsonView::Number(num_view(n)),
        Json::Str(s) => JsonView::Str(s@),
        Json::Arr(items) => JsonView::Arr(items_view(items@)),
        Json::Obj(members) => JsonView::Obj(members_view(members@)),
    }
}

/// The models of the items of an array.
pub open spec fn items_view(items: Seq<Json>) -> Seq<JsonView>
    decreases items,
{
    Seq::new(
        items.len(),
        |i: int|
            if 0 <= i < items.len() {
                json_view(items[i])
            } else {
                JsonView::Null
            },
    )
}

/// The map that a list of members stands for: a later member replaces an earlier one.
pub open spec fn members_view(members: Seq<(String, Json)>) -> Map<Seq<char>, JsonView>
    decreases members,
{
    if members.len() == 0 {
        Map::empty()
    } else {
        members_view(members.drop_last()).insert(members.last().0@, json_view(members.last().1))
    }
}

impl View for Json {
    type V = JsonView;

    open spec fn view(&self) -> JsonView {
        json_view(*self)
    }
}

impl JsonView {
    /// The member `key`, where the value is an object that has it.
    pub open spec fn get(self, key: Seq<char>) -> Option<JsonView> {
        match self {
            JsonView::Obj(m) => if m.dom().contains(key) {
                Some(m[key])
            } else {
                None
            },
            _ => None,
        }
    }

    /// The characters, where the value is a string.
    pub open spec fn as_str(self) -> Option<Seq<char>> {
        match self {
            JsonView::Str(s) => Some(s),
            _ => None,
        }
    }

    /// The items, where the value is an array.
    pub open spec fn as_array(self) -> Option<Seq<JsonView>> {
        match self {
            JsonView::Arr(items) => Some(items),
            _ => None,
        }
    }

    /// The truth value, where the value is one.
    pub open spec fn as_bool(self) -> Option<bool> {
        match self {
            JsonView::Bool(b) => Some(b),
            _ => None,
        }
    }

    /// The number, where the value is a natural number.
    pub open spec fn as_u64(self) -> Option<u64> {
        match self {
            JsonView::Number(Num::Unsigned(n)) => Some(n),
            _ => None,
        }
    }

    /// The string in member `key`.
    pub open spec fn get_str(self, key: Seq<char>) -> Option<Seq<char>> {
        match self.get(key) {
            Some(v) => v.as_str(),
            None => None,
        }
    }

    /// The items of the array in member `key`.
    pub open spec fn get_array(self, key: Seq<char>) -> Option<Seq<JsonView>> {
        match self.get(key) {
            Some(v) => v.as_array(),
            None => None,
        }
    }

    /// Whether a member can be assigned by key: the value is an object, or null, which
    /// becomes one.
    pub open spec fn assignable(self) -> bool {
        self is Obj || self is Null
    }

    /// The value after member `key` was assigned.
    pub open spec fn put(self, key: Seq<char>, value: JsonView) -> JsonView {
        match self {
            JsonView::Obj(m) => JsonView::Obj(m.insert(key, value)),
            JsonView::Null => JsonView::Obj(Map::empty().insert(key, value)),
            _ => self,
        }
    }

    /// The value after member `key` was removed, if there was one.
    pub open spec fn without(self, key: Seq<char>) -> JsonView {
        match self {
            JsonView::Obj(m) => JsonView::Obj(m.remove(key)),
            _ => self,
        }
    }
}

proof fn lemma_member_found(members: Seq<(String, Json)>, i: int, key: Seq<char>)
    requires
        0 <= i < members.len(),
        members[i].0@ == key,
        forall|j: int| i < j < members.len() ==> (#[trigger] members[j]).0@ != key,
    ensures
        members_view(members).dom().contains(key),
        members_view(members)[key] == json_view(members[i].1),
    decreases members.len(),
{
    if i < members.len() - 1 {
        lemma_member_found(members.drop_last(), i, key);
        assert(members[members.len() - 1].0@ != key);
    }
}

proof fn lemma_member_absent(members: Seq<(String, Json)>, key: Seq<char>)
    requires
        forall|j: int| 0 <= j < members.len() ==> (#[trigger] members[j]).0@ != key,
    ensures
        !members_view(members).dom().contains(key),
    decreases members.len(),
{
    if members.len() > 0 {
        lemma_member_absent(members.drop_last(), key);
        assert(members[members.len() - 1].0@ != key);
    }
}

proof fn lemma_member_removed(members: Seq<(String, Json)>, i: int, key: Seq<char>)
    requires
        0 <= i < members.len(),
        members[i].0@ == key,
    ensures
        members_view(members.remove(i)).remove(key) == members_view(members).remove(key),
    decreases members.len(),
{
    let rest = members.remove(i);
    if i < members.len() - 1 {
        lemma_member_removed(members.drop_last(), i, key);
        assert(rest.drop_last() =~= members.drop_last().remove(i));
        assert(rest.last() == members.last());
        let a = members_view(rest.drop_last());
        let b = members_view(members.drop_last());
        assert(a.remove(key) == b.remove(key));
        assert forall|k: Seq<char>| #![trigger a.dom().contains(k)] #![trigger b.dom().contains(k)]
            k != key implies a.dom().contains(k) == b.dom().contains(k) && (a.dom().contains(k) ==> a[k] == b[k]) by {
            assert(a.remove(key).dom().contains(k) == b.remove(key).dom().contains(k));
            if a.dom().contains(k) {
                assert(a.remove(key)[k] == b.remove(key)[k]);
            }
        }
        let (last_key, last_value) = (members.last().0@, json_view(members.last().1));
        assert(members_view(rest) == a.insert(last_key, last_value));
        assert(members_view(members) == b.insert(last_key, last_value));
        let x = members_view(rest).remove(key);
        let y = members_view(members).remove(key);
        assert(x.dom() =~= y.dom()) by {
            assert forall|k: Seq<char>| x.dom().contains(k) == y.dom().contains(k) by {
                assert(k != key ==> a.dom().contains(k) == b.dom().contains(k));
            }
        }
        assert(x =~= y);
    } else {
        assert(rest =~= members.drop_last());
        assert(members_view(rest).remove(key) =~= members_view(members).remove(key));
    }
}

/// An array keeps the models of its items when one more is added.
pub proof fn lemma_items_push(items: Seq<Json>, item: Json)
    ensures
        items_view(items.push(item)) == items_view(items).push(json_view(item)),
{
    assert(items_view(items.push(item)) =~= items_view(items).push(json_view(item)));
}

/// The position of the member that counts for `key`.
fn find_member(members: &Vec<(String, Json)>, key: &str) -> (r: Option<usize>)
    ensures
        match r {
            Some(i) => {
                &&& i < members@.len()
                &&& members@[i as int].0@ == key@
                &&& members_view(members@).dom().contains(key@)
                &&& members_view(members@)[key@] == json_view(members@[i as int].1)
            },
            None => {
                &&& !members_view(members@).dom().contains(key@)
            },
        },
{
    let mut i: usize = members.len();
    while i > 0
        invariant
            i <= members@.len(),
            forall|j: int| i <= j < members@.len() ==> (#[trigger] members@[j]).0@ != key@,
        decreases i,
    {
        i = i - 1;
        if str_eq(members[i].0.as_str(), key) {
            proof {
                lemma_member_found(members@, i as int, key@);
            }
            return Some(i);
        }
    }
    proof {
        lemma_member_absent(members@, key@);
    }
    None
}

/// Removes every member with the key, and hands out the one that counted.
fn take_member(members: &mut Vec<(String, Json)>, key: &str) -> (r: Option<Json>)
    ensures
        members_view(final(members)@) == members_view(old(members)@).remove(key@),
        match r {
            Some(v) => members_view(old(members)@).dom().contains(key@)
                && members_view(old(members)@)[key@] == v@,
            None => !members_view(old(members)@).dom().contains(key@),
        },
{
    let ghost before = members@;
    let found: Option<usize> = find_member(members, key);
    match found {
        None => {
            assert(members_view(before) =~= members_view(before).remove(key@));
            None
        },
        Some(first) => {
            proof {
                lemma_member_removed(members@, first as int, key@);
            }
            let (_, value) = members.remove(first);
            let mut next: Option<usize> = find_member(members, key);
            while next.is_some()
                invariant
                    members_view(members@).remove(key@) == members_view(before).remove(key@),
                    match next {
                        Some(i) => i < members@.len() && members@[i as int].0@ == key@,
                        None => !members_view(members@).dom().contains(key@),
                    },
                decreases members@.len(),
            {
                let i: usize = next.unwrap();
                proof {
                    lemma_member_removed(members@, i as int, key@);
                }
                members.remove(i);
                next = find_member(members, key);
            }
            assert(members_view(members@) =~= members_view(members@).remove(key@));
            Some(value)
        },
    }
}

impl Json {
    /// `Value::get` with a string key.
    pub fn get(&self, key: &str) -> (r: Option<&Json>)
        ensures
            match r {
                Some(v) => self@.get(key@) == Some(v@),
                None => self@.get(key@) is None,
            },
    {
        match self {
            Json::Obj(members) => match find_member(members, key) {
                Some(i) => Some(&members[i].1),
                None => None,
            },
            _ => None,
        }
    }

    /// `Value::as_str`.
    pub fn as_str(&self) -> (r: Option<&str>)
        ensures
            match r {
                Some(s) => self@.as_str() == Some(s@),
                None => self@.as_str() is None,
            },
    {
        match self {
            Json::Str(s) => Some(s.as_str()),
            _ => None,
        }
    }

    /// `Value::as_array`.
    pub fn as_array(&self) -> (r: Option<&Vec<Json>>)
        ensures
            match r {
                Some(items) => self@.as_array() == Some(items_view(items@)),
                None => self@.as_array() is None,
            },
    {
        match self {
            Json::Arr(items) => Some(items),
            _ => None,
        }
    }

    /// `Value::as_bool`.
    pub fn as_bool(&self) -> (r: Option<bool>)
        ensures
            r == self@.as_bool(),
    {
        match self {
            Json::Bool(b) => Some(*b),
            _ => None,
        }
    }

    /// `Value::as_u64`.
    pub fn as_u64(&self) -> (r: Option<u64>)
        ensures
            r == self@.as_u64(),
    {
        match self {
            Json::Number(Num::Unsigned(n)) => Some(*n),
            Json::Number(Num::Negative(i)) => if *i >= 0 {
                Some(*i as u64)
            } else {
                None
            },
            _ => None,
        }
    }

    /// `Value::is_null`.
    pub fn is_null(&self) -> (r: bool)
        ensures
            r == (self@ is Null),
    {
        match self {
            Json::Null => true,
            _ => false,
        }
    }

    /// `Value::is_object`.
    pub fn is_object(&self) -> (r: bool)
        ensures
            r == (self@ is Obj),
    {
        match self {
            Json::Obj(_) => true,
            _ => false,
        }
    }

    /// Whether a member can be assigned by key.
    pub fn is_assignable(&self) -> (r: bool)
        ensures
            r == self@.assignable(),
    {
        match self {
            Json::Obj(_) => true,
            Json::Null => true,
            _ => false,
        }
    }

    /// The string in member `key`.
    pub fn get_str(&self, key: &str) -> (r: Option<&str>)
        ensures
            match r {
                Some(s) => self@.get_str(key@) == Some(s@),
                None => self@.get_str(key@) is None,
            },
    {
        match self.get(key) {
            Some(v) => v.as_str(),
            None => None,
        }
    }

    /// The items of the array in member `key`.
    pub fn get_array(&self, key: &str) -> (r: Option<&Vec<Json>>)
        ensures
            match r {
                Some(items) => self@.get_array(key@) == Some(items_view(items@)),
                None => self@.get_array(key@) is None,
            },
    {
        match self.get(key) {
            Some(v) => v.as_array(),
            None => None,
        }
    }

    /// Assigns member `key`, as `value[key] = ..` does.
    pub fn put(&mut self, key: &str, value: Json)
        requires
            old(self)@.assignable(),
        ensures
            final(self)@ == old(self)@.put(key@, value@),
    {
        let ghost before = self@;
        let ghost added = value@;
        let mut taken: Json = Json::Null;
        std::mem::swap(&mut taken, self);
        let mut members: Vec<(String, Json)> = match taken {
            Json::Obj(m) => m,
            _ => Vec::new(),
        };
        let ghost start = members_view(members@);
        let _ = take_member(&mut members, key);
        let ghost cleared = members@;
        members.push((key.to_owned(), value));
        proof {
            assert(members@.drop_last() =~= cleared);
            assert(members_view(members@) =~= start.insert(key@, added));
        }
        *self = Json::Obj(members);
    }

    /// Removes member `key` and hands it out.
    pub fn take(&mut self, key: &str) -> (r: Option<Json>)
        ensures
            final(self)@ == old(self)@.without(key@),
            match r {
                Some(v) => old(self)@.get(key@) == Some(v@),
                None => old(self)@.get(key@) is None,
            },
    {
        let mut taken: Json = Json::Null;
        std::mem::swap(&mut taken, self);
        match taken {
            Json::Obj(m) => {
                let mut members: Vec<(String, Json)> = m;
                let r: Option<Json> = take_member(&mut members, key);
                *self = Json::Obj(members);
                r
            },
            other => {
                *self = other;
                None
            },
        }
    }

    /// Removes member `key`.
    pub fn remove(&mut self, key: &str)
        ensures
            final(self)@ == old(self)@.without(key@),
    {
        let _ = self.take(key);
    }

    /// Removes member `key` and hands out its items, where it is an array.
    pub fn take_array(&mut self, key: &str) -> (r: Option<Vec<Json>>)
        ensures
            match r {
                Some(items) => {
                    &&& old(self)@.get_array(key@) == Some(items_view(items@))
                    &&& final(self)@ == old(self)@.without(key@)
                    &&& final(self)@ is Obj
                },
                None => {
                    &&& old(self)@.get_array(key@) is None
                    &&& final(self)@ == old(self)@
                },
            },
    {
        if self.get_array(key).is_none() {
            return None;
        }
        match self.take(key) {
            Some(Json::Arr(items)) => Some(items),
            _ => None,
        }
    }
}

/// A member that was assigned is there, one that was removed is not, and no other member changes
/// by either.
pub proof fn law_members_are_kept(j: JsonView, key: Seq<char>, value: JsonView, other: Seq<char>)
    ensures
        j.assignable() ==> j.put(key, value).get(key) == Some(value),
        j.assignable() ==> j.put(key, value) is Obj,
        !j.assignable() ==> j.put(key, value) == j,
        other != key ==> j.put(key, value).get(other) == j.get(other),
        j.without(key).get(key) is None,
        other != key ==> j.without(key).get(other) == j.get(other),
        j.get(key) is None ==> j.without(key) == j,
        j.get(key) == Some(value) ==> j.put(key, value) == j,
{
    if let JsonView::Obj(m) = j {
        if !m.dom().contains(key) {
            assert(m.remove(key) =~= m);
        }
        if m.dom().contains(key) && m[key] == value {
            assert(m.insert(key, value) =~= m);
        }
    }
}

/// What a member holds is read as what it is: a string, a list, a truth value or a natural
/// number, and nothing else.
pub proof fn law_members_are_read_as_they_are(j: JsonView, s: Seq<char>, items: Seq<JsonView>, n: u64)
    ensures
        JsonView::Str(s).as_str() == Some(s),
        JsonView::Arr(items).as_array() == Some(items),
        JsonView::Number(Num::Unsigned(n)).as_u64() == Some(n),
        JsonView::Bool(true).as_bool() == Some(true),
        JsonView::Bool(false).as_bool() == Some(false),
        !(j is Str) ==> j.as_str() is None,
        !(j is Arr) ==> j.as_array() is None,
        !(j is Bool) ==> j.as_bool() is None,
        !(j is Number) ==> j.as_u64() is None,
        j matches JsonView::Number(Num::Negative(_)) ==> j.as_u64() is None,
        j matches JsonView::Number(Num::Float(_)) ==> j.as_u64() is None,
{
}

} // verus!
