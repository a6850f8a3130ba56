//! JSON text: reading and writing request bodies through `serde_json`.

use vstd::prelude::*;

use crate::json::{items_view, json_view, members_view, FloatNumber, Json, JsonView, Num};
use crate::table::{distinct_rows, rows, set_row};

verus! {

/// Declares `serde_json::Value`.
#[verifier::external_type_specification]
#[verifier::external_body]
pub struct ExValue(serde_json::Value);

/// Names the JSON value that a `serde_json::Value` holds.
pub uninterp spec fn value_json(v: serde_json::Value) -> JsonView;

/// Names what `serde_json::from_slice` reads from a text; `None` stands for its error.
pub uninterp spec fn json_parse(text: Seq<u8>) -> Option<JsonView>;

/// Names the compact text that `serde_json` writes for a value.
pub uninterp spec fn json_text(j: JsonView) -> Seq<u8>;

/// The number of levels that `serde_json` reads at most.
pub const MAX_DEPTH: usize = 127;

/// The key that `serde_json` keeps for itself: an object that begins with it is read as the
/// value whose text stands under it.
pub open spec fn raw_key() -> Seq<char> {
    "$serde_json::private::RawValue"@
}

/// Whether a value is nested at most `depth` levels deep, and no object in it has the key that
/// `serde_json` keeps for itself.
pub open spec fn readable(j: JsonView, depth: nat) -> bool
    decreases depth,
{
    match j {
        JsonView::Arr(items) => depth > 0 && forall|i: int|
            0 <= i < items.len() ==> readable(#[trigger] items[i], (depth - 1) as nat),
        JsonView::Obj(members) => {
            &&& depth > 0
            &&& !members.dom().contains(raw_key())
            &&& forall|k: Seq<char>|
                members.dom().contains(k) ==> readable(#[trigger] members[k], (depth - 1) as nat)
        },
        _ => true,
    }
}

/// Whether a value, down to `depth` levels, holds no floating point number.
pub open spec fn float_free(j: JsonView, depth: nat) -> bool
    decreases depth,
{
    match j {
        JsonView::Number(Num::Float(_)) => false,
        JsonView::Arr(items) => depth > 0 && forall|i: int|
            0 <= i < items.len() ==> float_free(#[trigger] items[i], (depth - 1) as nat),
        JsonView::Obj(members) => depth > 0 && forall|k: Seq<char>|
            members.dom().contains(k) ==> float_free(#[trigger] members[k], (depth - 1) as nat),
        _ => true,
    }
}

/// Whether two values that are nested at most `depth` levels deep differ at most in their
/// floating point numbers.
pub open spec fn alike(a: JsonView, b: JsonView, depth: nat) -> bool
    decreases depth,
{
    match (a, b) {
        (JsonView::Number(Num::Float(_)), JsonView::Number(Num::Float(_))) => true,
        (JsonView::Arr(x), JsonView::Arr(y)) => {
            &&& depth > 0
            &&& x.len() == y.len()
            &&& forall|i: int|
                0 <= i < x.len() ==> alike(#[trigger] x[i], #[trigger] y[i], (depth - 1) as nat)
        },
        (JsonView::Obj(x), JsonView::Obj(y)) => {
            &&& depth > 0
            &&& x.dom() == y.dom()
            &&& forall|k: Seq<char>|
                x.dom().contains(k) ==> alike(
                    #[trigger] x[k],
                    #[trigger] y[k],
                    (depth - 1) as nat,
                )
        },
        _ => a == b,
    }
}

/// Whether a readable value is read from a text, but for its floating point numbers.
pub open spec fn reads_back(text: Seq<u8>, j: JsonView) -> bool {
    readable(j, MAX_DEPTH as nat) ==> match json_parse(text) {
        Some(k) => alike(j, k, MAX_DEPTH as nat),
        None => false,
    }
}

proof fn lemma_alike_without_floats(a: JsonView, b: JsonView, depth: nat)
    requires
        alike(a, b, depth),
        float_free(a, depth),
    ensures
        a == b,
    decreases depth,
{
    match (a, b) {
        (JsonView::Arr(x), JsonView::Arr(y)) => {
            assert forall|i: int| 0 <= i < x.len() implies x[i] == y[i] by {
                lemma_alike_without_floats(x[i], y[i], (depth - 1) as nat);
            }
            assert(x =~= y);
        },
        (JsonView::Obj(x), JsonView::Obj(y)) => {
            assert forall|k: Seq<char>| x.dom().contains(k) implies x[k] == y[k] by {
                lemma_alike_without_floats(x[k], y[k], (depth - 1) as nat);
            }
            assert(x =~= y);
        },
        _ => {},
    }
}

/// A readable value without floating point numbers is read from its text unchanged.
pub proof fn law_values_read_back(text: Seq<u8>, j: JsonView)
    requires
        reads_back(text, j),
        readable(j, MAX_DEPTH as nat),
        float_free(j, MAX_DEPTH as nat),
    ensures
        json_parse(text) == Some(j),
{
    lemma_alike_without_floats(j, json_parse(text)->Some_0, MAX_DEPTH as nat);
}

/// One layer of a `serde_json::Value`.
pub enum Shape {
    Null,
    Bool(bool),
    Number(Num),
    Text(String),
    Items(Vec<serde_json::Value>),
    Members(Vec<(String, serde_json::Value)>),
}

/// The map that a list of members stands for: a later member replaces an earlier one.
pub open spec fn pairs_json(pairs: Seq<(String, serde_json::Value)>) -> Map<Seq<char>, JsonView>
    decreases pairs.len(),
{
    if pairs.len() == 0 {
        Map::empty()
    } else {
        pairs_json(pairs.drop_last()).insert(pairs.last().0@, value_json(pairs.last().1))
    }
}

/// The JSON value that a layer holds.
pub open spec fn shape_json(s: Shape) -> JsonView {
    match s {
        Shape::Null => JsonView::Null,
        Shape::Bool(b) => JsonView::Bool(b),
        Shape::Number(n) => JsonView::Number(n),
        Shape::Text(t) => JsonView::Str(t@),
        Shape::Items(items) => JsonView::Arr(
            items@.map_values(|v: serde_json::Value| value_json(v)),
        ),
        Shape::Members(pairs) => JsonView::Obj(pairs_json(pairs@)),
    }
}

/// Takes a `serde_json::Value` apart, variant by variant. The layer holds the value that the
/// argument held. An integer comes out as the integer that `Number::as_u64` or
/// `Number::as_i64` gives, so that only numbers below zero are negative. The members come
/// out of the map with distinct keys.
#[verifier::external_body]
fn open_value(v: serde_json::Value) -> (r: Shape)
    ensures
        shape_json(r) == value_json(v),
        r matches Shape::Number(Num::Negative(i)) ==> i < 0,
        r matches Shape::Members(pairs) ==> distinct_rows(pairs@),
{
    match v {
        serde_json::Value::Null => Shape::Null,
        serde_json::Value::Bool(b) => Shape::Bool(b),
        serde_json::Value::Number(n) => match (n.as_u64(), n.as_i64()) {
            (Some(u), _) => Shape::Number(Num::Unsigned(u)),
            (None, Some(i)) => Shape::Number(Num::Negative(i)),
            (None, None) => Shape::Number(Num::Float(FloatNumber { number: n })),
        },
        serde_json::Value::String(s) => Shape::Text(s),
        serde_json::Value::Array(items) => Shape::Items(items),
        serde_json::Value::Object(map) => Shape::Members(map.into_iter().collect()),
    }
}

/// Builds the `serde_json::Value` that holds a layer, variant by variant: `Number::from` for
/// integers, `Map`'s `collect` for members, whose keys are distinct.
#[verifier::external_body]
fn close_value(s: Shape) -> (r: serde_json::Value)
    requires
        s matches Shape::Number(Num::Negative(i)) ==> i < 0,
        s matches Shape::Members(pairs) ==> distinct_rows(pairs@),
    ensures
        value_json(r) == shape_json(s),
{
    match s {
        Shape::Null => serde_json::Value::Null,
        Shape::Bool(b) => serde_json::Value::Bool(b),
        Shape::Number(Num::Unsigned(u)) => serde_json::Value::Number(u.into()),
        Shape::Number(Num::Negative(i)) => serde_json::Value::Number(i.into()),
        Shape::Number(Num::Float(f)) => serde_json::Value::Number(f.number),
        Shape::Text(t) => serde_json::Value::String(t),
        Shape::Items(items) => serde_json::Value::Array(items),
        Shape::Members(pairs) => serde_json::Value::Object(pairs.into_iter().collect()),
    }
}

/// `serde_json::from_slice::<Value>`: what it reads, and whether it reads anything, is a
/// function of the bytes.
#[verifier::external_body]
fn read_value(text: &[u8]) -> (r: Option<serde_json::Value>)
    ensures
        match r {
            Some(v) => json_parse(text@) == Some(value_json(v)),
            None => json_parse(text@) is None,
        },
{
    serde_json::from_slice::<serde_json::Value>(text).ok()
}

/// `Value::to_string`: the compact text of a value, in bytes. Maps are written in key order,
/// so the text is a function of the JSON value. Where the nesting stays within the depth that
/// `serde_json::from_slice` reads, and no object has the key that `serde_json` keeps for
/// itself, it reads the text back as the value, but for floating point numbers: the digits of
/// one are read as a floating point number that may be a neighbour of it.
#[verifier::external_body]
fn write_value(v: &serde_json::Value) -> (r: Vec<u8>)
    ensures
        r@ == json_text(value_json(*v)),
        reads_back(r@, value_json(*v)),
{
    v.to_string().into_bytes()
}

/// `Number::clone`: a copy is the number itself.
#[verifier::external_body]
fn copy_float(f: &FloatNumber) -> (r: FloatNumber)
    ensures
        r == *f,
{
    FloatNumber { number: f.number.clone() }
}

/// The members that rows stand for.
proof fn lemma_pairs_are_rows(pairs: Seq<(String, serde_json::Value)>)
    ensures
        pairs_json(pairs) == rows(pairs).map_values(|v: serde_json::Value| value_json(v)),
    decreases pairs.len(),
{
    if pairs.len() > 0 {
        lemma_pairs_are_rows(pairs.drop_last());
    }
    assert(pairs_json(pairs) =~= rows(pairs).map_values(|v: serde_json::Value| value_json(v)));
}

proof fn lemma_pair(pairs: Seq<(String, serde_json::Value)>, i: int)
    requires
        0 <= i < pairs.len(),
        distinct_rows(pairs),
    ensures
        pairs_json(pairs).dom().finite(),
        pairs_json(pairs).dom().contains(pairs[i].0@),
        pairs_json(pairs)[pairs[i].0@] == value_json(pairs[i].1),
    decreases pairs.len(),
{
    let rest = pairs.drop_last();
    if rest.len() > 0 {
        lemma_pair(rest, if i < rest.len() { i } else { 0 });
    } else {
        assert(pairs_json(rest) =~= Map::empty());
    }
    if i < rest.len() {
        assert(pairs[i].0@ != pairs[pairs.len() - 1].0@);
    }
}

/// Converts a `serde_json::Value`.
pub fn from_value(v: serde_json::Value) -> (r: Json)
    ensures
        r@ == value_json(v),
    decreases value_json(v),
{
    match open_value(v) {
        Shape::Null => Json::Null,
        Shape::Bool(b) => Json::Bool(b),
        Shape::Number(n) => Json::Number(n),
        Shape::Text(t) => Json::Str(t),
        Shape::Items(items) => {
            let ghost all = items@;
            let mut out: Vec<Json> = Vec::new();
            for x in it: items
                invariant
                    it.seq() == all,
                    value_json(v) == JsonView::Arr(
                        all.map_values(|w: serde_json::Value| value_json(w)),
                    ),
                    items_view(out@) =~= all.take(it.index() as int).map_values(
                        |w: serde_json::Value| value_json(w),
                    ),
            {
                let ghost done = out@;
                proof {
                    let models = all.map_values(|w: serde_json::Value| value_json(w));
                    assert(models[it.index() as int] == value_json(x));
                    assert(value_json(v)->Arr_0 == models);
                    assert(decreases_to!(value_json(v) => value_json(v)->Arr_0));
                    assert(decreases_to!(models => models[it.index() as int]));
                }
                let y: Json = from_value(x);
                out.push(y);
                assert(items_view(out@) =~= items_view(done).push(y@));
            }
            assert(all.take(all.len() as int) =~= all);
            Json::Arr(out)
        },
        Shape::Members(pairs) => {
            let ghost all = pairs@;
            let mut out: Vec<(String, Json)> = Vec::new();
            for pair in it: pairs
                invariant
                    it.seq() == all,
                    value_json(v) == JsonView::Obj(pairs_json(all)),
                    distinct_rows(all),
                    members_view(out@) == pairs_json(all.take(it.index() as int)),
            {
                let ghost done = out@;
                let (key, value) = pair;
                proof {
                    lemma_pair(all, it.index() as int);
                    let m = pairs_json(all);
                    assert(value_json(v)->Obj_0 == m);
                    assert(decreases_to!(value_json(v) => value_json(v)->Obj_0));
                    assert(decreases_to!(m => m[key@]));
                }
                let y: Json = from_value(value);
                out.push((key, y));
                proof {
                    assert(out@.drop_last() =~= done);
                    assert(all.take(it.index() as int + 1).drop_last() =~= all.take(
                        it.index() as int,
                    ));
                }
            }
            assert(all.take(all.len() as int) =~= all);
            Json::Obj(out)
        },
    }
}

/// Converts to a `serde_json::Value`.
pub fn into_value(j: Json) -> (r: serde_json::Value)
    ensures
        value_json(r) == j@,
    decreases j,
{
    match j {
        Json::Null => close_value(Shape::Null),
        Json::Bool(b) => close_value(Shape::Bool(b)),
        Json::Number(Num::Negative(i)) => if i >= 0 {
            close_value(Shape::Number(Num::Unsigned(i as u64)))
        } else {
            close_value(Shape::Number(Num::Negative(i)))
        },
        Json::Number(n) => close_value(Shape::Number(n)),
        Json::Str(s) => close_value(Shape::Text(s)),
        Json::Arr(items) => {
            let ghost all = items@;
            let mut out: Vec<serde_json::Value> = Vec::new();
            for x in it: items
                invariant
                    it.seq() == all,
                    j == Json::Arr(items),
                    items@ == all,
                    out@.map_values(|w: serde_json::Value| value_json(w)) =~= items_view(
                        all.take(it.index() as int),
                    ),
            {
                let ghost done = out@;
                proof {
                    assert(decreases_to!(j => j->Arr_0));
                    assert(decreases_to!(items => items@));
                    assert(decreases_to!(items@ => items@[it.index() as int]));
                }
                let y: serde_json::Value = into_value(x);
                out.push(y);
                assert(out@.map_values(|w: serde_json::Value| value_json(w)) =~= done.map_values(
                    |w: serde_json::Value| value_json(w),
                ).push(json_view(all[it.index() as int])));
                assert(items_view(all.take(it.index() as int + 1)) =~= items_view(
                    all.take(it.index() as int),
                ).push(json_view(all[it.index() as int])));
            }
            assert(all.take(all.len() as int) =~= all);
            close_value(Shape::Items(out))
        },
        Json::Obj(members) => {
            let ghost all = members@;
            let mut out: Vec<(String, serde_json::Value)> = Vec::new();
            for pair in it: members
                invariant
                    it.seq() == all,
                    j == Json::Obj(members),
                    members@ == all,
                    distinct_rows(out@),
                    pairs_json(out@) == members_view(all.take(it.index() as int)),
            {
                let ghost done = out@;
                proof {
                    assert(decreases_to!(j => j->Obj_0));
                    assert(decreases_to!(members => members@));
                    assert(decreases_to!(members@ => members@[it.index() as int]));
                    assert(decreases_to!(
                        members@[it.index() as int] => members@[it.index() as int].1
                    ));
                }
                let (key, value) = pair;
                let y: serde_json::Value = into_value(value);
                set_row(&mut out, key.as_str(), y);
                proof {
                    lemma_pairs_are_rows(done);
                    lemma_pairs_are_rows(out@);
                    assert(pairs_json(out@) =~= pairs_json(done).insert(key@, value_json(y)));
                    assert(all.take(it.index() as int + 1).drop_last() =~= all.take(
                        it.index() as int,
                    ));
                }
            }
            assert(all.take(all.len() as int) =~= all);
            close_value(Shape::Members(out))
        },
    }
}

/// Reads a JSON text.
pub fn parse_json(text: &[u8]) -> (r: Option<Json>)
    ensures
        match r {
            Some(j) => json_parse(text@) == Some(j@),
            None => json_parse(text@) is None,
        },
{
    match read_value(text) {
        Some(v) => Some(from_value(v)),
        None => None,
    }
}

/// Writes the compact JSON text of a value, from which a readable value is read back, but for
/// its floating point numbers.
pub fn print_json(j: Json) -> (r: Vec<u8>)
    ensures
        r@ == json_text(j@),
        reads_back(r@, j@),
{
    let v: serde_json::Value = into_value(j);
    write_value(&v)
}

/// Copies a value.
pub fn copy_json(j: &Json) -> (r: Json)
    ensures
        r@ == j@,
    decreases j,
{
    match j {
        Json::Null => Json::Null,
        Json::Bool(b) => Json::Bool(*b),
        Json::Number(Num::Unsigned(n)) => Json::Number(Num::Unsigned(*n)),
        Json::Number(Num::Negative(i)) => Json::Number(Num::Negative(*i)),
        Json::Number(Num::Float(f)) => Json::Number(Num::Float(copy_float(f))),
        Json::Str(s) => Json::Str(s.clone()),
        Json::Arr(items) => {
            let mut out: Vec<Json> = Vec::new();
            let mut i: usize = 0;
            while i < items.len()
                invariant
                    i <= items@.len(),
                    *j == Json::Arr(*items),
                    items_view(out@) =~= items_view(items@.take(i as int)),
                decreases items@.len() - i,
            {
                let ghost done = out@;
                proof {
                    assert(decreases_to!(j => j->Arr_0));
                    assert(decreases_to!(items => items@));
                    assert(decreases_to!(items@ => items@[i as int]));
                }
                let y: Json = copy_json(&items[i]);
                out.push(y);
                assert(items_view(out@) =~= items_view(done).push(y@));
                assert(items_view(items@.take(i + 1)) =~= items_view(items@.take(i as int)).push(
                    y@,
                ));
                i = i + 1;
            }
            assert(items@.take(items@.len() as int) =~= items@);
            Json::Arr(out)
        },
        Json::Obj(members) => {
            let mut out: Vec<(String, Json)> = Vec::new();
            let mut i: usize = 0;
            while i < members.len()
                invariant
                    i <= members@.len(),
                    *j == Json::Obj(*members),
                    members_view(out@) == members_view(members@.take(i as int)),
                decreases members@.len() - i,
            {
                let ghost done = out@;
                proof {
                    assert(decreases_to!(j => j->Obj_0));
                    assert(decreases_to!(members => members@));
                    assert(decreases_to!(members@ => members@[i as int]));
                    assert(decreases_to!(members@[i as int] => members@[i as int].1));
                }
                let key: String = members[i].0.clone();
                let y: Json = copy_json(&members[i].1);
                out.push((key, y));
                proof {
                    assert(out@.drop_last() =~= done);
                    assert(members@.take(i + 1).drop_last() =~= members@.take(i as int));
                }
                i = i + 1;
            }
            assert(members@.take(members@.len() as int) =~= members@);
            Json::Obj(out)
        },
    }
}

} // verus!
