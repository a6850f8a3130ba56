//! Lists of names and tables that are looked up by name.

use vstd::prelude::*;

use crate::text::str_eq;

verus! {

/// The names in a list.
pub open spec fn names(list: Seq<String>) -> Seq<Seq<char>> {
    list.map_values(|s: String| s@)
}

/// Whether a name is in a list.
pub fn has_name(list: &Vec<String>, name: &str) -> (r: bool)
    ensures
        r == names(list@).contains(name@),
{
    let ghost v = names(list@);
    let mut i: usize = 0;
    while i < list.len()
        invariant
            v == names(list@),
            i <= list@.len(),
            forall|k: int| 0 <= k < i ==> v[k] != name@,
        decreases list@.len() - i,
    {
        if str_eq(list[i].as_str(), name) {
            assert(v[i as int] == name@);
            return true;
        }
        i = i + 1;
    }
    false
}

/// Adding a name to a list.
pub proof fn lemma_names_push(list: Seq<String>, name: String)
    ensures
        names(list.push(name)) == names(list).push(name@),
{
    assert(names(list.push(name)) =~= names(list).push(name@));
}

/// The names of one list, then those of another that the first lacks, each once.
pub open spec fn merged_names(base: Seq<Seq<char>>, more: Seq<Seq<char>>) -> Seq<Seq<char>>
    decreases more.len(),
{
    if more.len() == 0 {
        base
    } else {
        let before = merged_names(base, more.drop_last());
        if before.contains(more.last()) {
            before
        } else {
            before.push(more.last())
        }
    }
}

/// Adds to a list the names of another that it lacks.
pub fn merge_names(base: &mut Vec<String>, more: &Vec<String>)
    ensures
        names(final(base)@) == merged_names(names(old(base)@), names(more@)),
{
    let ghost start = names(base@);
    let ghost v = names(more@);
    let mut i: usize = 0;
    assert(v.take(0) =~= Seq::empty());
    while i < more.len()
        invariant
            v == names(more@),
            i <= more@.len(),
            names(base@) == merged_names(start, v.take(i as int)),
        decreases more@.len() - i,
    {
        assert(v.take(i + 1).drop_last() =~= v.take(i as int));
        if !has_name(base, more[i].as_str()) {
            let name: String = more[i].clone();
            proof {
                lemma_names_push(base@, name);
            }
            base.push(name);
        }
        i = i + 1;
    }
    assert(v.take(v.len() as int) =~= v);
}

/// Merging adds exactly the names of the second list.
pub proof fn lemma_merged_names_contain(
    base: Seq<Seq<char>>,
    more: Seq<Seq<char>>,
    name: Seq<char>,
)
    ensures
        merged_names(base, more).contains(name) <==> base.contains(name) || more.contains(name),
        base.len() <= merged_names(base, more).len(),
        more.len() > 0 ==> merged_names(base, more).len() > 0,
    decreases more.len(),
{
    if more.len() > 0 {
        let rest = more.drop_last();
        lemma_merged_names_contain(base, rest, name);
        let before = merged_names(base, rest);
        assert(more =~= rest.push(more.last()));
        assert(more.contains(name) <==> rest.contains(name) || name == more.last()) by {
            if rest.contains(name) {
                let k = choose|k: int| 0 <= k < rest.len() && rest[k] == name;
                assert(more[k] == name);
            }
            if name == more.last() {
                assert(more[more.len() - 1] == name);
            }
            if more.contains(name) {
                let k = choose|k: int| 0 <= k < more.len() && more[k] == name;
                if k < rest.len() {
                    assert(rest[k] == name);
                }
            }
        }
        if !before.contains(more.last()) {
            let after = before.push(more.last());
            if before.contains(name) {
                let k = choose|k: int| 0 <= k < before.len() && before[k] == name;
                assert(after[k] == name);
            }
            if name == more.last() {
                assert(after[before.len() as int] == name);
            }
            if after.contains(name) {
                let k = choose|k: int| 0 <= k < after.len() && after[k] == name;
                if k < before.len() {
                    assert(before[k] == name);
                }
            }
        }
    }
}

/// The map that a table stands for: a later row replaces an earlier one.
pub open spec fn rows<V>(table: Seq<(String, V)>) -> Map<Seq<char>, V>
    decreases table.len(),
{
    if table.len() == 0 {
        Map::empty()
    } else {
        rows(table.drop_last()).insert(table.last().0@, table.last().1)
    }
}

/// The names in a table, row by row.
pub open spec fn row_names<V>(table: Seq<(String, V)>) -> Seq<Seq<char>> {
    table.map_values(|row: (String, V)| row.0@)
}

/// Whether no two rows of a table have one name.
pub open spec fn distinct_rows<V>(table: Seq<(String, V)>) -> bool {
    forall|i: int, j: int|
        0 <= i < j < table.len() ==> (#[trigger] table[i]).0@ != (#[trigger] table[j]).0@
}

/// A list of names with a name at its end, if it lacks it.
pub open spec fn with_name(list: Seq<Seq<char>>, name: Seq<char>) -> Seq<Seq<char>> {
    if list.contains(name) {
        list
    } else {
        list.push(name)
    }
}

proof fn lemma_row_found<V>(table: Seq<(String, V)>, i: int, name: Seq<char>)
    requires
        0 <= i < table.len(),
        table[i].0@ == name,
        forall|j: int| i < j < table.len() ==> (#[trigger] table[j]).0@ != name,
    ensures
        rows(table).dom().contains(name),
        rows(table)[name] == table[i].1,
    decreases table.len(),
{
    if i < table.len() - 1 {
        lemma_row_found(table.drop_last(), i, name);
        assert(table[table.len() - 1].0@ != name);
    }
}

/// In a table that holds every name once, every row counts for its name.
pub proof fn lemma_distinct_row<V>(table: Seq<(String, V)>, i: int)
    requires
        distinct_rows(table),
        0 <= i < table.len(),
    ensures
        rows(table).dom().contains(table[i].0@),
        rows(table)[table[i].0@] == table[i].1,
{
    assert forall|j: int| i < j < table.len() implies (#[trigger] table[j]).0@ != table[i].0@ by {
        assert(table[i].0@ != table[j].0@);
    }
    lemma_row_found(table, i, table[i].0@);
}

proof fn lemma_row_absent<V>(table: Seq<(String, V)>, name: Seq<char>)
    requires
        forall|j: int| 0 <= j < table.len() ==> (#[trigger] table[j]).0@ != name,
    ensures
        !rows(table).dom().contains(name),
    decreases table.len(),
{
    if table.len() > 0 {
        lemma_row_absent(table.drop_last(), name);
        assert(table[table.len() - 1].0@ != name);
    }
}

proof fn lemma_row_replaced<V>(table: Seq<(String, V)>, i: int, name: String, row: V)
    requires
        0 <= i < table.len(),
        table[i].0@ == name@,
        forall|j: int| i < j < table.len() ==> (#[trigger] table[j]).0@ != name@,
    ensures
        rows(table.update(i, (name, row))) == rows(table).insert(name@, row),
    decreases table.len(),
{
    let after = table.update(i, (name, row));
    if i < table.len() - 1 {
        lemma_row_replaced(table.drop_last(), i, name, row);
        assert(after.drop_last() =~= table.drop_last().update(i, (name, row)));
        assert(after.last() == table.last());
        assert(table[table.len() - 1].0@ != name@);
        assert(rows(after) =~= rows(table).insert(name@, row));
    } else {
        assert(after.drop_last() =~= table.drop_last());
        assert(rows(after) =~= rows(table).insert(name@, row));
    }
}

fn find_position<V>(table: &Vec<(String, V)>, name: &str) -> (r: Option<usize>)
    ensures
        match r {
            Some(i) => {
                &&& i < table@.len()
                &&& table@[i as int].0@ == name@
                &&& forall|j: int| i < j < table@.len() ==> (#[trigger] table@[j]).0@ != name@
            },
            None => forall|j: int| 0 <= j < table@.len() ==> (#[trigger] table@[j]).0@ != name@,
        },
{
    let mut i: usize = table.len();
    while i > 0
        invariant
            i <= table@.len(),
            forall|j: int| i <= j < table@.len() ==> (#[trigger] table@[j]).0@ != name@,
        decreases i,
    {
        i = i - 1;
        if str_eq(table[i].0.as_str(), name) {
            return Some(i);
        }
    }
    None
}

/// Writes the row of a table that counts for a name: the row that the table has for it, or a
/// new one at its end.
pub fn set_row<V>(table: &mut Vec<(String, V)>, name: &str, row: V)
    ensures
        rows(final(table)@) == rows(old(table)@).insert(name@, row),
        row_names(final(table)@) == with_name(row_names(old(table)@), name@),
        distinct_rows(old(table)@) ==> distinct_rows(final(table)@),
{
    let ghost before = table@;
    let ghost known = row_names(before);
    match find_position(table, name) {
        Some(i) => {
            let key: String = name.to_owned();
            proof {
                lemma_row_replaced(before, i as int, key, row);
            }
            table.set(i, (key, row));
            assert(table@ =~= before.update(i as int, (key, row)));
            assert(known[i as int] == name@);
            assert(row_names(table@) =~= known);
        },
        None => {
            assert forall|k: int| 0 <= k < known.len() implies known[k] != name@ by {
                assert(before[k].0@ != name@);
            }
            table.push((name.to_owned(), row));
            assert(table@.drop_last() =~= before);
            assert(row_names(table@) =~= known.push(name@));
        },
    }
}

/// The row of a table that counts for a name.
pub fn find_row<'a, V>(table: &'a Vec<(String, V)>, name: &str) -> (r: Option<&'a V>)
    ensures
        match r {
            Some(v) => rows(table@).dom().contains(name@) && rows(table@)[name@] == *v,
            None => !rows(table@).dom().contains(name@),
        },
{
    match find_position(table, name) {
        Some(i) => {
            proof {
                lemma_row_found(table@, i as int, name@);
            }
            Some(&table[i].1)
        },
        None => {
            proof {
                lemma_row_absent(table@, name@);
            }
            None
        },
    }
}

} // verus!
