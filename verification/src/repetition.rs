//! How often a text repeats a phrase right after itself.

use vstd::prelude::*;

use crate::text::{lowercase_of, lowercase_words, words_of, words_view};

verus! {

/// The highest count that is reported.
pub const REPETITION_CAP: u32 = 10;

/// Whether the `n` words at `i` and the `n` words at `j` are the same.
pub open spec fn same_phrase(words: Seq<Seq<char>>, n: nat, i: int, j: int) -> bool {
    forall|k: int| 0 <= k < n ==> words[i + k] == #[trigger] words[j + k]
}

/// How many phrases in a row, each of `n` words and the first of them at `j`, are the phrase
/// at `i`.
pub open spec fn phrases_from(words: Seq<Seq<char>>, n: nat, i: int, j: int) -> nat
    decreases words.len() - j,
{
    if n > 0 && j + n <= words.len() && same_phrase(words, n, i, j) {
        1 + phrases_from(words, n, i, j + n as int)
    } else {
        0
    }
}

/// How often the phrases of `n` words at the first `k` positions follow themselves.
pub open spec fn phrase_repeats(words: Seq<Seq<char>>, n: nat, k: nat) -> nat
    decreases k,
{
    if k == 0 {
        0
    } else {
        phrase_repeats(words, n, (k - 1) as nat) + phrases_from(words, n, k - 1, k - 1 + n)
    }
}

/// How often phrases of `n` words follow themselves. The last position is not a start.
pub open spec fn repeats_of_length(words: Seq<Seq<char>>, n: nat) -> nat {
    if words.len() < 2 * n {
        0
    } else {
        phrase_repeats(words, n, (words.len() - n) as nat)
    }
}

/// How often phrases of at least three and fewer than `end` words follow themselves.
pub open spec fn repeats_below(words: Seq<Seq<char>>, end: nat) -> nat
    decreases end,
{
    if end <= 3 {
        0
    } else {
        repeats_below(words, (end - 1) as nat) + repeats_of_length(words, (end - 1) as nat)
    }
}

/// How often phrases of three to six words follow themselves, up to the cap.
pub open spec fn repetitions(words: Seq<Seq<char>>) -> nat {
    capped(repeats_below(words, 7))
}

/// A count, up to the cap.
pub open spec fn capped(n: nat) -> nat {
    if n <= REPETITION_CAP {
        n
    } else {
        REPETITION_CAP as nat
    }
}

fn words_equal(a: &Vec<char>, b: &Vec<char>) -> (r: bool)
    ensures
        r == (a@ == b@),
{
    if a.len() != b.len() {
        return false;
    }
    let mut i: usize = 0;
    while i < a.len()
        invariant
            a@.len() == b@.len(),
            i <= a@.len(),
            forall|k: int| 0 <= k < i ==> a@[k] == b@[k],
        decreases a@.len() - i,
    {
        if a[i] != b[i] {
            return false;
        }
        i = i + 1;
    }
    assert(a@ =~= b@);
    true
}

fn phrases_equal(words: &Vec<Vec<char>>, n: usize, i: usize, j: usize) -> (r: bool)
    requires
        i + n <= words@.len(),
        j + n <= words@.len(),
    ensures
        r == same_phrase(words_view(words@), n as nat, i as int, j as int),
{
    let len: usize = words.len();
    let ghost w = words_view(words@);
    let mut k: usize = 0;
    while k < n
        invariant
            len == words@.len(),
            w == words_view(words@),
            i + n <= words@.len(),
            j + n <= words@.len(),
            k <= n,
            forall|m: int| 0 <= m < k ==> w[i + m] == #[trigger] w[j + m],
        decreases n - k,
    {
        if !words_equal(&words[i + k], &words[j + k]) {
            assert(w[i + k] != w[j + k]);
            return false;
        }
        k = k + 1;
    }
    true
}

fn count_phrases_from(words: &Vec<Vec<char>>, n: usize, i: usize) -> (r: usize)
    requires
        0 < n,
        i + n <= words@.len(),
    ensures
        r == phrases_from(words_view(words@), n as nat, i as int, i + n),
{
    let ghost w = words_view(words@);
    let len: usize = words.len();
    let mut j: usize = i + n;
    let mut count: usize = 0;
    while n <= len - j && phrases_equal(words, n, i, j)
        invariant
            len == words@.len(),
            w == words_view(words@),
            0 < n,
            i + n <= j <= len,
            count <= j,
            count + phrases_from(w, n as nat, i as int, j as int) == phrases_from(
                w,
                n as nat,
                i as int,
                i + n,
            ),
        decreases len - j,
    {
        j = j + n;
        count = count + 1;
    }
    count
}

/// Counts the phrases of three to six words that follow themselves, up to the cap.
pub fn count_word_repetitions(words: &Vec<Vec<char>>) -> (r: u32)
    ensures
        r == repetitions(words_view(words@)),
{
    let ghost w = words_view(words@);
    let len: usize = words.len();
    let mut total: u32 = 0;
    let mut n: usize = 3;
    while n < 7
        invariant
            len == words@.len(),
            w == words_view(words@),
            w.len() == len,
            3 <= n <= 7,
            total == capped(repeats_below(w, n as nat)),
        decreases 7 - n,
    {
        let ghost base = repeats_below(w, n as nat);
        if len >= 2 * n {
            let mut i: usize = 0;
            while i < len - n
                invariant
                    len == words@.len(),
                    w == words_view(words@),
                    w.len() == len,
                    3 <= n < 7,
                    2 * n <= len,
                    i <= len - n,
                    total == capped(base + phrase_repeats(w, n as nat, i as nat)),
                decreases len - n - i,
            {
                let count: usize = count_phrases_from(words, n, i);
                if count >= 10 || total + count as u32 >= 10 {
                    total = 10;
                } else {
                    total = total + count as u32;
                }
                i = i + 1;
            }
        }
        n = n + 1;
    }
    total
}

/// Counts the phrases of three to six words that follow themselves in a text, whatever the
/// case of their letters, up to the cap.
pub fn count_repetitions(text: &str) -> (r: u32)
    ensures
        r == repetitions(words_of(lowercase_of(text@))),
{
    let words: Vec<Vec<char>> = lowercase_words(text);
    count_word_repetitions(&words)
}

/// The count never exceeds the cap, and a text of fewer than six words repeats no phrase.
pub proof fn law_repetitions_are_bounded(words: Seq<Seq<char>>)
    ensures
        repetitions(words) <= REPETITION_CAP,
        words.len() < 6 ==> repetitions(words) == 0,
{
    if words.len() < 6 {
        reveal_with_fuel(repeats_below, 6);
    }
}

} // verus!
