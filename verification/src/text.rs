//! Strings: equality, search and words.

use vstd::prelude::*;
use vstd::string::*;
use vstd::utf8::*;

verus! {

/// Whether two strings hold the same characters.
pub fn str_eq(a: &str, b: &str) -> (r: bool)
    ensures
        r == (a@ == b@),
{
    let x: &[u8] = a.as_bytes();
    let y: &[u8] = b.as_bytes();
    proof {
        encode_utf8_decode_utf8(a@);
        encode_utf8_decode_utf8(b@);
    }
    if x.len() != y.len() {
        return false;
    }
    let mut i: usize = 0;
    while i < x.len()
        invariant
            x@ == encode_utf8(a@),
            y@ == encode_utf8(b@),
            x@.len() == y@.len(),
            i <= x@.len(),
            forall|k: int| 0 <= k < i ==> x@[k] == y@[k],
        decreases x@.len() - i,
    {
        if x[i] != y[i] {
            return false;
        }
        i = i + 1;
    }
    assert(x@ =~= y@);
    true
}

/// The characters of a string.
pub fn chars_of(s: &str) -> (r: Vec<char>)
    ensures
        r@ == s@,
{
    let mut out: Vec<char> = Vec::new();
    for c in it: s.chars()
        invariant
            out@ =~= s@.take(it.index() as int),
            it.seq() == s@,
    {
        out.push(c);
    }
    out
}

/// Whether `pat` stands in `s` at position `i`.
pub open spec fn occurs_at(s: Seq<char>, pat: Seq<char>, i: int) -> bool {
    0 <= i && i + pat.len() <= s.len() && s.subrange(i, i + pat.len()) == pat
}

/// Whether `pat` stands somewhere in `s`.
pub open spec fn has_text(s: Seq<char>, pat: Seq<char>) -> bool {
    exists|i: int| occurs_at(s, pat, i)
}

fn matches_at(s: &Vec<char>, pat: &Vec<char>, i: usize) -> (r: bool)
    requires
        i + pat@.len() <= s@.len(),
    ensures
        r == occurs_at(s@, pat@, i as int),
{
    let n: usize = s.len();
    let mut k: usize = 0;
    while k < pat.len()
        invariant
            n == s@.len(),
            i + pat@.len() <= s@.len(),
            k <= pat@.len(),
            forall|m: int| 0 <= m < k ==> s@[i + m] == pat@[m],
        decreases pat@.len() - k,
    {
        if s[i + k] != pat[k] {
            assert(s@.subrange(i as int, i + pat@.len())[k as int] != pat@[k as int]);
            return false;
        }
        k = k + 1;
    }
    assert(s@.subrange(i as int, i + pat@.len()) =~= pat@);
    true
}

/// Whether `pat` stands somewhere in `s`, over characters.
pub fn chars_contain(s: &Vec<char>, pat: &str) -> (r: bool)
    ensures
        r == has_text(s@, pat@),
{
    let p: Vec<char> = chars_of(pat);
    if p.len() > s.len() {
        return false;
    }
    let last: usize = s.len() - p.len();
    let mut i: usize = 0;
    while i <= last
        invariant
            p@ == pat@,
            p@.len() <= s@.len(),
            last == s@.len() - p@.len(),
            i <= last + 1,
            forall|m: int| 0 <= m < i ==> !occurs_at(s@, p@, m),
        decreases last + 1 - i,
    {
        if matches_at(s, &p, i) {
            return true;
        }
        if i == last {
            return false;
        }
        i = i + 1;
    }
    false
}

/// `str::contains`.
pub fn contains(s: &str, pat: &str) -> (r: bool)
    ensures
        r == has_text(s@, pat@),
{
    let c: Vec<char> = chars_of(s);
    chars_contain(&c, pat)
}

/// `str::starts_with`.
pub fn starts_with(s: &str, pat: &str) -> (r: bool)
    ensures
        r == occurs_at(s@, pat@, 0),
{
    let c: Vec<char> = chars_of(s);
    let p: Vec<char> = chars_of(pat);
    if p.len() > c.len() {
        return false;
    }
    matches_at(&c, &p, 0)
}

/// Whether a character is white space, by the Unicode property of that name.
pub open spec fn is_whitespace(c: char) -> bool {
    let n = c as u32;
    ||| 0x9 <= n <= 0xd
    ||| n == 0x20
    ||| n == 0x85
    ||| n == 0xa0
    ||| n == 0x1680
    ||| 0x2000 <= n <= 0x200a
    ||| n == 0x2028
    ||| n == 0x2029
    ||| n == 0x202f
    ||| n == 0x205f
    ||| n == 0x3000
}

/// Tells whether a character is white space.
pub fn char_is_whitespace(c: char) -> (r: bool)
    ensures
        r == is_whitespace(c),
{
    let n: u32 = c as u32;
    (0x9 <= n && n <= 0xd) || n == 0x20 || n == 0x85 || n == 0xa0 || n == 0x1680 || (0x2000 <= n
        && n <= 0x200a) || n == 0x2028 || n == 0x2029 || n == 0x202f || n == 0x205f || n == 0x3000
}

/// Names what `char::is_alphanumeric` answers.
pub uninterp spec fn is_alphanumeric(c: char) -> bool;

/// `char::is_alphanumeric`: the answer is a function of the character.
#[verifier::external_body]
fn char_is_alphanumeric(c: char) -> (r: bool)
    ensures
        r == is_alphanumeric(c),
{
    c.is_alphanumeric()
}

/// Whether every character is alphanumeric.
pub fn all_alphanumeric(s: &str) -> (r: bool)
    ensures
        r == (forall|i: int| 0 <= i < s@.len() ==> is_alphanumeric(#[trigger] s@[i])),
{
    let c: Vec<char> = chars_of(s);
    let mut i: usize = 0;
    while i < c.len()
        invariant
            c@ == s@,
            i <= c@.len(),
            forall|k: int| 0 <= k < i ==> is_alphanumeric(#[trigger] s@[k]),
        decreases c@.len() - i,
    {
        if !char_is_alphanumeric(c[i]) {
            assert(!is_alphanumeric(s@[i as int]));
            return false;
        }
        i = i + 1;
    }
    true
}

/// Names what `str::to_lowercase` returns.
pub uninterp spec fn lowercase_of(s: Seq<char>) -> Seq<char>;

/// `str::to_lowercase`: the result is a function of the characters.
#[verifier::external_body]
fn to_lowercase(s: &str) -> (r: String)
    ensures
        r@ == lowercase_of(s@),
{
    s.to_lowercase()
}

/// The finished words of `s` and the word that `s` ends in the middle of.
pub open spec fn split_words(s: Seq<char>) -> (Seq<Seq<char>>, Seq<char>)
    decreases s.len(),
{
    if s.len() == 0 {
        (Seq::empty(), Seq::empty())
    } else {
        let (words, current) = split_words(s.drop_last());
        if !is_whitespace(s.last()) {
            (words, current.push(s.last()))
        } else if current.len() > 0 {
            (words.push(current), Seq::empty())
        } else {
            (words, current)
        }
    }
}

/// The maximal runs of characters that are not whitespace.
pub open spec fn words_of(s: Seq<char>) -> Seq<Seq<char>> {
    let (words, current) = split_words(s);
    if current.len() > 0 {
        words.push(current)
    } else {
        words
    }
}

/// The words of a vector of words.
pub open spec fn words_view(words: Seq<Vec<char>>) -> Seq<Seq<char>> {
    words.map_values(|w: Vec<char>| w@)
}

/// Splits a text at whitespace.
pub fn words(text: &str) -> (r: Vec<Vec<char>>)
    ensures
        words_view(r@) == words_of(text@),
{
    let c: Vec<char> = chars_of(text);
    let mut out: Vec<Vec<char>> = Vec::new();
    let mut current: Vec<char> = Vec::new();
    let mut i: usize = 0;
    assert(c@.take(0) =~= Seq::<char>::empty());
    assert(words_view(out@) =~= Seq::<Seq<char>>::empty());
    while i < c.len()
        invariant
            c@ == text@,
            i <= c@.len(),
            split_words(c@.take(i as int)) == (words_view(out@), current@),
        decreases c@.len() - i,
    {
        let ch: char = c[i];
        assert(c@.take(i + 1).drop_last() =~= c@.take(i as int));
        let ghost before = out@;
        if !char_is_whitespace(ch) {
            current.push(ch);
        } else if current.len() > 0 {
            let ghost finished = current@;
            let mut fresh: Vec<char> = Vec::new();
            std::mem::swap(&mut fresh, &mut current);
            out.push(fresh);
            assert(words_view(out@) =~= words_view(before).push(finished));
        }
        i = i + 1;
    }
    assert(c@.take(c@.len() as int) =~= c@);
    if current.len() > 0 {
        let ghost before = out@;
        let ghost finished = current@;
        out.push(current);
        assert(words_view(out@) =~= words_view(before).push(finished));
    }
    out
}

/// The words of the lower-case form of a text.
pub fn lowercase_words(text: &str) -> (r: Vec<Vec<char>>)
    ensures
        words_view(r@) == words_of(lowercase_of(text@)),
{
    let lower: String = to_lowercase(text);
    words(lower.as_str())
}

/// A text stands in another exactly where the other is made of something, the text, and
/// something more.
pub proof fn law_text_is_a_part(s: Seq<char>, pat: Seq<char>)
    ensures
        has_text(s, pat) <==> exists|a: Seq<char>, b: Seq<char>| #[trigger] (a + pat + b) == s,
{
    if has_text(s, pat) {
        let i = choose|i: int| occurs_at(s, pat, i);
        let a = s.take(i);
        let b = s.skip(i + pat.len());
        assert(a + pat + b =~= s);
    }
    if exists|a: Seq<char>, b: Seq<char>| #[trigger] (a + pat + b) == s {
        let (a, b) = choose|a: Seq<char>, b: Seq<char>| #[trigger] (a + pat + b) == s;
        assert(s.subrange(a.len() as int, (a.len() + pat.len()) as int) =~= pat);
        assert(occurs_at(s, pat, a.len() as int));
    }
}

/// What stands in a text stands in every longer one.
pub proof fn law_longer_text_keeps_its_parts(
    before: Seq<char>,
    s: Seq<char>,
    behind: Seq<char>,
    pat: Seq<char>,
)
    requires
        has_text(s, pat),
    ensures
        has_text(before + s + behind, pat),
{
    let i = choose|i: int| occurs_at(s, pat, i);
    let all = before + s + behind;
    assert(all.subrange(before.len() + i, before.len() + i + pat.len()) =~= s.subrange(
        i,
        i + pat.len(),
    ));
    assert(occurs_at(all, pat, before.len() + i));
}

/// A prefix without the first character of a text does not help the text to stand somewhere.
pub proof fn lemma_prefix_adds_nothing(prefix: Seq<char>, s: Seq<char>, pat: Seq<char>)
    requires
        pat.len() > 0,
        !prefix.contains(pat[0]),
    ensures
        has_text(prefix + s, pat) == has_text(s, pat),
{
    let all = prefix + s;
    if has_text(all, pat) {
        let i = choose|i: int| occurs_at(all, pat, i);
        assert(all.subrange(i, i + pat.len())[0] == all[i]);
        if i < prefix.len() {
            assert(prefix[i] == pat[0]);
        }
        assert(s.subrange(i - prefix.len(), i - prefix.len() + pat.len()) =~= all.subrange(
            i,
            i + pat.len(),
        ));
        assert(occurs_at(s, pat, i - prefix.len()));
    }
    if has_text(s, pat) {
        law_longer_text_keeps_its_parts(prefix, s, Seq::empty(), pat);
        assert(prefix + s + Seq::<char>::empty() =~= all);
    }
}

} // verus!
