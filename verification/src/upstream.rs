//! Outcomes of an exchange with upstream, and what they mean.

use vstd::prelude::*;
use vstd::string::*;
use vstd::utf8::{
    decode_utf8, encode_utf8, encode_utf8_decode_utf8, is_char_boundary, valid_utf8,
};

use crate::effect::{Effect, Reply, ReplyView};
use crate::mistral::{remark_view, remarks_view, IdRemark};
use crate::number::{parse_u64, parsed_unsigned};
use crate::params::option_text;
use crate::pool::copy_label;
use crate::prepare::slice_copy;
use crate::text::{contains, has_text, law_longer_text_keeps_its_parts, law_text_is_a_part};

verus! {

/// The most attempts that a request gets.
pub const MAX_RETRIES: usize = 8;

/// How many attempts a request gets with a number of keys: one for each key, at least one, at
/// most eight.
pub open spec fn attempts_for(keys: usize) -> usize {
    if keys == 0 {
        1
    } else if keys <= MAX_RETRIES {
        keys
    } else {
        MAX_RETRIES
    }
}

/// Decides how many attempts a request gets.
pub fn attempt_count(keys: usize) -> (r: usize)
    ensures
        r == attempts_for(keys),
{
    if keys == 0 {
        1
    } else if keys <= MAX_RETRIES {
        keys
    } else {
        MAX_RETRIES
    }
}

/// The key that an attempt uses.
pub struct KeyUse {
    pub idx: usize,
    pub label: Option<String>,
}

/// What the headers of an answer say.
pub struct ResponseHead {
    pub status: u16,
    pub retry_after: Option<String>,
    pub content_type: Option<String>,
}

/// How a request that was sent came out.
pub enum SendOutcome {
    Answered(ResponseHead),
    Failed(String),
    TimedOut,
}

/// How reading the body of an answer came out.
pub enum BodyOutcome {
    Read(Vec<u8>),
    Failed(String),
    TimedOut,
}

/// The pause that upstream asks for: a number of seconds, a minute where there is none.
pub open spec fn pause_asked(header: Option<String>) -> u64 {
    match header {
        Some(t) => match parsed_unsigned(t@, u64::MAX as nat) {
            Some(n) => n as u64,
            None => 60,
        },
        None => 60,
    }
}

/// Reads the pause that upstream asks for.
pub fn retry_after_secs(header: &Option<String>) -> (r: u64)
    ensures
        r == pause_asked(*header),
{
    match header {
        Some(t) => match parse_u64(t.as_str()) {
            Some(n) => n,
            None => 60,
        },
        None => 60,
    }
}

/// The media type of an answer; JSON where it names none.
pub open spec fn media_type(header: Option<String>) -> Seq<char> {
    match header {
        Some(t) => t@,
        None => "application/json"@,
    }
}

/// Reads the media type of an answer.
pub fn content_type_or_json(header: &Option<String>) -> (r: String)
    ensures
        r@ == media_type(*header),
{
    match header {
        Some(t) => t.clone(),
        None => "application/json".to_owned(),
    }
}

/// Whether a status means success.
pub open spec fn success_status(status: u16) -> bool {
    200 <= status < 300
}

/// Whether a status means success.
pub fn is_success(status: u16) -> (r: bool)
    ensures
        r == success_status(status),
{
    200 <= status && status < 300
}

/// Whether a status means that the server failed.
pub open spec fn server_error_status(status: u16) -> bool {
    500 <= status < 600
}

/// Whether a status means that the server failed.
pub fn is_server_error(status: u16) -> (r: bool)
    ensures
        r == server_error_status(status),
{
    500 <= status && status < 600
}

/// Whether an error shows that the model rejects the shape of the request.
pub open spec fn hard_model_error(error: Seq<char>) -> bool {
    has_text(error, "HTTP 400"@) && (has_text(error, "Invalid assistant message"@) || has_text(
        error,
        "invalid assistant"@,
    ) || has_text(error, "tool_calls=None"@) || has_text(error, "BadRequestError"@))
}

/// Whether an error shows that the model rejects the shape of the request.
pub fn is_hard_model_error(error: &str) -> (r: bool)
    ensures
        r == hard_model_error(error@),
{
    contains(error, "HTTP 400") && (contains(error, "Invalid assistant message") || contains(
        error,
        "invalid assistant",
    ) || contains(error, "tool_calls=None") || contains(error, "BadRequestError"))
}

/// Whether an error may not happen again.
pub open spec fn transient_race_error(error: Seq<char>) -> bool {
    has_text(error, "timeout"@) || has_text(error, "request error"@) || has_text(
        error,
        "body error"@,
    ) || has_text(error, "HTTP 500"@) || has_text(error, "HTTP 502"@) || has_text(
        error,
        "HTTP 503"@,
    ) || has_text(error, "HTTP 504"@)
}

/// Whether an error may not happen again.
pub fn is_transient_race_error(error: &str) -> (r: bool)
    ensures
        r == transient_race_error(error@),
{
    contains(error, "timeout") || contains(error, "request error") || contains(error, "body error")
        || contains(error, "HTTP 500") || contains(error, "HTTP 502") || contains(
        error,
        "HTTP 503",
    ) || contains(error, "HTTP 504")
}

/// `std::str::from_utf8`: the text that the bytes encode, if and only if they are UTF-8.
#[verifier::external_body]
fn utf8_text(bytes: &[u8]) -> (r: Option<&str>)
    ensures
        match r {
            Some(s) => valid_utf8(bytes@) && s@ == decode_utf8(bytes@),
            None => !valid_utf8(bytes@),
        },
{
    std::str::from_utf8(bytes).ok()
}

/// The text of an answer; empty where it is not UTF-8.
pub open spec fn body_text(bytes: Seq<u8>) -> Seq<char> {
    if valid_utf8(bytes) {
        decode_utf8(bytes)
    } else {
        Seq::empty()
    }
}

/// Reads the text of an answer.
pub fn text_of_body(bytes: &[u8]) -> (r: String)
    ensures
        r@ == body_text(bytes@),
{
    match utf8_text(bytes) {
        Some(s) => s.to_owned(),
        None => String::new(),
    }
}

/// The first 400 characters of a text.
pub open spec fn excerpt_of(text: Seq<char>) -> Seq<char> {
    if text.len() <= 400 {
        text
    } else {
        text.take(400)
    }
}

/// Cuts a text to its first 400 characters.
pub fn error_excerpt(text: &str) -> (r: String)
    ensures
        r@ == excerpt_of(text@),
{
    let n: usize = text.unicode_len();
    let end: usize = if n <= 400 {
        n
    } else {
        400
    };
    let s: &str = text.substring_char(0, end);
    assert(s@ =~= excerpt_of(text@));
    s.to_owned()
}

/// Names the text that `String::from_utf8_lossy` makes of bytes.
pub uninterp spec fn lossy_text(bytes: Seq<u8>) -> Seq<char>;

/// `String::from_utf8_lossy`: the text is a function of the bytes, and the text that they
/// encode where they are UTF-8.
#[verifier::external_body]
fn read_lossy(bytes: &[u8]) -> (r: String)
    ensures
        r@ == lossy_text(bytes@),
        valid_utf8(bytes@) ==> r@ == decode_utf8(bytes@),
{
    String::from_utf8_lossy(bytes).into_owned()
}

/// Reads the text of an answer, whatever its bytes.
pub fn lossy_text_of_body(bytes: &[u8]) -> (r: String)
    ensures
        r@ == lossy_text(bytes@),
        valid_utf8(bytes@) ==> r@ == decode_utf8(bytes@),
{
    read_lossy(bytes)
}

/// Whether the first `limit` bytes of a text end with a character.
pub open spec fn clean_cut(text: Seq<char>, limit: int) -> bool {
    encode_utf8(text).len() <= limit || is_char_boundary(encode_utf8(text), limit)
}

/// The first 400 bytes of a text.
pub open spec fn cut_of(text: Seq<char>) -> Seq<char> {
    if encode_utf8(text).len() <= 400 {
        text
    } else {
        decode_utf8(encode_utf8(text).take(400))
    }
}

/// Tells whether the first `limit` bytes of a text end with a character.
pub fn cuts_cleanly(text: &str, limit: usize) -> (r: bool)
    ensures
        r == clean_cut(text@, limit as int),
{
    let bytes: &[u8] = text.as_bytes();
    bytes.len() <= limit || text.is_char_boundary(limit)
}

/// Cuts a text to its first 400 bytes.
pub fn byte_excerpt(text: &str) -> (r: String)
    requires
        clean_cut(text@, 400),
    ensures
        r@ == cut_of(text@),
{
    let bytes: &[u8] = text.as_bytes();
    if bytes.len() <= 400 {
        return text.to_owned();
    }
    let (head, _) = text.split_at(400);
    proof {
        encode_utf8_decode_utf8(head@);
        assert(encode_utf8(text@).take(400) =~= encode_utf8(text@).subrange(0, 400));
    }
    head.to_owned()
}

/// An answer from upstream, passed on.
pub open spec fn forwarded(
    status: u16,
    content_type: Seq<char>,
    key_label: Option<String>,
    unbuffered: bool,
    body: Seq<u8>,
) -> ReplyView {
    ReplyView::Forward {
        status,
        content_type,
        key_label: option_text(key_label),
        unbuffered,
        body,
    }
}

/// Passes an answer from upstream on.
pub fn forward_reply(
    status: u16,
    content_type: String,
    key_label: &Option<String>,
    unbuffered: bool,
    body: &[u8],
) -> (r: Reply)
    ensures
        r@ == forwarded(status, content_type@, *key_label, unbuffered, body@),
{
    Reply::Forward {
        status,
        content_type,
        key_label: copy_label(key_label),
        unbuffered,
        body: slice_copy(body),
    }
}

/// What is noted of an answer that was looked at: its quality, where anything can be said of
/// it; else only that it came.
pub open spec fn answer_effect(
    model: Seq<char>,
    key_label: Option<Seq<char>>,
    latency_ms: u64,
    ok: bool,
    metrics: (u32, u32, bool),
) -> Effect<Seq<char>> {
    if metrics.0 > 0 || metrics.1 > 0 {
        Effect::ModelQuality {
            model,
            latency_ms,
            ok,
            output_tokens: metrics.0,
            repetitions: metrics.1,
            tool_call: metrics.2,
        }
    } else {
        Effect::ModelOutcome { model, key_label, latency_ms, ok }
    }
}

/// Notes an answer that was looked at.
pub fn note_answer(
    model_id: &str,
    key_label: &Option<String>,
    latency_ms: u64,
    ok: bool,
    metrics: (u32, u32, bool),
) -> (r: Effect<String>)
    ensures
        crate::effect::effect_view(r) == answer_effect(
            model_id@,
            option_text(*key_label),
            latency_ms,
            ok,
            metrics,
        ),
{
    if metrics.0 > 0 || metrics.1 > 0 {
        Effect::ModelQuality {
            model: model_id.to_owned(),
            latency_ms,
            ok,
            output_tokens: metrics.0,
            repetitions: metrics.1,
            tool_call: metrics.2,
        }
    } else {
        crate::effect::record_model_outcome(model_id, key_label, latency_ms, ok)
    }
}

/// The remarks on a request, as effects.
pub open spec fn remark_effects(remarks: Seq<IdRemark<Seq<char>>>) -> Seq<Effect<Seq<char>>> {
    remarks.map_values(|w: IdRemark<Seq<char>>| Effect::Remark(w))
}

/// Notes the remarks on a request.
pub fn note_remarks(effects: &mut Vec<Effect<String>>, remarks: Vec<IdRemark<String>>)
    ensures
        crate::effect::effects_view(final(effects)@) == crate::effect::effects_view(
            old(effects)@,
        ) + remark_effects(remarks_view(remarks@)),
{
    let ghost all = remarks@;
    let ghost start = crate::effect::effects_view(effects@);
    let ghost added = remark_effects(remarks_view(all));
    assert(start + added.take(0) =~= start);
    for w in it: remarks
        invariant
            it.seq() == all,
            added == remark_effects(remarks_view(all)),
            crate::effect::effects_view(effects@) == start + added.take(it.index() as int),
    {
        let ghost i = it.index() as int;
        let ghost before = effects@;
        proof {
            assert(added[i] == Effect::Remark(remark_view(w)));
        }
        effects.push(Effect::Remark(w));
        proof {
            assert(crate::effect::effects_view(effects@) =~= crate::effect::effects_view(
                before,
            ).push(added[i]));
            assert(start + added.take(i + 1) =~= (start + added.take(i)).push(added[i]));
        }
    }
    assert(added.take(added.len() as int) =~= added);
}

/// Takes one of the attempts that are left; the answer where none is.
pub fn take_attempt(attempts_left: &mut usize) -> (r: Option<Reply>)
    ensures
        match r {
            Some(reply) => {
                &&& *old(attempts_left) == 0
                &&& *final(attempts_left) == 0
                &&& reply@ == crate::effect::exhausted_reply()
            },
            None => *old(attempts_left) > 0 && *final(attempts_left) == *old(attempts_left) - 1,
        },
{
    if *attempts_left == 0 {
        Some(crate::effect::text_reply(429, "all keys exhausted after retries"))
    } else {
        *attempts_left = *attempts_left - 1;
        None
    }
}

/// A request gets at least one attempt, and at most eight.
pub proof fn law_attempts_are_bounded(keys: usize)
    ensures
        1 <= attempts_for(keys) <= MAX_RETRIES,
        keys > 0 ==> attempts_for(keys) <= keys,
{
}

/// A request gets an attempt for each key, up to eight, and one where there is no key.
pub proof fn law_each_key_is_an_attempt(keys: usize)
    ensures
        keys == 0 ==> attempts_for(keys) == 1,
        1 <= keys <= 8 ==> attempts_for(keys) == keys,
        keys > 8 ==> attempts_for(keys) == 8,
{
}

/// The first digit of a status tells success from the server's failure.
pub proof fn law_first_digit_tells(status: u16)
    ensures
        success_status(status) <==> status / 100 == 2,
        server_error_status(status) <==> status / 100 == 5,
{
}

/// An error rejects the request's shape where it names the status and one of the four phrases,
/// in whatever order and surroundings; without the status, or without every phrase, it does not.
pub proof fn law_rejections_name_status_and_reason(
    error: Seq<char>,
    phrase: Seq<char>,
    before: Seq<char>,
    behind: Seq<char>,
)
    requires
        phrase == "Invalid assistant message"@ || phrase == "invalid assistant"@ || phrase
            == "tool_calls=None"@ || phrase == "BadRequestError"@,
    ensures
        !has_text(error, "HTTP 400"@) ==> !hard_model_error(error),
        !has_text(error, "Invalid assistant message"@) && !has_text(error, "invalid assistant"@)
            && !has_text(error, "tool_calls=None"@) && !has_text(error, "BadRequestError"@)
            ==> !hard_model_error(error),
        has_text(error, "HTTP 400"@) ==> hard_model_error(before + phrase + error),
        has_text(error, "HTTP 400"@) ==> hard_model_error(error + phrase + behind),
        hard_model_error(error) ==> hard_model_error(before + error + behind),
{
    let none = Seq::<char>::empty();
    law_text_is_a_part(before + phrase + error, phrase);
    law_text_is_a_part(error + phrase + behind, phrase);
    if has_text(error, "HTTP 400"@) {
        law_longer_text_keeps_its_parts(before + phrase, error, none, "HTTP 400"@);
        assert(before + phrase + error + none =~= before + phrase + error);
        law_longer_text_keeps_its_parts(none, error, phrase + behind, "HTTP 400"@);
        assert(none + error + (phrase + behind) =~= error + phrase + behind);
        law_longer_text_keeps_its_parts(before, error, behind, "HTTP 400"@);
    }
    if has_text(error, "Invalid assistant message"@) {
        law_longer_text_keeps_its_parts(before, error, behind, "Invalid assistant message"@);
    }
    if has_text(error, "invalid assistant"@) {
        law_longer_text_keeps_its_parts(before, error, behind, "invalid assistant"@);
    }
    if has_text(error, "tool_calls=None"@) {
        law_longer_text_keeps_its_parts(before, error, behind, "tool_calls=None"@);
    }
    if has_text(error, "BadRequestError"@) {
        law_longer_text_keeps_its_parts(before, error, behind, "BadRequestError"@);
    }
}

} // verus!
