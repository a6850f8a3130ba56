//! What holds of what is read out of requests and answers.

use vstd::prelude::*;
use vstd::utf8::{decode_utf8, decode_utf8_encode_utf8, valid_utf8};

use crate::chat::{chat_step, ChatActionView, ChatEvent, ChatFlow, ChatPhase};
use crate::cli::{law_decimal_has_no_leading_zero, law_decimal_reads_back};
use crate::effect::Effect;
use crate::json::{JsonView, Num};
use crate::metrics::{counted, no_counts, wins_of, MetricsView};
use crate::mistral::IdRemark;
use crate::number::{decimal, parsed_unsigned};
use crate::passthrough::{pass_step, PassActionView, PassEvent, PassPhase, Passthrough};
use crate::repetition::{
    law_repetitions_are_bounded, phrase_repeats, phrases_from, repeats_below, repeats_of_length,
    repetitions, same_phrase,
};
use crate::samples::{count_within, is_p95, kept, sampled, samples_of, WINDOW};
use crate::state::AppState;
use crate::text::{is_whitespace, lowercase_of, split_words, words_of};
use crate::turn::{
    contents_length, output_calls_tools, output_tokens, prompt_size, tool_uses, turn_summary,
};
use crate::upstream::{
    answer_effect, pause_asked, remark_effects, BodyOutcome, KeyUse, ResponseHead,
};
use crate::wire::{json_parse, json_text};

verus! {

// ---------------------------------------------------------------------------------------
// The pause that upstream asks for
// ---------------------------------------------------------------------------------------

/// A key pauses for as many seconds as upstream writes down, and for a minute where it writes
/// nothing, or anything that is no number.
pub proof fn law_pause_is_what_upstream_writes(header: Option<String>, n: u64, i: int)
    ensures
        header is None ==> pause_asked(header) == 60,
        header matches Some(t) ==> {
            &&& t@ == decimal(n as nat) ==> pause_asked(header) == n
            &&& t@.len() == 0 ==> pause_asked(header) == 60
            &&& 0 < i < t@.len() && !('0' <= t@[i] <= '9') ==> pause_asked(header) == 60
        },
{
    law_decimal_reads_back(n as nat, u64::MAX as nat);
    if let Some(t) = header {
        if 0 < i < t@.len() && !('0' <= t@[i] <= '9') {
            let digits = if t@[0] == '+' {
                t@.skip(1)
            } else {
                t@
            };
            let k = if t@[0] == '+' {
                i - 1
            } else {
                i
            };
            assert(digits[k] == t@[i]);
            assert(!crate::number::all_digits(digits));
        }
    }
}

// ---------------------------------------------------------------------------------------
// Answers
// ---------------------------------------------------------------------------------------

/// The number of tokens that a response reports, where it reports any.
pub open spec fn tokens_reported(j: JsonView, n: u64) -> bool {
    j.get("usage"@) matches Some(u) && u.get("completion_tokens"@) == Some(
        JsonView::Number(Num::Unsigned(n)),
    )
}

/// Whether a response calls a tool: a message among its choices has tool calls.
pub open spec fn tool_called(j: JsonView) -> bool {
    j.get("choices"@) matches Some(JsonView::Arr(choices)) && exists|i: int|
        0 <= i < choices.len() && ((#[trigger] choices[i]).get("message"@) matches Some(m)
            && m.get("tool_calls"@) is Some)
}

/// The output tokens of a response are those that it reports; a quarter of its bytes where it
/// reports none, or zero, or is not JSON.
pub proof fn law_output_tokens(json: Option<JsonView>, bytes: usize, n: u64)
    requires
        bytes <= u32::MAX,
    ensures
        json matches Some(j) ==> {
            &&& tokens_reported(j, n) && 0 < n <= u32::MAX ==> output_tokens(json, bytes) == n
            &&& tokens_reported(j, 0) ==> output_tokens(json, bytes) == bytes / 4
            &&& (forall|k: u64| !tokens_reported(j, k)) ==> output_tokens(json, bytes) == bytes / 4
        },
        json is None ==> output_tokens(json, bytes) == bytes / 4,
{
    if let Some(j) = json {
        if forall|k: u64| !tokens_reported(j, k) {
            if let Some(k) = crate::turn::reported_tokens(j) {
                assert(tokens_reported(j, k));
            }
        }
    }
}

/// A response calls a tool exactly where it is JSON and a message among its choices does.
pub proof fn law_output_tool_calls(json: Option<JsonView>)
    ensures
        output_calls_tools(json) <==> (json matches Some(j) && tool_called(j)),
{
    if let Some(j) = json {
        if let Some(JsonView::Arr(choices)) = j.get("choices"@) {
            if tool_called(j) {
                let i = choose|i: int|
                    0 <= i < choices.len() && ((#[trigger] choices[i]).get("message"@) matches Some(
                        m,
                    ) && m.get("tool_calls"@) is Some);
                assert(crate::turn::choice_calls_tools(choices[i]));
            }
            if output_calls_tools(json) {
                let i = choose|i: int|
                    0 <= i < choices.len() && crate::turn::choice_calls_tools(
                        #[trigger] choices[i],
                    );
                assert(choices[i].get("message"@) is Some);
            }
        }
    }
}

/// A chat answer that reports its tokens is noted with them, with how often it repeats itself and
/// with whether it calls a tool.
pub proof fn law_chat_answers_are_looked_at(
    before: ChatFlow,
    key: KeyUse,
    limit_ms: u64,
    ttfc_ms: u64,
    head: ResponseHead,
    bytes: Vec<u8>,
    json: JsonView,
    n: u64,
    state: AppState,
    after: ChatFlow,
    effects: Seq<Effect<Seq<char>>>,
    action: ChatActionView,
)
    requires
        before.phase == (ChatPhase::Body { key, limit_ms, ttfc_ms, head }),
        chat_step(
            before,
            ChatEvent::Read(BodyOutcome::Read(bytes)),
            state,
            after,
            effects,
            action,
        ),
        head.status != 400,
        valid_utf8(bytes@),
        json_parse(bytes@) == Some(json),
        tokens_reported(json, n),
        0 < n <= u32::MAX,
    ensures
        effects[0] matches Effect::ModelQuality {
            model,
            latency_ms,
            ok,
            output_tokens,
            repetitions: repeats,
            tool_call,
        } && model == before.turn.exchange.responding_model@ && latency_ms == ttfc_ms && ok == (200
            <= head.status <= 299) && output_tokens == n && tool_call == tool_called(json) && repeats
            == repetitions(words_of(lowercase_of(decode_utf8(bytes@)))),
{
    decode_utf8_encode_utf8(bytes@);
    law_output_tool_calls(Some(json));
    law_repetitions_are_bounded(words_of(lowercase_of(decode_utf8(bytes@))));
}

/// The answer to a legacy completion that reports its tokens is noted with them, with how often it
/// repeats itself and with whether it calls a tool; the answer to a request for embeddings is not
/// looked at.
pub proof fn law_passed_answers_are_looked_at(
    before: Passthrough,
    key: KeyUse,
    ttfc_ms: u64,
    head: ResponseHead,
    bytes: Vec<u8>,
    json: JsonView,
    n: u64,
    after: Passthrough,
    effects: Seq<Effect<Seq<char>>>,
    action: PassActionView,
)
    requires
        before.phase == (PassPhase::Body { key, ttfc_ms, head }),
        pass_step(before, PassEvent::Read(Ok(bytes)), after, effects, action),
        valid_utf8(bytes@),
        json_parse(bytes@) == Some(json),
        tokens_reported(json, n),
        0 < n <= u32::MAX,
    ensures
        before.inspects ==> (effects[0] matches Effect::ModelQuality {
            model,
            latency_ms,
            ok,
            output_tokens,
            repetitions: repeats,
            tool_call,
        } && model == before.model@ && latency_ms == ttfc_ms && ok == (200 <= head.status <= 299)
            && output_tokens == n && tool_call == tool_called(json) && repeats == repetitions(
            words_of(lowercase_of(decode_utf8(bytes@))),
        )),
        !before.inspects ==> effects[0] is ModelOutcome,
{
    decode_utf8_encode_utf8(bytes@);
    law_output_tool_calls(Some(json));
    law_repetitions_are_bounded(words_of(lowercase_of(decode_utf8(bytes@))));
}

// ---------------------------------------------------------------------------------------
// Repetitions
// ---------------------------------------------------------------------------------------

/// Whether the `n` words from `i` on are said once more right behind themselves.
pub open spec fn said_again(words: Seq<Seq<char>>, n: nat, i: int) -> bool {
    &&& 0 <= i
    &&& i + 2 * n <= words.len()
    &&& words.subrange(i, i + n) == words.subrange(i + n, i + 2 * n)
}

proof fn lemma_same_phrase(words: Seq<Seq<char>>, n: nat, i: int, j: int)
    requires
        0 <= i,
        0 <= j,
        i + n <= words.len(),
        j + n <= words.len(),
    ensures
        same_phrase(words, n, i, j) == (words.subrange(i, i + n) == words.subrange(j, j + n)),
{
    let a = words.subrange(i, i + n);
    let b = words.subrange(j, j + n);
    if same_phrase(words, n, i, j) {
        assert forall|k: int| 0 <= k < n implies a[k] == b[k] by {
            assert(words[i + k] == words[j + k]);
        }
        assert(a =~= b);
    }
    if a == b {
        assert forall|k: int| 0 <= k < n implies words[i + k] == #[trigger] words[j + k] by {
            assert(a[k] == words[i + k]);
            assert(b[k] == words[j + k]);
        }
    }
}

proof fn lemma_phrase_repeats(words: Seq<Seq<char>>, n: nat, k: nat, i: int)
    ensures
        0 <= i < k ==> phrases_from(words, n, i, i + n) <= phrase_repeats(words, n, k),
        phrase_repeats(words, n, k) > 0 ==> exists|j: int|
            0 <= j < k && #[trigger] phrases_from(words, n, j, j + n) > 0,
    decreases k,
{
    if k > 0 {
        let m = (k - 1) as nat;
        lemma_phrase_repeats(words, n, m, i);
        if phrase_repeats(words, n, k) > 0 {
            if phrase_repeats(words, n, m) > 0 {
                let j = choose|j: int|
                    0 <= j < m && #[trigger] phrases_from(words, n, j, j + n) > 0;
                assert(0 <= j < k && phrases_from(words, n, j, j + n) > 0);
            } else {
                assert(phrases_from(words, n, k - 1, k - 1 + n) > 0);
            }
        }
    }
}

proof fn lemma_repeats_below(words: Seq<Seq<char>>)
    ensures
        repeats_below(words, 7) == repeats_of_length(words, 3) + repeats_of_length(words, 4)
            + repeats_of_length(words, 5) + repeats_of_length(words, 6),
{
    reveal_with_fuel(repeats_below, 6);
}

/// A text repeats itself exactly where a phrase of three, four, five or six words is said once
/// more right behind itself.
pub proof fn law_repetition_is_a_phrase_said_again(words: Seq<Seq<char>>)
    ensures
        repetitions(words) > 0 <==> exists|n: nat, i: int|
            3 <= n <= 6 && #[trigger] said_again(words, n, i),
{
    lemma_repeats_below(words);
    if repetitions(words) > 0 {
        let n: nat = if repeats_of_length(words, 3) > 0 {
            3
        } else if repeats_of_length(words, 4) > 0 {
            4
        } else if repeats_of_length(words, 5) > 0 {
            5
        } else {
            6
        };
        assert(repeats_of_length(words, n) > 0);
        let k = (words.len() - n) as nat;
        lemma_phrase_repeats(words, n, k, 0);
        let j = choose|j: int| 0 <= j < k && #[trigger] phrases_from(words, n, j, j + n) > 0;
        lemma_same_phrase(words, n, j, j + n);
        assert(said_again(words, n, j));
    }
    if exists|n: nat, i: int| 3 <= n <= 6 && #[trigger] said_again(words, n, i) {
        let (n, i) = choose|n: nat, i: int| 3 <= n <= 6 && #[trigger] said_again(words, n, i);
        lemma_same_phrase(words, n, i, i + n);
        assert(phrases_from(words, n, i, i + n) > 0);
        lemma_phrase_repeats(words, n, (words.len() - n) as nat, i);
        assert(repeats_of_length(words, n) > 0);
        assert(repeats_of_length(words, 3) > 0 || repeats_of_length(words, 4) > 0
            || repeats_of_length(words, 5) > 0 || repeats_of_length(words, 6) > 0);
    }
}

proof fn lemma_phrases_in_a_row(words: Seq<Seq<char>>, n: nat, i: int, j: int, count: nat)
    requires
        0 < n,
        0 <= i,
        i + n <= words.len(),
        0 <= j,
        j + count * n <= words.len(),
        forall|t: int|
            0 <= t < count ==> #[trigger] words.subrange(j + t * n, j + t * n + n)
                == words.subrange(i, i + n),
    ensures
        phrases_from(words, n, i, j) >= count,
    decreases count,
{
    if count > 0 {
        let less = (count - 1) as nat;
        assert(count * n == less * n + n) by (nonlinear_arith)
            requires
                less + 1 == count,
        ;
        assert(less * n >= 0) by (nonlinear_arith);
        assert(0 * n == 0) by (nonlinear_arith);
        assert(words.subrange(j + 0 * n, j + 0 * n + n) == words.subrange(i, i + n));
        lemma_same_phrase(words, n, i, j);
        assert forall|t: int| 0 <= t < less implies #[trigger] words.subrange(
            j + n + t * n,
            j + n + t * n + n,
        ) == words.subrange(i, i + n) by {
            assert((t + 1) * n == t * n + n) by (nonlinear_arith);
            assert(words.subrange(j + (t + 1) * n, j + (t + 1) * n + n) == words.subrange(i, i + n));
        }
        lemma_phrases_in_a_row(words, n, i, j + n, less);
    }
}

/// A phrase that is said so many times more, right behind itself, counts at least so often, up
/// to ten.
pub proof fn law_every_repetition_counts(words: Seq<Seq<char>>, n: nat, i: int, count: nat)
    requires
        3 <= n <= 6,
        0 <= i,
        count > 0,
        i + n + count * n <= words.len(),
        forall|t: int|
            0 <= t < count ==> #[trigger] words.subrange(i + n + t * n, i + n + t * n + n)
                == words.subrange(i, i + n),
    ensures
        count <= 10 ==> repetitions(words) >= count,
        count > 10 ==> repetitions(words) == 10,
{
    assert(count * n >= n) by (nonlinear_arith)
        requires
            count >= 1,
            n >= 0,
    ;
    lemma_phrases_in_a_row(words, n, i, i + n, count);
    lemma_phrase_repeats(words, n, (words.len() - n) as nat, i);
    lemma_repeats_below(words);
    assert(repeats_of_length(words, n) >= count);
    assert(n == 3 || n == 4 || n == 5 || n == 6);
}

// ---------------------------------------------------------------------------------------
// Requests
// ---------------------------------------------------------------------------------------

/// Tool uses add up over a conversation: a message counts the tool calls that it makes, and one
/// more where it is a tool's.
pub proof fn law_tool_uses_add_up(a: Seq<JsonView>, b: Seq<JsonView>, msg: JsonView)
    ensures
        tool_uses(a + b) == tool_uses(a) + tool_uses(b),
        tool_uses(seq![msg]) == (match msg.get("tool_calls"@) {
            Some(JsonView::Arr(calls)) => calls.len() as int,
            _ => 0,
        }) + (if msg.get("role"@) == Some(JsonView::Str("tool"@)) {
            1int
        } else {
            0
        }),
    decreases b.len(),
{
    reveal_with_fuel(tool_uses, 2);
    assert(seq![msg].drop_last() =~= Seq::<JsonView>::empty());
    if b.len() == 0 {
        assert(a + b =~= a);
    } else {
        law_tool_uses_add_up(a, b.drop_last(), msg);
        assert((a + b).drop_last() =~= a + b.drop_last());
        assert((a + b).last() == b.last());
    }
}

/// The summary of a request counts its messages and its tool uses, and tells whether there are
/// any; all of it is zero where the request is not JSON or has no list of messages.
pub proof fn law_turn_summary(json: Option<JsonView>)
    ensures
        json matches Some(j) ==> (j.get("messages"@) matches Some(JsonView::Arr(messages)) ==> {
            let (count, tools, uses) = turn_summary(json);
            &&& messages.len() <= usize::MAX ==> count == messages.len()
            &&& tools <==> tool_uses(messages) > 0
            &&& tool_uses(messages) <= usize::MAX ==> uses == tool_uses(messages)
        }),
        json is None ==> turn_summary(json) == (0usize, false, 0usize),
        json matches Some(j) ==> !(j.get("messages"@) matches Some(JsonView::Arr(_)))
            ==> turn_summary(json) == (0usize, false, 0usize),
{
}

/// The size of a prompt adds up over its messages: each counts the length of its content as
/// JSON text, and nothing where it has none.
pub proof fn law_prompt_sizes_add_up(a: Seq<JsonView>, b: Seq<JsonView>, msg: JsonView)
    ensures
        contents_length(a + b) == contents_length(a) + contents_length(b),
        contents_length(seq![msg]) == (match msg.get("content"@) {
            Some(content) => json_text(content).len() as int,
            None => 0,
        }),
    decreases b.len(),
{
    reveal_with_fuel(contents_length, 2);
    assert(seq![msg].drop_last() =~= Seq::<JsonView>::empty());
    if b.len() == 0 {
        assert(a + b =~= a);
    } else {
        law_prompt_sizes_add_up(a, b.drop_last(), msg);
        assert((a + b).drop_last() =~= a + b.drop_last());
        assert((a + b).last() == b.last());
    }
}

/// The size of the prompt of a request is that of its messages; zero where it has none.
pub proof fn law_prompt_size(json: Option<JsonView>)
    ensures
        json matches Some(j) ==> (j.get("messages"@) matches Some(JsonView::Arr(messages)) ==> (
        contents_length(messages) <= usize::MAX ==> prompt_size(json) == contents_length(messages))),
        json matches Some(j) ==> !(j.get("messages"@) matches Some(JsonView::Arr(_)))
            ==> prompt_size(json) == 0,
        json is None ==> prompt_size(json) == 0,
{
}

// ---------------------------------------------------------------------------------------
// Counters
// ---------------------------------------------------------------------------------------

/// Every effect is counted once, where it belongs, and changes no other counter.
pub proof fn law_effects_are_counted(m: MetricsView, e: Effect<Seq<char>>, n: usize, model: Seq<char>)
    requires
        m.request_total < u64::MAX,
        m.direct_requests < u64::MAX,
        m.racing_requests < u64::MAX,
        m.overload_rejects < u64::MAX,
        m.no_key_rejects < u64::MAX,
        m.timeout_count < u64::MAX,
        m.rate_limit_count < u64::MAX,
        m.fanout_total + n <= u64::MAX,
        m.fanout_samples < u64::MAX,
        m.solo_fallbacks < u64::MAX,
        m.sequential_fallbacks < u64::MAX,
        m.racing_all_failed < u64::MAX,
        m.racing_deadline_exceeded < u64::MAX,
        wins_of(m.racing_wins, model) < u64::MAX,
    ensures
        counted(m, Effect::Request { racing: true }) == (MetricsView {
            request_total: (m.request_total + 1) as u64,
            racing_requests: (m.racing_requests + 1) as u64,
            ..m
        }),
        counted(m, Effect::Request { racing: false }) == (MetricsView {
            request_total: (m.request_total + 1) as u64,
            direct_requests: (m.direct_requests + 1) as u64,
            ..m
        }),
        counted(m, Effect::Timeout) == (MetricsView {
            timeout_count: (m.timeout_count + 1) as u64,
            ..m
        }),
        counted(m, Effect::DeadlineExceeded) == (MetricsView {
            racing_deadline_exceeded: (m.racing_deadline_exceeded + 1) as u64,
            ..m
        }),
        counted(m, Effect::Overload) == (MetricsView {
            overload_rejects: (m.overload_rejects + 1) as u64,
            ..m
        }),
        counted(m, Effect::NoKey) == (MetricsView {
            no_key_rejects: (m.no_key_rejects + 1) as u64,
            ..m
        }),
        counted(m, Effect::RateLimit) == (MetricsView {
            rate_limit_count: (m.rate_limit_count + 1) as u64,
            ..m
        }),
        counted(m, Effect::SoloFallback) == (MetricsView {
            solo_fallbacks: (m.solo_fallbacks + 1) as u64,
            ..m
        }),
        counted(m, Effect::SequentialFallback) == (MetricsView {
            sequential_fallbacks: (m.sequential_fallbacks + 1) as u64,
            ..m
        }),
        counted(m, Effect::AllRacersFailed) == (MetricsView {
            racing_all_failed: (m.racing_all_failed + 1) as u64,
            ..m
        }),
        counted(m, Effect::Fanout(n)) == (MetricsView {
            fanout_total: (m.fanout_total + n) as u64,
            fanout_samples: (m.fanout_samples + 1) as u64,
            ..m
        }),
        counted(m, Effect::RacingWin(model)) == (MetricsView {
            racing_wins: counted(m, Effect::RacingWin(model)).racing_wins,
            ..m
        }),
        wins_of(counted(m, Effect::RacingWin(model)).racing_wins, model) == wins_of(
            m.racing_wins,
            model,
        ) + 1,
        forall|other: Seq<char>|
            other != model ==> #[trigger] wins_of(
                counted(m, Effect::RacingWin(model)).racing_wins,
                other,
            ) == wins_of(m.racing_wins, other),
        e is KeyRateLimited || e is KeyThrottled || e is KeySucceeded || e is ModelOutcome
            || e is ModelTimeout || e is ModelQuality || e is HardError || e is ServerDegraded
            || e is Turn || e is Remark ==> counted(m, e) == m,
{
}

// ---------------------------------------------------------------------------------------
// Latencies
// ---------------------------------------------------------------------------------------

/// The window of a model's latencies holds the latest of them in their order: each moves one
/// place to the front when the window is full, and none does while it is not.
pub proof fn law_window_holds_the_latest(samples: Seq<u64>, ms: u64, i: int)
    requires
        samples.len() <= WINDOW,
        0 <= i < samples.len(),
    ensures
        kept(samples, ms).last() == ms,
        samples.len() < WINDOW ==> kept(samples, ms).len() == samples.len() + 1 && kept(
            samples,
            ms,
        )[i] == samples[i],
        samples.len() == WINDOW ==> kept(samples, ms).len() == WINDOW && (i > 0 ==> kept(
            samples,
            ms,
        )[i - 1] == samples[i]),
        WINDOW == 200,
{
}

/// An effect adds the latency that it tells of to its model's window, and changes no other.
pub proof fn law_latencies_are_kept(
    all: Map<Seq<char>, Seq<u64>>,
    e: Effect<Seq<char>>,
    other: Seq<char>,
)
    ensures
        match e {
            Effect::ModelOutcome { model, latency_ms, .. } => samples_of(sampled(all, e), model)
                == kept(samples_of(all, model), latency_ms) && (other != model ==> samples_of(
                sampled(all, e),
                other,
            ) == samples_of(all, other)),
            Effect::ModelQuality { model, latency_ms, .. } => samples_of(sampled(all, e), model)
                == kept(samples_of(all, model), latency_ms) && (other != model ==> samples_of(
                sampled(all, e),
                other,
            ) == samples_of(all, other)),
            Effect::ModelTimeout { model, elapsed_ms, .. } => samples_of(sampled(all, e), model)
                == kept(samples_of(all, model), elapsed_ms) && (other != model ==> samples_of(
                sampled(all, e),
                other,
            ) == samples_of(all, other)),
            _ => sampled(all, e) == all,
        },
{
}

// ---------------------------------------------------------------------------------------
// What is noted
// ---------------------------------------------------------------------------------------

/// An answer of which anything can be said is noted with all of it: its tokens, its repetitions
/// and its tool calls. Any other is noted with the label of its key.
pub proof fn law_quality_is_noted(
    model: Seq<char>,
    key_label: Option<Seq<char>>,
    latency_ms: u64,
    ok: bool,
    tokens: u32,
    repeats: u32,
    calls: bool,
)
    ensures
        tokens > 0 || repeats > 0 ==> answer_effect(
            model,
            key_label,
            latency_ms,
            ok,
            (tokens, repeats, calls),
        ) == (Effect::ModelQuality {
            model,
            latency_ms,
            ok,
            output_tokens: tokens,
            repetitions: repeats,
            tool_call: calls,
        }),
        tokens == 0 && repeats == 0 ==> answer_effect(
            model,
            key_label,
            latency_ms,
            ok,
            (tokens, repeats, calls),
        ) == (Effect::ModelOutcome { model, key_label, latency_ms, ok }),
{
}

/// Every remark on a request is noted, in its order.
pub proof fn law_remarks_are_noted(remarks: Seq<IdRemark<Seq<char>>>, i: int)
    requires
        0 <= i < remarks.len(),
    ensures
        remark_effects(remarks).len() == remarks.len(),
        remark_effects(remarks)[i] == Effect::Remark(remarks[i]),
{
}

// ---------------------------------------------------------------------------------------
// Words and numbers
// ---------------------------------------------------------------------------------------

/// Words are what stands between white space: none in an empty text, the whole of a text without
/// white space, and those of both parts of a text that white space parts.
pub proof fn law_words_stand_between_white_space(a: Seq<char>, c: char, b: Seq<char>)
    requires
        is_whitespace(c),
    ensures
        words_of(Seq::empty()) == Seq::<Seq<char>>::empty(),
        a.len() > 0 && (forall|i: int| 0 <= i < a.len() ==> !is_whitespace(#[trigger] a[i]))
            ==> words_of(a) == seq![a],
        words_of(a.push(c) + b) == words_of(a) + words_of(b),
{
    assert(words_of(Seq::empty()) =~= Seq::<Seq<char>>::empty());
    if a.len() > 0 && forall|i: int| 0 <= i < a.len() ==> !is_whitespace(#[trigger] a[i]) {
        lemma_one_word(a);
        assert(Seq::<Seq<char>>::empty().push(a) =~= seq![a]);
    }
    lemma_split_behind(a, c, b);
    let (words, current) = split_words(b);
    assert(words_of(a) + words.push(current) =~= (words_of(a) + words).push(current));
}

proof fn lemma_one_word(a: Seq<char>)
    requires
        forall|i: int| 0 <= i < a.len() ==> !is_whitespace(#[trigger] a[i]),
    ensures
        split_words(a) == (Seq::<Seq<char>>::empty(), a),
    decreases a.len(),
{
    if a.len() > 0 {
        let rest = a.drop_last();
        assert forall|i: int| 0 <= i < rest.len() implies !is_whitespace(#[trigger] rest[i]) by {
            assert(rest[i] == a[i]);
        }
        lemma_one_word(rest);
        assert(!is_whitespace(a[a.len() - 1]));
        assert(rest.push(a.last()) =~= a);
    } else {
        assert(a =~= Seq::empty());
    }
}

proof fn lemma_split_behind(a: Seq<char>, c: char, b: Seq<char>)
    requires
        is_whitespace(c),
    ensures
        split_words(a.push(c) + b) == (words_of(a) + split_words(b).0, split_words(b).1),
    decreases b.len(),
{
    let s = a.push(c) + b;
    if b.len() == 0 {
        assert(s =~= a.push(c));
        assert(s.drop_last() =~= a);
        assert(words_of(a) + Seq::<Seq<char>>::empty() =~= words_of(a));
        let (words, current) = split_words(a);
        if current.len() == 0 {
            assert(current =~= Seq::empty());
        }
    } else {
        let rest = b.drop_last();
        lemma_split_behind(a, c, rest);
        assert(s.drop_last() =~= a.push(c) + rest);
        assert(s.last() == b.last());
        let (words, current) = split_words(rest);
        assert(words_of(a) + words.push(current) =~= (words_of(a) + words).push(current));
    }
}

/// White space is the blank, the five controls from the tab to the carriage return, the next
/// line, and the blanks and separators of the other blocks of Unicode.
pub proof fn law_white_space(c: char)
    ensures
        is_whitespace(c) <==> seq![
            0x9u32,
            0xa,
            0xb,
            0xc,
            0xd,
            0x20,
            0x85,
            0xa0,
            0x1680,
            0x2000,
            0x2001,
            0x2002,
            0x2003,
            0x2004,
            0x2005,
            0x2006,
            0x2007,
            0x2008,
            0x2009,
            0x200a,
            0x2028,
            0x2029,
            0x202f,
            0x205f,
            0x3000,
        ].contains(c as u32),
{
    let list = seq![
        0x9u32,
        0xa,
        0xb,
        0xc,
        0xd,
        0x20,
        0x85,
        0xa0,
        0x1680,
        0x2000,
        0x2001,
        0x2002,
        0x2003,
        0x2004,
        0x2005,
        0x2006,
        0x2007,
        0x2008,
        0x2009,
        0x200a,
        0x2028,
        0x2029,
        0x202f,
        0x205f,
        0x3000,
    ];
    let n = c as u32;
    if is_whitespace(c) {
        let k: int = if n <= 0xd {
            n - 0x9
        } else if n == 0x20 {
            5
        } else if n == 0x85 {
            6
        } else if n == 0xa0 {
            7
        } else if n == 0x1680 {
            8
        } else if n <= 0x200a {
            9 + (n - 0x2000)
        } else if n == 0x2028 {
            20
        } else if n == 0x2029 {
            21
        } else if n == 0x202f {
            22
        } else if n == 0x205f {
            23
        } else {
            24
        };
        assert(list[k] == n);
    }
    if list.contains(n) {
        let k = choose|k: int| 0 <= k < list.len() && list[k] == n;
        assert(0 <= k < 25);
    }
}

/// A number is read from its digits, with or without a plus sign in front; a text that is empty,
/// holds anything else, or says more than the most is no number.
pub proof fn law_numbers_are_read(n: nat, max: nat, text: Seq<char>, i: int)
    ensures
        n <= max ==> parsed_unsigned(decimal(n), max) == Some(n),
        n <= max ==> parsed_unsigned(seq!['+'] + decimal(n), max) == Some(n),
        n > max ==> parsed_unsigned(decimal(n), max) is None,
        text.len() == 0 ==> parsed_unsigned(text, max) is None,
        0 <= i < text.len() && !('0' <= text[i] <= '9') && (i > 0 || text[i] != '+')
            ==> parsed_unsigned(text, max) is None,
{
    let d = decimal(n);
    law_decimal_reads_back(n, n);
    law_decimal_has_no_leading_zero(n);
    assert('0' <= d[0] <= '9');
    assert((seq!['+'] + d).skip(1) =~= d);
    if 0 <= i < text.len() && !('0' <= text[i] <= '9') && (i > 0 || text[i] != '+') {
        if text[0] == '+' {
            assert(text.skip(1)[i - 1] == text[i]);
            assert(!crate::number::all_digits(text.skip(1)));
        } else {
            assert(!crate::number::all_digits(text));
        }
    }
}

// ---------------------------------------------------------------------------------------
// The latency that most stay within
// ---------------------------------------------------------------------------------------

/// Latencies within a limit are counted over parts of a window as over the whole of it.
pub proof fn law_latencies_within_add_up(a: Seq<u64>, b: Seq<u64>, sample: u64, ms: u64)
    ensures
        count_within(a + b, ms) == count_within(a, ms) + count_within(b, ms),
        count_within(seq![sample], ms) == (if sample <= ms {
            1int
        } else {
            0
        }),
        count_within(a, ms) <= a.len(),
    decreases b.len(), a.len(),
{
    reveal_with_fuel(count_within, 2);
    assert(seq![sample].drop_last() =~= Seq::<u64>::empty());
    if a.len() > 0 {
        lemma_count_is_bounded(a, ms);
    }
    if b.len() == 0 {
        assert(a + b =~= a);
    } else {
        law_latencies_within_add_up(a, b.drop_last(), sample, ms);
        assert((a + b).drop_last() =~= a + b.drop_last());
        assert((a + b).last() == b.last());
    }
}

proof fn lemma_count_is_bounded(a: Seq<u64>, ms: u64)
    ensures
        count_within(a, ms) <= a.len(),
    decreases a.len(),
{
    if a.len() > 0 {
        lemma_count_is_bounded(a.drop_last(), ms);
    }
}

/// At most one of twenty latencies is above the one that most stay within, and more than that are
/// above any smaller one of the window.
pub proof fn law_few_latencies_are_above(samples: Seq<u64>, ms: u64, i: int)
    requires
        is_p95(samples, ms),
        0 <= i < samples.len(),
    ensures
        samples.contains(ms),
        (samples.len() - count_within(samples, ms)) * 20 <= samples.len(),
        samples[i] < ms ==> (samples.len() - count_within(samples, samples[i])) * 20
            > samples.len(),
{
}

/// Nothing is counted before the first effect.
pub proof fn law_counters_start_at_zero()
    ensures
        no_counts().request_total == 0,
        no_counts().direct_requests == 0,
        no_counts().racing_requests == 0,
        no_counts().upstream_attempts == 0,
        no_counts().overload_rejects == 0,
        no_counts().no_key_rejects == 0,
        no_counts().timeout_count == 0,
        no_counts().rate_limit_count == 0,
        no_counts().fanout_total == 0,
        no_counts().fanout_samples == 0,
        no_counts().solo_fallbacks == 0,
        no_counts().sequential_fallbacks == 0,
        no_counts().racing_all_failed == 0,
        no_counts().racing_deadline_exceeded == 0,
        forall|model: Seq<char>| #[trigger] wins_of(no_counts().racing_wins, model) == 0,
{
}

} // verus!
