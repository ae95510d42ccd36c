//! The summarize stage: prompt construction with a byte budget, parsing of the
//! model's reply into bullet points and a quote, and the per-item retry policy.

use vstd::prelude::*;
use crate::model::{opt_view, strings_view, Summary, SummaryView};
use crate::retry::{exp_backoff, exp_backoff_ms};
use crate::text::{
    chars_of, char_is_white, contains, decimal, fold_lines, push_decimal, str_contains, is_white, lemma_fold_lines_step, line_end, push_text,
    range_starts_with, starts_with, string_of, trim, trim_bounds,
};

verus! {

/// Byte budget for the article text placed in a prompt.
pub const PROMPT_TEXT_BUDGET: usize = 10000;
/// Attempts made per article before giving up.
pub const SUMMARIZE_MAX_ATTEMPTS: u32 = 5;
/// Base of the exponential backoff after an ordinary error.
pub const SUMMARIZE_BACKOFF_BASE_MS: u64 = 1000;
/// Step of the linear backoff after a rate-limit error.
pub const RATE_LIMIT_STEP_MS: u64 = 15000;
/// Pause after each successful call, before the slot is released.
pub const SETTLE_DELAY_MS: u64 = 500;
/// Requests allowed in flight at once; the model service limits tokens per minute.
pub const SUMMARIZE_CONCURRENCY: usize = 2;
/// Number of bullet points a summary must have.
pub const BULLET_COUNT: usize = 5;

pub const QUOTE_TAG: &'static str = "QUOTE:";
pub const INSUFFICIENT_MARKER: &'static str = "Insufficient content for summary";
pub const RATE_LIMIT_MARKER: &'static str = "rate_limit";
pub const BULLET_COUNT_PREFIX: &'static str = "expected 5 bullets, got ";

pub const SUMMARY_PROMPT_HEAD: &'static str = "You are a text summarization specialist. Extract exactly 5 key points from the article below, and if there are any direct quotes, extract the most important one with attribution.

RULES:
1. Each point must be under 20 words
2. Use ONLY text from the article - no external knowledge
3. Each point must be supported by specific article content
4. If fewer than 5 valid points exist, respond with: \"Insufficient content for summary\"
5. Format: Bullet points using dashes (-)
6. Use only factual statements from the article text
7. If there are direct quotes in the article, select the most important one (often the first quote, but use your judgment)
8. The quote should be on a line starting with \"QUOTE: \" followed by the quote text in quotation marks and attribution
9. Format for quotes: QUOTE: \"quote text\" -- Speaker Name

Article:
";

pub const SUMMARY_PROMPT_TAIL: &'static str = "

Format your response as:
QUOTE: \"the most important quote if one exists\" -- Speaker Name
- First key point
- Second key point
- Third key point
- Fourth key point
- Fifth key point

If there are no quotes in the article, omit the QUOTE line entirely.
If there's a quote but no clear speaker attribution in the article, omit the QUOTE line.";

// ---------------------------------------------------------------- truncation

/// Number of bytes in the UTF-8 encoding of `c`.
pub open spec fn utf8_width(c: char) -> nat {
    if (c as u32) < 0x80 {
        1
    } else if (c as u32) < 0x800 {
        2
    } else if (c as u32) < 0x10000 {
        3
    } else {
        4
    }
}

/// Number of bytes in the UTF-8 encoding of `s`.
pub open spec fn utf8_len(s: Seq<char>) -> nat
    decreases s.len(),
{
    if s.len() == 0 {
        0
    } else {
        utf8_len(s.drop_last()) + utf8_width(s.last())
    }
}

/// `r` is the longest prefix of `s` whose encoding fits in `budget` bytes.
pub open spec fn is_budget_prefix(s: Seq<char>, budget: nat, r: Seq<char>) -> bool {
    &&& r.len() <= s.len()
    &&& r == s.subrange(0, r.len() as int)
    &&& utf8_len(r) <= budget
    &&& (r.len() == s.len() || utf8_len(s.subrange(0, r.len() + 1 as int)) > budget)
}

fn char_width(c: char) -> (r: usize)
    ensures
        r == utf8_width(c),
{
    let u = c as u32;
    if u < 0x80 {
        1
    } else if u < 0x800 {
        2
    } else if u < 0x10000 {
        3
    } else {
        4
    }
}

/// The longest prefix of `s` whose UTF-8 encoding fits in `budget` bytes; a character
/// is never split.
pub fn truncate_to_budget(s: &str, budget: usize) -> (r: String)
    ensures
        is_budget_prefix(s@, budget as nat, r@),
{
    let v = chars_of(s);
    let mut used: usize = 0;
    let mut i: usize = 0;
    let mut full = false;
    while i < v.len() && !full
        invariant
            0 <= i <= v.len(),
            v@ == s@,
            used == utf8_len(v@.subrange(0, i as int)),
            used <= budget,
            full ==> i < v.len() && utf8_len(v@.subrange(0, i + 1)) > budget,
        decreases v.len() - i + (if full { 0int } else { 1int }),
    {
        let w = char_width(v[i]);
        assert(v@.subrange(0, i + 1).drop_last() == v@.subrange(0, i as int));
        if w > budget - used {
            full = true;
        } else {
            used = used + w;
            i = i + 1;
        }
    }
    string_of(&v, 0, i)
}

/// The prompt that asks for a summary of `content`.
pub open spec fn summary_prompt_spec(content: Seq<char>, r: Seq<char>) -> bool {
    exists|t: Seq<char>|
        is_budget_prefix(content, PROMPT_TEXT_BUDGET as nat, t)
        && r == SUMMARY_PROMPT_HEAD@ + t + SUMMARY_PROMPT_TAIL@
}

/// Builds the summary request for an article, truncated to the prompt budget.
pub fn summary_prompt(content: &str) -> (r: String)
    ensures
        summary_prompt_spec(content@, r@),
{
    let t = truncate_to_budget(content, PROMPT_TEXT_BUDGET);
    let mut r = String::new();
    push_text(&mut r, SUMMARY_PROMPT_HEAD);
    push_text(&mut r, t.as_str());
    push_text(&mut r, SUMMARY_PROMPT_TAIL);
    r
}

// ---------------------------------------------------------------- reply parsing

pub uninterp spec fn numeric_char(c: char) -> bool;

/// Relies on `char::is_numeric`: whether `c` is in one of Unicode's number
/// categories (Nd, Nl, No), among them the ASCII digits.
#[verifier::external_body]
fn char_is_numeric(c: char) -> (r: bool)
    ensures
        r == numeric_char(c),
        '0' <= c && c <= '9' ==> r,
{
    c.is_numeric()
}

/// Characters skipped after the number of a numbered point.
pub open spec fn is_number_mark(c: char) -> bool {
    c == '.' || c == ')' || is_white(c)
}

/// `s` without the leading marks of a numbered point.
pub open spec fn trim_number_marks(s: Seq<char>) -> Seq<char>
    decreases s.len(),
{
    if s.len() > 0 && is_number_mark(s[0]) {
        trim_number_marks(s.drop_first())
    } else {
        s
    }
}

/// Glyphs that open an unnumbered bullet point.
pub open spec fn is_bullet_glyph(c: char) -> bool {
    c == '-' || c == '*' || c == '\u{2022}'
}

/// The quote and the bullet points gathered so far.
pub type ReplyParse = (Option<Seq<char>>, Seq<Seq<char>>);

/// What one line of a reply contributes: a `QUOTE:` line sets the quote, a line
/// that opens with a number or a bullet glyph adds a point, other lines add nothing.
pub open spec fn reply_line(st: ReplyParse, line: Seq<char>) -> ReplyParse {
    let t = trim(line);
    if t.len() == 0 {
        st
    } else if starts_with(t, QUOTE_TAG@) {
        let q = trim(t.subrange(QUOTE_TAG@.len() as int, t.len() as int));
        if q.len() > 0 { (Some(q), st.1) } else { st }
    } else if numeric_char(t[0]) {
        let b = trim_number_marks(t.drop_first());
        if b.len() > 0 { (st.0, st.1.push(b)) } else { st }
    } else if is_bullet_glyph(t[0]) {
        let b = trim(t.drop_first());
        if b.len() > 0 { (st.0, st.1.push(b)) } else { st }
    } else {
        st
    }
}

pub open spec fn reply_step() -> spec_fn(ReplyParse, Seq<char>) -> ReplyParse {
    |st: ReplyParse, line: Seq<char>| reply_line(st, line)
}

/// The quote (the last `QUOTE:` line) and the bullet points of a reply, in order.
pub open spec fn parse_reply(t: Seq<char>) -> ReplyParse {
    fold_lines(t, (None, Seq::empty()), reply_step())
}

/// What one line adds when only bullet points are wanted.
pub open spec fn points_step() -> spec_fn(Seq<Seq<char>>, Seq<char>) -> Seq<Seq<char>> {
    |pts: Seq<Seq<char>>, line: Seq<char>|
        if trim(line).len() > 0 && !starts_with(trim(line), QUOTE_TAG@) {
            reply_line((None, pts), line).1
        } else {
            pts
        }
}

/// Only the bullet points of a reply.
pub open spec fn parse_points(t: Seq<char>) -> Seq<Seq<char>> {
    fold_lines(t, Seq::empty(), points_step())
}

proof fn lemma_trim_number_marks_skip(s: Seq<char>, a: int, hi: int)
    requires
        0 <= a < hi <= s.len(),
        is_number_mark(s[a]),
    ensures
        trim_number_marks(s.subrange(a, hi)) == trim_number_marks(s.subrange(a + 1, hi)),
{
    assert(s.subrange(a, hi).drop_first() == s.subrange(a + 1, hi));
}

/// Start of `v[lo..hi]` once the marks of a numbered point are skipped.
fn skip_number_marks(v: &Vec<char>, lo: usize, hi: usize) -> (r: usize)
    requires
        lo <= hi <= v.len(),
    ensures
        lo <= r <= hi,
        v@.subrange(r as int, hi as int) == trim_number_marks(v@.subrange(lo as int, hi as int)),
{
    let mut a = lo;
    while a < hi && (v[a] == '.' || v[a] == ')' || char_is_white(v[a]))
        invariant
            lo <= a <= hi <= v.len(),
            trim_number_marks(v@.subrange(lo as int, hi as int))
                == trim_number_marks(v@.subrange(a as int, hi as int)),
        decreases hi - a,
    {
        proof { lemma_trim_number_marks_skip(v@, a as int, hi as int); }
        a = a + 1;
    }
    a
}

/// The bullet point on line `v[lo..hi]`, if the line holds one.
fn point_of_line(v: &Vec<char>, a: usize, b: usize) -> (r: Option<String>)
    requires
        a < b <= v.len(),
    ensures
        ({
            let t = v@.subrange(a as int, b as int);
            let b = if numeric_char(t[0]) {
                Some(trim_number_marks(t.drop_first()))
            } else if is_bullet_glyph(t[0]) {
                Some(trim(t.drop_first()))
            } else {
                None
            };
            match b {
                Some(p) => if p.len() > 0 { opt_view(r) == Some(p) } else { r is None },
                None => r is None,
            }
        }),
{
    let t = Ghost(v@.subrange(a as int, b as int));
    assert(t@.drop_first() == v@.subrange(a + 1, b as int));
    if char_is_numeric(v[a]) {
        let c = skip_number_marks(v, a + 1, b);
        if c < b { Some(string_of(v, c, b)) } else { None }
    } else if v[a] == '-' || v[a] == '*' || v[a] == '\u{2022}' {
        let (pa, pb) = trim_bounds(v, a + 1, b);
        if pa < pb { Some(string_of(v, pa, pb)) } else { None }
    } else {
        None
    }
}

/// Splits a reply into its quote (the text after the last non-empty `QUOTE:` line)
/// and its bullet points, in order of appearance.
pub fn parse_summary_with_quote(text: &str) -> (r: (Option<String>, Vec<String>))
    ensures
        (opt_view(r.0), strings_view(r.1@)) == parse_reply(text@),
{
    let v = chars_of(text);
    let tag = chars_of(QUOTE_TAG);
    let mut quote: Option<String> = None;
    let mut points: Vec<String> = Vec::new();
    let mut pos: usize = 0;
    assert(v@.subrange(0, v.len() as int) == v@);
    assert(strings_view(points@) == Seq::<Seq<char>>::empty());
    while pos < v.len()
        invariant
            0 <= pos <= v.len(),
            v@ == text@,
            tag@ == QUOTE_TAG@,
            parse_reply(text@) == fold_lines(v@.subrange(pos as int, v.len() as int),
                (opt_view(quote), strings_view(points@)), reply_step()),
        decreases v.len() - pos,
    {
        let e = line_end(&v, pos);
        proof {
            lemma_fold_lines_step(v@, pos as int, e as int, (opt_view(quote), strings_view(points@)), reply_step());
        }
        let ghost line = v@.subrange(pos as int, e as int);
        let ghost acc = (opt_view(quote), strings_view(points@));
        let (a, b) = trim_bounds(&v, pos, e);
        assert(v@.subrange(a as int, b as int) == trim(line));
        if a < b {
            if range_starts_with(&v, a, b, &tag) {
                let (qa, qb) = trim_bounds(&v, a + tag.len(), b);
                assert(v@.subrange(a as int, b as int).subrange(tag.len() as int, (b - a) as int)
                    == v@.subrange(a + tag.len(), b as int));
                if qa < qb {
                    quote = Some(string_of(&v, qa, qb));
                }
            } else {
                match point_of_line(&v, a, b) {
                    Some(p) => {
                        let ghost old_points = points@;
                        points.push(p);
                        assert(strings_view(points@) == strings_view(old_points).push(p@));
                    }
                    None => {}
                }
            }
        }
        assert((opt_view(quote), strings_view(points@)) == reply_line(acc, line));
        assert(reply_step()(acc, line) == reply_line(acc, line));
        if e < v.len() {
            pos = e + 1;
        } else {
            pos = v.len();
            assert(v@.subrange(pos as int, v.len() as int) == Seq::<char>::empty());
        }
    }
    assert(v@.subrange(v.len() as int, v.len() as int) == Seq::<char>::empty());
    (quote, points)
}

/// The bullet points of a reply, ignoring any quote line.
pub fn parse_bullet_points(text: &str) -> (r: Vec<String>)
    ensures
        strings_view(r@) == parse_points(text@),
{
    let v = chars_of(text);
    let tag = chars_of(QUOTE_TAG);
    let mut points: Vec<String> = Vec::new();
    let mut pos: usize = 0;
    assert(v@.subrange(0, v.len() as int) == v@);
    assert(strings_view(points@) == Seq::<Seq<char>>::empty());
    while pos < v.len()
        invariant
            0 <= pos <= v.len(),
            v@ == text@,
            tag@ == QUOTE_TAG@,
            parse_points(text@) == fold_lines(v@.subrange(pos as int, v.len() as int), strings_view(points@), points_step()),
        decreases v.len() - pos,
    {
        let e = line_end(&v, pos);
        proof {
            lemma_fold_lines_step(v@, pos as int, e as int, strings_view(points@), points_step());
        }
        let ghost line = v@.subrange(pos as int, e as int);
        let ghost acc = strings_view(points@);
        let (a, b) = trim_bounds(&v, pos, e);
        assert(v@.subrange(a as int, b as int) == trim(line));
        if a < b && !range_starts_with(&v, a, b, &tag) {
            match point_of_line(&v, a, b) {
                Some(p) => {
                    let ghost old_points = points@;
                    points.push(p);
                    assert(strings_view(points@) == strings_view(old_points).push(p@));
                }
                None => {}
            }
        }
        assert(strings_view(points@) == points_step()(acc, line));
        if e < v.len() {
            pos = e + 1;
        } else {
            pos = v.len();
            assert(v@.subrange(pos as int, v.len() as int) == Seq::<char>::empty());
        }
    }
    assert(v@.subrange(v.len() as int, v.len() as int) == Seq::<char>::empty());
    points
}

// ---------------------------------------------------------------- outcome of a reply

/// Failure message for a reply with `n` bullet points.
pub open spec fn bullet_count_message(n: nat) -> Seq<char> {
    BULLET_COUNT_PREFIX@ + decimal(n)
}

/// The summary that a reply stands for: `Insufficient` when the model says so,
/// a success when it holds exactly five points, a failure naming the count otherwise.
pub open spec fn summary_of_reply(t: Seq<char>) -> SummaryView {
    if contains(t, INSUFFICIENT_MARKER@) {
        SummaryView::Insufficient
    } else {
        let p = parse_reply(t);
        if p.1.len() == BULLET_COUNT {
            SummaryView::Success { points: p.1, quote: p.0 }
        } else {
            SummaryView::Failed(bullet_count_message(p.1.len()))
        }
    }
}

/// Turns the model's reply into a summary outcome.
pub fn summary_from_reply(reply: &str) -> (r: Summary)
    ensures
        r@ == summary_of_reply(reply@),
{
    if str_contains(reply, INSUFFICIENT_MARKER) {
        return Summary::Insufficient;
    }
    let (quote, points) = parse_summary_with_quote(reply);
    if points.len() == BULLET_COUNT {
        Summary::Success { points, quote }
    } else {
        let mut m = String::new();
        push_text(&mut m, BULLET_COUNT_PREFIX);
        push_decimal(&mut m, points.len());
        Summary::Failed(m)
    }
}

// ---------------------------------------------------------------- retry policy

/// What to do after one summarize attempt.
pub enum SummarizeStep {
    /// The item is finished; wait `pause_ms` before releasing its slot.
    Done { summary: Summary, pause_ms: u64 },
    /// Try again after `delay_ms`.
    Retry { delay_ms: u64 },
}

/// An error that the service reports as rate limiting.
pub open spec fn is_rate_limit(msg: Seq<char>) -> bool {
    contains(msg, RATE_LIMIT_MARKER@)
}

/// Wait before the attempt after failed attempt `attempt` (counted from 0).
pub open spec fn summarize_delay(attempt: nat, msg: Seq<char>) -> nat {
    if is_rate_limit(msg) {
        (RATE_LIMIT_STEP_MS * (attempt + 1)) as nat
    } else {
        exp_backoff(SUMMARIZE_BACKOFF_BASE_MS as nat, attempt)
    }
}

/// The decision after attempt `attempt` (counted from 0) of summarizing one item.
pub open spec fn summarize_decision(attempt: nat, result: Result<Summary, String>) -> SummarizeStep {
    match result {
        Ok(s) => SummarizeStep::Done { summary: s, pause_ms: SETTLE_DELAY_MS },
        Err(m) => if attempt + 1 >= SUMMARIZE_MAX_ATTEMPTS {
            SummarizeStep::Done { summary: Summary::Failed(m), pause_ms: 0 }
        } else {
            SummarizeStep::Retry { delay_ms: summarize_delay(attempt, m@) as u64 }
        },
    }
}

/// What the retry loop does from attempt `attempt` on, when attempt `k` gets
/// `results[k]`: the summary (none if the script ends first) and the attempts made.
pub open spec fn summarize_run(results: Seq<Result<Summary, String>>, attempt: nat) -> (Option<Summary>, nat)
    decreases SUMMARIZE_MAX_ATTEMPTS - attempt,
{
    if attempt >= SUMMARIZE_MAX_ATTEMPTS || attempt >= results.len() {
        (None, attempt)
    } else {
        match summarize_decision(attempt, results[attempt as int]) {
            SummarizeStep::Done { summary, pause_ms } => (Some(summary), attempt + 1),
            SummarizeStep::Retry { delay_ms } => summarize_run(results, attempt + 1),
        }
    }
}

/// Errors are retried up to the attempt ceiling: five failed summarize attempts
/// give `Failed` with the last error's message, and never a sixth attempt.
pub proof fn lemma_summarize_errors_exhaust_attempts(results: Seq<Result<Summary, String>>)
    requires
        results.len() >= SUMMARIZE_MAX_ATTEMPTS,
        forall|k: int| 0 <= k < SUMMARIZE_MAX_ATTEMPTS ==> #[trigger] results[k] is Err,
    ensures
        summarize_run(results, 0) == (Some(Summary::Failed(results[4]->Err_0)), 5nat),
{
    assert(results[0] is Err);
    assert(results[1] is Err);
    assert(results[2] is Err);
    assert(results[3] is Err);
    assert(results[4] is Err);
    assert(summarize_run(results, 4) == (Some(Summary::Failed(results[4]->Err_0)), 5nat));
    assert(summarize_run(results, 3) == summarize_run(results, 4));
    assert(summarize_run(results, 2) == summarize_run(results, 3));
    assert(summarize_run(results, 1) == summarize_run(results, 2));
}

/// Decides what follows attempt `attempt` (counted from 0) of summarizing one item:
/// a reply finishes the item after the settle pause; an error is retried with
/// backoff until the last attempt, whose error becomes the `Failed` outcome.
pub fn summarize_step(attempt: u32, result: Result<Summary, String>) -> (r: SummarizeStep)
    requires
        attempt < SUMMARIZE_MAX_ATTEMPTS,
    ensures
        r == summarize_decision(attempt as nat, result),
        r matches SummarizeStep::Retry { delay_ms } ==> delay_ms == summarize_delay(
            attempt as nat,
            result->Err_0@,
        ),
{
    match result {
        Ok(s) => SummarizeStep::Done { summary: s, pause_ms: SETTLE_DELAY_MS },
        Err(m) => {
            if attempt + 1 == SUMMARIZE_MAX_ATTEMPTS {
                SummarizeStep::Done { summary: Summary::Failed(m), pause_ms: 0 }
            } else if str_contains(m.as_str(), RATE_LIMIT_MARKER) {
                SummarizeStep::Retry { delay_ms: RATE_LIMIT_STEP_MS * (attempt as u64 + 1) }
            } else {
                SummarizeStep::Retry { delay_ms: exp_backoff_ms(SUMMARIZE_BACKOFF_BASE_MS, attempt) }
            }
        }
    }
}

} // verus!
