//! The fetch stage: what one HTTP response yields, the publication-date search,
//! and the per-URL retry policy (paywall stops at once, other failures back off).

use vstd::prelude::*;
use crate::calendar::{format_moment, formatted, parse_day, parse_utc, parsed_day, parsed_utc};
use crate::model::{opt_view, ArticleContent, ExtractionResult, ExtractionView};
use crate::retry::{exp_backoff, exp_backoff_ms};
use crate::text::{chars_of, decimal, push_decimal, push_text, trim, trim_bounds};

verus! {

/// Attempts made per URL before giving up.
pub const FETCH_MAX_ATTEMPTS: u32 = 3;
/// Base of the exponential backoff between attempts.
pub const FETCH_BACKOFF_BASE_MS: u64 = 500;
/// Fewest characters of extracted text that count as an article.
pub const MIN_ARTICLE_CHARS: usize = 100;
/// Column width used when rendering HTML to text.
pub const TEXT_WIDTH: usize = 100;
/// Fetches allowed in flight at once.
pub const FETCH_CONCURRENCY: usize = 10;
/// Number of metadata locations searched for a publication date.
pub const DATE_SELECTOR_COUNT: usize = 9;

/// Why one fetch attempt failed.
#[derive(Debug, Clone)]
pub enum FetchFailure {
    /// The server answered with this non-success status.
    Status(u16),
    /// The request or the body read failed, with this message.
    Transport(String),
    /// No text could be extracted from the page.
    NoText,
    /// The extracted text has only this many characters.
    TooShort(usize),
}

/// A failure that marks the page as paywalled: HTTP 403.
pub open spec fn is_paywall(e: FetchFailure) -> bool {
    e matches FetchFailure::Status(403)
}

/// Human-readable reason for a failed attempt.
pub open spec fn failure_message(e: FetchFailure) -> Seq<char> {
    match e {
        FetchFailure::Status(code) => if code == 401 {
            "Access denied (401 Unauthorized) - requires login"@
        } else if code == 403 {
            "Access forbidden (403 Forbidden) - may be paywalled or blocking bots"@
        } else if code == 404 {
            "Page not found (404) - article may have been removed"@
        } else if code == 429 {
            "Rate limited (429) - too many requests"@
        } else if 500 <= code <= 599 {
            "Server error ("@ + decimal(code as nat) + ") - website is having issues"@
        } else {
            "HTTP error: "@ + decimal(code as nat)
        },
        FetchFailure::Transport(m) => m@,
        FetchFailure::NoText => "No text content extracted - may require JavaScript or login"@,
        FetchFailure::TooShort(n) => "Content too short ("@ + decimal(n as nat)
            + " chars) - may be paywalled or blocked"@,
    }
}

impl FetchFailure {
    /// A copy of this failure.
    pub fn copied(&self) -> (r: FetchFailure)
        ensures
            r == *self,
    {
        match self {
            FetchFailure::Status(c) => FetchFailure::Status(*c),
            FetchFailure::Transport(m) => FetchFailure::Transport(m.clone()),
            FetchFailure::NoText => FetchFailure::NoText,
            FetchFailure::TooShort(n) => FetchFailure::TooShort(*n),
        }
    }

    /// Whether this failure marks the page as paywalled.
    pub fn is_paywall(&self) -> (r: bool)
        ensures
            r == is_paywall(*self),
    {
        match self {
            FetchFailure::Status(code) => *code == 403,
            _ => false,
        }
    }

    /// Human-readable reason for this failure.
    pub fn message(&self) -> (r: String)
        ensures
            r@ == failure_message(*self),
    {
        let mut r = String::new();
        match self {
            FetchFailure::Status(code) => {
                let code = *code;
                if code == 401 {
                    push_text(&mut r, "Access denied (401 Unauthorized) - requires login");
                } else if code == 403 {
                    push_text(&mut r, "Access forbidden (403 Forbidden) - may be paywalled or blocking bots");
                } else if code == 404 {
                    push_text(&mut r, "Page not found (404) - article may have been removed");
                } else if code == 429 {
                    push_text(&mut r, "Rate limited (429) - too many requests");
                } else if 500 <= code && code <= 599 {
                    push_text(&mut r, "Server error (");
                    push_decimal(&mut r, code as usize);
                    push_text(&mut r, ") - website is having issues");
                } else {
                    push_text(&mut r, "HTTP error: ");
                    push_decimal(&mut r, code as usize);
                }
            },
            FetchFailure::Transport(m) => {
                push_text(&mut r, m.as_str());
            },
            FetchFailure::NoText => {
                push_text(&mut r, "No text content extracted - may require JavaScript or login");
            },
            FetchFailure::TooShort(n) => {
                push_text(&mut r, "Content too short (");
                push_decimal(&mut r, *n);
                push_text(&mut r, " chars) - may be paywalled or blocked");
            },
        }
        r
    }
}

// ---------------------------------------------------------------- outside calls

/// Text that html2text renders from `html` at a column width, if rendering succeeds.
pub uninterp spec fn rendered_text(html: Seq<char>, width: nat) -> Option<Seq<char>>;

/// Relies on html2text's plain renderer (`config::plain().string_from_read`):
/// the text of an HTML document wrapped to `width` columns, or an error.
#[verifier::external_body]
fn render_text(html: &str, width: usize) -> (r: Option<String>)
    ensures
        opt_view(r) == rendered_text(html@, width as nat),
{
    html2text::config::plain().string_from_read(html.as_bytes(), width).ok()
}

/// Value of attribute `attr` on the first element of `html` that `selector` matches;
/// none when no element matches, the element lacks the attribute, or the selector
/// does not parse.
pub uninterp spec fn first_match_attr(html: Seq<char>, selector: Seq<char>, attr: Seq<char>) -> Option<Seq<char>>;

/// Relies on scraper's `Html::parse_document`, `Selector::parse`, `Html::select` and
/// `Element::attr`: the attribute of the first element, in document order, that
/// the CSS selector matches.
#[verifier::external_body]
fn select_first_attr(html: &str, selector: &str, attr: &str) -> (r: Option<String>)
    ensures
        opt_view(r) == first_match_attr(html@, selector@, attr@),
{
    let document = scraper::Html::parse_document(html);
    let selector = scraper::Selector::parse(selector).ok()?;
    let element = document.select(&selector).next()?;
    element.value().attr(attr).map(|a| a.to_string())
}

// ---------------------------------------------------------------- publication date

/// How a publication day is written, such as `Sun, 1 Feb 2026`.
pub const PUBLISHED_DAY_FORMAT: &'static str = "%a, %-d %b %Y";
/// The bare-date form accepted in metadata.
pub const METADATA_DATE_FORMAT: &'static str = "%Y-%m-%d";

/// A metadata value read as a publication day: a full timestamp first, then a bare date.
pub open spec fn published_label(s: Seq<char>) -> Option<Seq<char>> {
    match parsed_utc(s) {
        Some(t) => formatted(t.0, t.1, PUBLISHED_DAY_FORMAT@),
        None => match parsed_day(s, METADATA_DATE_FORMAT@) {
            Some(d) => formatted(d, 0, PUBLISHED_DAY_FORMAT@),
            None => None,
        },
    }
}

/// Formats a metadata value as a publication day, if it is a date.
pub fn format_date(date_str: &str) -> (r: Option<String>)
    ensures
        opt_view(r) == published_label(date_str@),
{
    match parse_utc(date_str) {
        Some((day, second)) => format_moment(day, second, PUBLISHED_DAY_FORMAT),
        None => match parse_day(date_str, METADATA_DATE_FORMAT) {
            Some(day) => format_moment(day, 0, PUBLISHED_DAY_FORMAT),
            None => None,
        },
    }
}

/// The metadata locations searched for a publication date, in order of preference.
pub open spec fn date_selector(i: int) -> Seq<char> {
    if i == 0 {
        "meta[property=\"article:published_time\"]"@
    } else if i == 1 {
        "meta[property=\"og:published_time\"]"@
    } else if i == 2 {
        "meta[name=\"article:published_time\"]"@
    } else if i == 3 {
        "meta[name=\"publishdate\"]"@
    } else if i == 4 {
        "meta[name=\"publish_date\"]"@
    } else if i == 5 {
        "meta[name=\"date\"]"@
    } else if i == 6 {
        "meta[name=\"publication_date\"]"@
    } else if i == 7 {
        "meta[itemprop=\"datePublished\"]"@
    } else {
        "time[datetime]"@
    }
}

fn selector_at(i: usize) -> (r: &'static str)
    requires
        i < DATE_SELECTOR_COUNT,
    ensures
        r@ == date_selector(i as int),
{
    if i == 0 {
        "meta[property=\"article:published_time\"]"
    } else if i == 1 {
        "meta[property=\"og:published_time\"]"
    } else if i == 2 {
        "meta[name=\"article:published_time\"]"
    } else if i == 3 {
        "meta[name=\"publishdate\"]"
    } else if i == 4 {
        "meta[name=\"publish_date\"]"
    } else if i == 5 {
        "meta[name=\"date\"]"
    } else if i == 6 {
        "meta[name=\"publication_date\"]"
    } else if i == 7 {
        "meta[itemprop=\"datePublished\"]"
    } else {
        "time[datetime]"
    }
}

/// The date that location `i` gives: its `content` attribute, else its `datetime`
/// attribute, whichever first reads as a date.
pub open spec fn date_at(html: Seq<char>, i: int) -> Option<Seq<char>> {
    let from_content = match first_match_attr(html, date_selector(i), "content"@) {
        Some(v) => published_label(v),
        None => None,
    };
    match from_content {
        Some(d) => Some(d),
        None => match first_match_attr(html, date_selector(i), "datetime"@) {
            Some(v) => published_label(v),
            None => None,
        },
    }
}

/// The first date that the locations from `i` on give.
pub open spec fn published_from(html: Seq<char>, i: int) -> Option<Seq<char>>
    decreases DATE_SELECTOR_COUNT - i,
{
    if i < 0 || i >= DATE_SELECTOR_COUNT {
        None
    } else {
        match date_at(html, i) {
            Some(d) => Some(d),
            None => published_from(html, i + 1),
        }
    }
}

fn attr_date(html: &str, selector: &str, attr: &str) -> (r: Option<String>)
    ensures
        opt_view(r) == match first_match_attr(html@, selector@, attr@) {
            Some(v) => published_label(v),
            None => None,
        },
{
    match select_first_attr(html, selector, attr) {
        Some(v) => format_date(v.as_str()),
        None => None,
    }
}

/// Searches the document's metadata for a publication date; the first location
/// that yields a date wins.
pub fn extract_published_date(html: &str) -> (r: Option<String>)
    ensures
        opt_view(r) == published_from(html@, 0),
{
    let mut i: usize = 0;
    while i < DATE_SELECTOR_COUNT
        invariant
            0 <= i <= DATE_SELECTOR_COUNT,
            published_from(html@, 0) == published_from(html@, i as int),
        decreases DATE_SELECTOR_COUNT - i,
    {
        let selector = selector_at(i);
        let c = attr_date(html, selector, "content");
        if c.is_some() {
            return c;
        }
        let d = attr_date(html, selector, "datetime");
        if d.is_some() {
            return d;
        }
        i = i + 1;
    }
    None
}

// ---------------------------------------------------------------- one response

/// HTTP statuses that count as success.
pub open spec fn is_success_status(status: u16) -> bool {
    200 <= status <= 299
}

/// What one response yields: a non-success status fails; otherwise the rendered
/// text must be non-blank and at least `MIN_ARTICLE_CHARS` long.
pub open spec fn response_outcome_ok(status: u16, body: Seq<char>, r: Result<ArticleContent, FetchFailure>) -> bool {
    if !is_success_status(status) {
        r == Err::<ArticleContent, FetchFailure>(FetchFailure::Status(status))
    } else {
        match rendered_text(body, TEXT_WIDTH as nat) {
            None => r == Err::<ArticleContent, FetchFailure>(FetchFailure::NoText),
            Some(t) => if trim(t).len() == 0 {
                r == Err::<ArticleContent, FetchFailure>(FetchFailure::NoText)
            } else if t.len() < MIN_ARTICLE_CHARS {
                r == Err::<ArticleContent, FetchFailure>(FetchFailure::TooShort(t.len() as usize))
            } else {
                r matches Ok(c) && c.text@ == t && opt_view(c.published_date) == published_from(body, 0)
            },
        }
    }
}

/// Turns one HTTP response (status and body) into article content or the reason
/// it is not usable.
pub fn article_from_response(status: u16, body: &str) -> (r: Result<ArticleContent, FetchFailure>)
    ensures
        response_outcome_ok(status, body@, r),
{
    if !(200 <= status && status <= 299) {
        return Err(FetchFailure::Status(status));
    }
    let text = match render_text(body, TEXT_WIDTH) {
        Some(t) => t,
        None => {
            return Err(FetchFailure::NoText);
        },
    };
    let v = chars_of(text.as_str());
    let (a, b) = trim_bounds(&v, 0, v.len());
    assert(v@.subrange(0, v.len() as int) == v@);
    if a == b {
        return Err(FetchFailure::NoText);
    }
    let n = v.len();
    if n < MIN_ARTICLE_CHARS {
        return Err(FetchFailure::TooShort(n));
    }
    let published_date = extract_published_date(body);
    Ok(ArticleContent { text, published_date })
}

// ---------------------------------------------------------------- retry policy

/// What to do after one fetch attempt.
pub enum FetchStep {
    /// The URL is finished with this outcome.
    Done(ExtractionResult),
    /// Try again after `delay_ms`.
    Retry { delay_ms: u64 },
}

pub enum FetchStepView {
    Done(ExtractionView),
    Retry { delay_ms: nat },
}

impl View for FetchStep {
    type V = FetchStepView;

    open spec fn view(&self) -> FetchStepView {
        match self {
            FetchStep::Done(o) => FetchStepView::Done(o@),
            FetchStep::Retry { delay_ms } => FetchStepView::Retry { delay_ms: *delay_ms as nat },
        }
    }
}

/// View of one attempt's result.
pub open spec fn success_view(c: ArticleContent) -> ExtractionView {
    ExtractionView::Success { text: c.text@, published_date: opt_view(c.published_date) }
}

/// The decision after attempt `attempt` (counted from 0): content finishes the URL;
/// a 403 finishes it as paywalled at once; any other failure is retried after
/// `500 ms * 2^attempt` until the last attempt, whose failure becomes the outcome.
pub open spec fn fetch_decision(attempt: nat, result: Result<ArticleContent, FetchFailure>) -> FetchStepView {
    match result {
        Ok(c) => FetchStepView::Done(success_view(c)),
        Err(e) => if is_paywall(e) {
            FetchStepView::Done(ExtractionView::Paywalled)
        } else if attempt + 1 >= FETCH_MAX_ATTEMPTS {
            FetchStepView::Done(ExtractionView::Failed(failure_message(e)))
        } else {
            FetchStepView::Retry { delay_ms: exp_backoff(FETCH_BACKOFF_BASE_MS as nat, attempt) }
        },
    }
}

/// Decides what follows attempt `attempt` (counted from 0) of fetching one URL.
pub fn fetch_step(attempt: u32, result: Result<ArticleContent, FetchFailure>) -> (r: FetchStep)
    requires
        attempt < FETCH_MAX_ATTEMPTS,
    ensures
        r@ == fetch_decision(attempt as nat, result),
{
    match result {
        Ok(c) => FetchStep::Done(ExtractionResult::Success(c)),
        Err(e) => {
            if e.is_paywall() {
                FetchStep::Done(ExtractionResult::Paywalled)
            } else if attempt + 1 >= FETCH_MAX_ATTEMPTS {
                FetchStep::Done(ExtractionResult::Failed(e.message()))
            } else {
                FetchStep::Retry { delay_ms: exp_backoff_ms(FETCH_BACKOFF_BASE_MS, attempt) }
            }
        },
    }
}

// ---------------------------------------------------------------- the retry loop

/// What the retry loop does from attempt `attempt` on, when attempt `k` sees
/// `results[k]`: the outcome (none if the script ends first), the number of
/// attempts made, and the waits between them.
pub open spec fn fetch_run(results: Seq<Result<ArticleContent, FetchFailure>>, attempt: nat)
    -> (Option<ExtractionView>, nat, Seq<nat>)
    decreases FETCH_MAX_ATTEMPTS - attempt,
{
    if attempt >= FETCH_MAX_ATTEMPTS || attempt >= results.len() {
        (None, attempt, Seq::empty())
    } else {
        match fetch_decision(attempt, results[attempt as int]) {
            FetchStepView::Done(o) => (Some(o), attempt + 1, Seq::empty()),
            FetchStepView::Retry { delay_ms } => {
                let rest = fetch_run(results, attempt + 1);
                (rest.0, rest.1, seq![delay_ms] + rest.2)
            },
        }
    }
}

pub open spec fn delays_view(v: Seq<u64>) -> Seq<nat> {
    v.map_values(|d: u64| d as nat)
}

pub open spec fn outcome_view(o: Option<ExtractionResult>) -> Option<ExtractionView> {
    match o {
        Some(x) => Some(x@),
        None => None,
    }
}

proof fn lemma_fetch_run_attempts(results: Seq<Result<ArticleContent, FetchFailure>>, attempt: nat)
    requires
        attempt <= FETCH_MAX_ATTEMPTS,
    ensures
        attempt <= fetch_run(results, attempt).1 <= FETCH_MAX_ATTEMPTS,
    decreases FETCH_MAX_ATTEMPTS - attempt,
{
    if attempt < FETCH_MAX_ATTEMPTS && attempt < results.len() {
        lemma_fetch_run_attempts(results, attempt + 1);
    }
}

/// Runs the per-URL retry loop against a scripted transport whose attempt `k`
/// answers `results[k]`; returns the outcome (none if the script ends first),
/// the attempts made and the waits between them.
pub fn run_fetch_attempts(results: &Vec<Result<ArticleContent, FetchFailure>>)
    -> (r: (Option<ExtractionResult>, u32, Vec<u64>))
    ensures
        (outcome_view(r.0), r.1 as nat, delays_view(r.2@)) == fetch_run(results@, 0),
{
    let mut delays: Vec<u64> = Vec::new();
    let mut attempt: u32 = 0;
    while attempt < FETCH_MAX_ATTEMPTS && (attempt as usize) < results.len()
        invariant
            attempt <= FETCH_MAX_ATTEMPTS,
            fetch_run(results@, 0) == ({
                let rest = fetch_run(results@, attempt as nat);
                (rest.0, rest.1, delays_view(delays@) + rest.2)
            }),
        decreases FETCH_MAX_ATTEMPTS - attempt,
    {
        let result = match &results[attempt as usize] {
            Ok(c) => Ok(c.copied()),
            Err(e) => Err(e.copied()),
        };
        assert(result == results@[attempt as int]);
        match fetch_step(attempt, result) {
            FetchStep::Done(o) => {
                assert(delays_view(delays@) + Seq::<nat>::empty() == delays_view(delays@));
                return (Some(o), attempt + 1, delays);
            },
            FetchStep::Retry { delay_ms } => {
                let ghost before = delays@;
                delays.push(delay_ms);
                assert(delays_view(delays@) == delays_view(before).push(delay_ms as nat));
                assert(delays_view(before) + (seq![delay_ms as nat] + fetch_run(results@, (attempt + 1) as nat).2)
                    == delays_view(delays@) + fetch_run(results@, (attempt + 1) as nat).2);
                attempt = attempt + 1;
            },
        }
    }
    assert(delays_view(delays@) + Seq::<nat>::empty() == delays_view(delays@));
    (None, attempt, delays)
}

proof fn lemma_paywall_from(results: Seq<Result<ArticleContent, FetchFailure>>, a: nat, k: nat)
    requires
        a <= k < results.len(),
        k < fetch_run(results, a).1,
        results[k as int] matches Err(e) && is_paywall(e),
    ensures
        fetch_run(results, a).1 == k + 1,
        fetch_run(results, a).0 == Some(ExtractionView::Paywalled),
    decreases k - a,
{
    if a < k {
        match fetch_decision(a, results[a as int]) {
            FetchStepView::Done(o) => {},
            FetchStepView::Retry { delay_ms } => {
                lemma_paywall_from(results, a + 1, k);
            },
        }
    }
}

/// A 403 answer is never followed by another attempt: if attempt `k` of a URL
/// sees a 403, the loop stops there with `Paywalled`, so `k` was the last attempt.
pub proof fn lemma_paywall_is_last_attempt(results: Seq<Result<ArticleContent, FetchFailure>>, k: nat)
    requires
        k < results.len(),
        k < fetch_run(results, 0).1,
        results[k as int] matches Err(e) && is_paywall(e),
    ensures
        fetch_run(results, 0).1 == k + 1,
        fetch_run(results, 0).0 == Some(ExtractionView::Paywalled),
{
    lemma_paywall_from(results, 0, k);
}

/// A 403 on the first attempt means exactly one attempt, with outcome `Paywalled`.
pub proof fn lemma_paywall_single_attempt(results: Seq<Result<ArticleContent, FetchFailure>>)
    requires
        results.len() >= 1,
        results[0] matches Err(e) && is_paywall(e),
    ensures
        fetch_run(results, 0) == (Some(ExtractionView::Paywalled), 1nat, Seq::<nat>::empty()),
{
}

/// Transient failures are retried up to the attempt ceiling: three failed attempts
/// that are not 403 give `Failed` with the last failure's message, after waits of
/// 500 ms and 1000 ms.
pub proof fn lemma_transient_failures_exhaust_attempts(results: Seq<Result<ArticleContent, FetchFailure>>)
    requires
        results.len() >= FETCH_MAX_ATTEMPTS,
        forall|k: int| 0 <= k < FETCH_MAX_ATTEMPTS ==> (#[trigger] results[k] matches Err(e) && !is_paywall(e)),
    ensures
        fetch_run(results, 0) == (
            Some(ExtractionView::Failed(failure_message(results[2]->Err_0))),
            FETCH_MAX_ATTEMPTS as nat,
            seq![500nat, 1000nat],
        ),
{
    assert(results[0] matches Err(e) && !is_paywall(e));
    assert(results[1] matches Err(e) && !is_paywall(e));
    assert(results[2] matches Err(e) && !is_paywall(e));
    reveal_with_fuel(crate::retry::pow2, 2);
    assert(exp_backoff(500, 0) == 500);
    assert(exp_backoff(500, 1) == 1000);
    let e2 = results[2]->Err_0;
    assert(fetch_run(results, 2) == (Some(ExtractionView::Failed(failure_message(e2))), 3nat, Seq::<nat>::empty()));
    assert(fetch_run(results, 1) == (Some(ExtractionView::Failed(failure_message(e2))), 3nat, seq![1000nat]));
    assert(seq![500nat] + seq![1000nat] == seq![500nat, 1000nat]);
}

/// A transport that answers a URL the same way every time fixes the outcome:
/// content gives `Success` after one attempt, a 403 gives `Paywalled` after one,
/// any other failure gives `Failed` after all three. Fetching that URL again
/// therefore yields the same outcome.
pub proof fn lemma_steady_transport_outcome(answer: Result<ArticleContent, FetchFailure>)
    ensures
        fetch_run(seq![answer, answer, answer], 0) == match answer {
            Ok(c) => (Some(success_view(c)), 1nat, Seq::<nat>::empty()),
            Err(e) => if is_paywall(e) {
                (Some(ExtractionView::Paywalled), 1nat, Seq::<nat>::empty())
            } else {
                (Some(ExtractionView::Failed(failure_message(e))), 3nat, seq![500nat, 1000nat])
            },
        },
{
    let s = seq![answer, answer, answer];
    if answer is Err && !is_paywall(answer->Err_0) {
        lemma_transient_failures_exhaust_attempts(s);
    }
}

} // verus!
