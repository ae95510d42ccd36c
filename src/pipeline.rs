//! The orchestrator's pure part: results keyed by URL are joined, never zipped by
//! position, because workers finish in any order. Every bookmark yields one story;
//! a paywalled or failed fetch shows as a failed summary rather than being dropped.

use vstd::prelude::*;
use vstd::utf8::encode_utf8;
use crate::model::{
    copy_strings, opt_view, strings_view, ExtractionResult, ExtractionView, Story, StoryView, Summary, SummaryView,
};
use crate::text::{decimal, push_decimal, push_text};

verus! {

/// Outcome of a URL that no fetch completion mentions.
pub const MISSING_FETCH_MESSAGE: &'static str = "No fetch result for this URL";
/// Summary of a story whose page was paywalled.
pub const PAYWALLED_MESSAGE: &'static str = "Paywalled - summary unavailable";
/// Summary of a story whose content has no summary outcome.
pub const SUMMARY_MISSING_MESSAGE: &'static str = "Summarization failed";
/// Summary of a story whose fetch failed.
pub const NO_CONTENT_MESSAGE: &'static str = "Summary not available";
/// The bookmark search endpoint, up to its page size.
pub const BOOKMARKS_ENDPOINT: &'static str = "https://api.raindrop.io/rest/v1/raindrops/0?perpage=";
/// Bookmarks requested per page.
pub const BOOKMARKS_PER_PAGE: usize = 50;

/// A bookmarked article, as the bookmark service supplies it.
#[derive(Debug, Clone)]
pub struct Bookmark {
    pub id: i64,
    pub title: String,
    pub link: String,
    pub excerpt: Option<String>,
    pub tags: Vec<String>,
    pub created: String,
}

pub struct BookmarkView {
    pub id: int,
    pub title: Seq<char>,
    pub link: Seq<char>,
    pub excerpt: Option<Seq<char>>,
    pub tags: Seq<Seq<char>>,
    pub created: Seq<char>,
}

impl View for Bookmark {
    type V = BookmarkView;

    open spec fn view(&self) -> BookmarkView {
        BookmarkView {
            id: self.id as int,
            title: self.title@,
            link: self.link@,
            excerpt: opt_view(self.excerpt),
            tags: strings_view(self.tags@),
            created: self.created@,
        }
    }
}

pub open spec fn bookmarks_view(v: Seq<Bookmark>) -> Seq<BookmarkView> {
    v.map_values(|b: Bookmark| b@)
}

// ---------------------------------------------------------------- fetch results

/// The first fetch outcome recorded for `url`.
pub open spec fn fetch_for(url: Seq<char>, fs: Seq<(String, ExtractionResult)>) -> Option<ExtractionView>
    decreases fs.len(),
{
    if fs.len() == 0 {
        None
    } else if fs[0].0@ == url {
        Some(fs[0].1@)
    } else {
        fetch_for(url, fs.drop_first())
    }
}

fn find_fetch(url: &String, fs: &Vec<(String, ExtractionResult)>) -> (r: Option<usize>)
    ensures
        match r {
            Some(j) => j < fs.len() && fetch_for(url@, fs@) == Some(fs@[j as int].1@),
            None => fetch_for(url@, fs@) is None,
        },
{
    let mut j: usize = 0;
    assert(fs@.subrange(0, fs.len() as int) == fs@);
    while j < fs.len()
        invariant
            0 <= j <= fs.len(),
            fetch_for(url@, fs@) == fetch_for(url@, fs@.subrange(j as int, fs.len() as int)),
        decreases fs.len() - j,
    {
        assert(fs@.subrange(j as int, fs.len() as int).drop_first() == fs@.subrange(j + 1, fs.len() as int));
        if fs[j].0 == *url {
            return Some(j);
        }
        j = j + 1;
    }
    None
}

/// The outcome for `url` among unordered completions; a URL that none mentions failed.
pub open spec fn reconciled(url: Seq<char>, fs: Seq<(String, ExtractionResult)>) -> ExtractionView {
    match fetch_for(url, fs) {
        Some(o) => o,
        None => ExtractionView::Failed(MISSING_FETCH_MESSAGE@),
    }
}

/// Joins fetch completions, which arrive in any order, back onto the input URLs:
/// exactly one outcome per input URL, in input order.
pub fn reconcile_fetches(urls: &Vec<String>, completions: &Vec<(String, ExtractionResult)>)
    -> (r: Vec<(String, ExtractionResult)>)
    ensures
        r.len() == urls.len(),
        forall|i: int| 0 <= i < urls.len() ==> #[trigger] r@[i].0@ == urls@[i]@
            && r@[i].1@ == reconciled(urls@[i]@, completions@),
{
    let mut r: Vec<(String, ExtractionResult)> = Vec::new();
    let mut i: usize = 0;
    while i < urls.len()
        invariant
            0 <= i <= urls.len(),
            r.len() == i,
            forall|k: int| 0 <= k < i ==> #[trigger] r@[k].0@ == urls@[k]@
                && r@[k].1@ == reconciled(urls@[k]@, completions@),
        decreases urls.len() - i,
    {
        let outcome = match find_fetch(&urls[i], completions) {
            Some(j) => completions[j].1.copied(),
            None => {
                let mut m = String::new();
                push_text(&mut m, MISSING_FETCH_MESSAGE);
                ExtractionResult::Failed(m)
            },
        };
        r.push((urls[i].clone(), outcome));
        i = i + 1;
    }
    r
}

/// Completions from a transport that answers each URL the same way: the outcome
/// recorded for a URL is `answer(url)`, however often and in whatever order.
pub open spec fn steady_completions(fs: Seq<(String, ExtractionResult)>, answer: spec_fn(Seq<char>) -> ExtractionView) -> bool {
    forall|j: int| 0 <= j < fs.len() ==> #[trigger] fs[j].1@ == answer(fs[j].0@)
}

/// `url` has a completion in `fs`.
pub open spec fn completed(url: Seq<char>, fs: Seq<(String, ExtractionResult)>) -> bool {
    exists|j: int| 0 <= j < fs.len() && #[trigger] fs[j].0@ == url
}

proof fn lemma_fetch_for_steady(url: Seq<char>, fs: Seq<(String, ExtractionResult)>, answer: spec_fn(Seq<char>) -> ExtractionView)
    requires
        steady_completions(fs, answer),
        completed(url, fs),
    ensures
        fetch_for(url, fs) == Some(answer(url)),
    decreases fs.len(),
{
    if fs[0].0@ != url {
        let t = fs.drop_first();
        let j = choose|j: int| 0 <= j < fs.len() && #[trigger] fs[j].0@ == url;
        assert(t[j - 1] == fs[j]);
        assert forall|k: int| 0 <= k < t.len() implies #[trigger] t[k].1@ == answer(t[k].0@) by {
            assert(t[k] == fs[k + 1]);
        }
        lemma_fetch_for_steady(url, t, answer);
    } else {
        assert(fs[0].1@ == answer(fs[0].0@));
    }
}

/// Fetching is repeatable: with a transport that answers each URL the same way,
/// two runs whose completions arrive in any order reconcile every URL that both
/// completed to the same outcome, the transport's answer.
pub proof fn lemma_reconcile_repeatable(
    url: Seq<char>,
    first: Seq<(String, ExtractionResult)>,
    second: Seq<(String, ExtractionResult)>,
    answer: spec_fn(Seq<char>) -> ExtractionView,
)
    requires
        steady_completions(first, answer),
        steady_completions(second, answer),
        completed(url, first),
        completed(url, second),
    ensures
        reconciled(url, first) == reconciled(url, second),
        reconciled(url, first) == answer(url),
{
    lemma_fetch_for_steady(url, first, answer);
    lemma_fetch_for_steady(url, second, answer);
}

/// The (URL, text) pairs of the fetches that produced content, in order.
pub open spec fn summary_inputs(fs: Seq<(String, ExtractionResult)>) -> Seq<(Seq<char>, Seq<char>)>
    decreases fs.len(),
{
    if fs.len() == 0 {
        Seq::empty()
    } else {
        let p = summary_inputs(fs.drop_last());
        match fs.last().1 {
            ExtractionResult::Success(c) => p.push((fs.last().0@, c.text@)),
            _ => p,
        }
    }
}

pub open spec fn pairs_view(v: Seq<(String, String)>) -> Seq<(Seq<char>, Seq<char>)> {
    v.map_values(|p: (String, String)| (p.0@, p.1@))
}

/// The articles to summarize: the URL and text of every fetch that produced content.
pub fn articles_for_summary(fetched: &Vec<(String, ExtractionResult)>) -> (r: Vec<(String, String)>)
    ensures
        pairs_view(r@) == summary_inputs(fetched@),
{
    let mut r: Vec<(String, String)> = Vec::new();
    let mut k: usize = 0;
    while k < fetched.len()
        invariant
            0 <= k <= fetched.len(),
            pairs_view(r@) == summary_inputs(fetched@.subrange(0, k as int)),
        decreases fetched.len() - k,
    {
        assert(fetched@.subrange(0, k + 1).drop_last() == fetched@.subrange(0, k as int));
        match &fetched[k].1 {
            ExtractionResult::Success(c) => {
                let ghost before = r@;
                let pair = (fetched[k].0.clone(), c.text.clone());
                r.push(pair);
                assert(pairs_view(r@) == pairs_view(before).push((pair.0@, pair.1@)));
            },
            _ => {},
        }
        k = k + 1;
    }
    assert(fetched@.subrange(0, fetched.len() as int) == fetched@);
    r
}

// ---------------------------------------------------------------- stories

/// The first summary recorded for `url`.
pub open spec fn summary_for(url: Seq<char>, ss: Seq<(String, Summary)>) -> Option<SummaryView>
    decreases ss.len(),
{
    if ss.len() == 0 {
        None
    } else if ss[0].0@ == url {
        Some(ss[0].1@)
    } else {
        summary_for(url, ss.drop_first())
    }
}

fn find_summary(url: &String, ss: &Vec<(String, Summary)>) -> (r: Option<usize>)
    ensures
        match r {
            Some(j) => j < ss.len() && summary_for(url@, ss@) == Some(ss@[j as int].1@),
            None => summary_for(url@, ss@) is None,
        },
{
    let mut j: usize = 0;
    assert(ss@.subrange(0, ss.len() as int) == ss@);
    while j < ss.len()
        invariant
            0 <= j <= ss.len(),
            summary_for(url@, ss@) == summary_for(url@, ss@.subrange(j as int, ss.len() as int)),
        decreases ss.len() - j,
    {
        assert(ss@.subrange(j as int, ss.len() as int).drop_first() == ss@.subrange(j + 1, ss.len() as int));
        if ss[j].0 == *url {
            return Some(j);
        }
        j = j + 1;
    }
    None
}

/// The story of one bookmark: a paywalled fetch gives a paywall failure; content
/// gives the article's publication date (else the bookmark's) and its summary;
/// anything else keeps the bookmark's date with a failure.
pub open spec fn story_for(
    b: BookmarkView,
    fs: Seq<(String, ExtractionResult)>,
    ss: Seq<(String, Summary)>,
) -> StoryView {
    match fetch_for(b.link, fs) {
        Some(ExtractionView::Paywalled) => StoryView {
            title: b.title,
            url: b.link,
            created: b.created,
            summary: SummaryView::Failed(PAYWALLED_MESSAGE@),
        },
        Some(ExtractionView::Success { text, published_date }) => StoryView {
            title: b.title,
            url: b.link,
            created: match published_date {
                Some(d) => d,
                None => b.created,
            },
            summary: match summary_for(b.link, ss) {
                Some(s) => s,
                None => SummaryView::Failed(SUMMARY_MISSING_MESSAGE@),
            },
        },
        _ => StoryView {
            title: b.title,
            url: b.link,
            created: b.created,
            summary: SummaryView::Failed(NO_CONTENT_MESSAGE@),
        },
    }
}

fn failed_with(m: &'static str) -> (r: Summary)
    ensures
        r@ == SummaryView::Failed(m@),
{
    let mut s = String::new();
    push_text(&mut s, m);
    Summary::Failed(s)
}

/// Builds one story per bookmark, in bookmark order, joining fetch outcomes and
/// summaries by URL.
pub fn build_stories(
    bookmarks: &Vec<Bookmark>,
    fetched: &Vec<(String, ExtractionResult)>,
    summaries: &Vec<(String, Summary)>,
) -> (r: Vec<Story>)
    ensures
        r.len() == bookmarks.len(),
        forall|i: int| 0 <= i < bookmarks.len() ==> #[trigger] r@[i]@ == story_for(bookmarks@[i]@, fetched@, summaries@),
{
    let mut r: Vec<Story> = Vec::new();
    let mut i: usize = 0;
    while i < bookmarks.len()
        invariant
            0 <= i <= bookmarks.len(),
            r.len() == i,
            forall|k: int| 0 <= k < i ==> #[trigger] r@[k]@ == story_for(bookmarks@[k]@, fetched@, summaries@),
        decreases bookmarks.len() - i,
    {
        let b = &bookmarks[i];
        let story = match find_fetch(&b.link, fetched) {
            Some(j) => match &fetched[j].1 {
                ExtractionResult::Paywalled => Story {
                    title: b.title.clone(),
                    url: b.link.clone(),
                    created: b.created.clone(),
                    summary: failed_with(PAYWALLED_MESSAGE),
                },
                ExtractionResult::Success(c) => {
                    let created = match &c.published_date {
                        Some(d) => d.clone(),
                        None => b.created.clone(),
                    };
                    let summary = match find_summary(&b.link, summaries) {
                        Some(k) => summaries[k].1.copied(),
                        None => failed_with(SUMMARY_MISSING_MESSAGE),
                    };
                    Story { title: b.title.clone(), url: b.link.clone(), created, summary }
                },
                ExtractionResult::Failed(_) => Story {
                    title: b.title.clone(),
                    url: b.link.clone(),
                    created: b.created.clone(),
                    summary: failed_with(NO_CONTENT_MESSAGE),
                },
            },
            None => Story {
                title: b.title.clone(),
                url: b.link.clone(),
                created: b.created.clone(),
                summary: failed_with(NO_CONTENT_MESSAGE),
            },
        };
        r.push(story);
        i = i + 1;
    }
    r
}

// ---------------------------------------------------------------- bookmark retrieval

impl Bookmark {
    /// A copy of this bookmark.
    pub fn copied(&self) -> (r: Bookmark)
        ensures
            r@ == self@,
    {
        Bookmark {
            id: self.id,
            title: self.title.clone(),
            link: self.link.clone(),
            excerpt: match &self.excerpt {
                Some(e) => Some(e.clone()),
                None => None,
            },
            tags: copy_strings(&self.tags),
            created: self.created.clone(),
        }
    }
}

/// Lowercase mapping of a string, as `str::to_lowercase` gives it.
pub uninterp spec fn lower_of(s: Seq<char>) -> Seq<char>;

/// Relies on `str::to_lowercase`: the result depends on the characters alone.
#[verifier::external_body]
fn lowercase(s: &str) -> (r: String)
    ensures
        r@ == lower_of(s@),
{
    s.to_lowercase()
}

/// The bookmark carries `tag`, compared without regard to case.
pub open spec fn has_tag(b: BookmarkView, tag: Seq<char>) -> bool {
    exists|i: int| 0 <= i < b.tags.len() && #[trigger] lower_of(b.tags[i]) == lower_of(tag)
}

/// The bookmarks that carry `tag`, in order.
pub open spec fn tagged(bs: Seq<BookmarkView>, tag: Seq<char>) -> Seq<BookmarkView>
    decreases bs.len(),
{
    if bs.len() == 0 {
        Seq::empty()
    } else {
        let p = tagged(bs.drop_last(), tag);
        if has_tag(bs.last(), tag) {
            p.push(bs.last())
        } else {
            p
        }
    }
}

fn carries_tag(b: &Bookmark, tag_lower: &String) -> (r: bool)
    ensures
        r == exists|i: int| 0 <= i < b@.tags.len() && #[trigger] lower_of(b@.tags[i]) == tag_lower@,
{
    let mut i: usize = 0;
    while i < b.tags.len()
        invariant
            0 <= i <= b.tags.len(),
            forall|k: int| 0 <= k < i ==> #[trigger] lower_of(b@.tags[k]) != tag_lower@,
        decreases b.tags.len() - i,
    {
        let t = lowercase(b.tags[i].as_str());
        assert(b@.tags[i as int] == b.tags@[i as int]@);
        if t == *tag_lower {
            return true;
        }
        i = i + 1;
    }
    false
}

/// Keeps the bookmarks that carry `tag`, ignoring case, in their order.
pub fn filter_by_tag(bookmarks: &Vec<Bookmark>, tag: &str) -> (r: Vec<Bookmark>)
    ensures
        bookmarks_view(r@) == tagged(bookmarks_view(bookmarks@), tag@),
{
    let tag_lower = lowercase(tag);
    let mut r: Vec<Bookmark> = Vec::new();
    let mut k: usize = 0;
    while k < bookmarks.len()
        invariant
            0 <= k <= bookmarks.len(),
            tag_lower@ == lower_of(tag@),
            bookmarks_view(r@) == tagged(bookmarks_view(bookmarks@.subrange(0, k as int)), tag@),
        decreases bookmarks.len() - k,
    {
        assert(bookmarks_view(bookmarks@.subrange(0, k + 1)).drop_last()
            == bookmarks_view(bookmarks@.subrange(0, k as int)));
        if carries_tag(&bookmarks[k], &tag_lower) {
            let ghost before = r@;
            let b = bookmarks[k].copied();
            r.push(b);
            assert(bookmarks_view(r@) == bookmarks_view(before).push(b@));
        }
        k = k + 1;
    }
    assert(bookmarks@.subrange(0, bookmarks.len() as int) == bookmarks@);
    r
}

/// Bytes that percent-encoding leaves as they are.
pub open spec fn is_unreserved(b: u8) -> bool {
    (48 <= b <= 57) || (65 <= b <= 90) || (97 <= b <= 122) || b == 45 || b == 46 || b == 95 || b == 126
}

/// Upper-case hexadecimal digit of `d < 16`.
pub open spec fn hex_upper(d: u8) -> char {
    if d < 10 { (48 + d) as char } else { (55 + d) as char }
}

/// Percent-encoding of bytes: unreserved bytes stay, every other byte becomes `%XX`.
pub open spec fn percent_encoded(bytes: Seq<u8>) -> Seq<char>
    decreases bytes.len(),
{
    if bytes.len() == 0 {
        Seq::empty()
    } else {
        let b = bytes.last();
        percent_encoded(bytes.drop_last()) + if is_unreserved(b) {
            seq![b as char]
        } else {
            seq!['%', hex_upper(b / 16), hex_upper(b % 16)]
        }
    }
}

/// Relies on `urlencoding::encode`: percent-encodes the UTF-8 bytes of `s`,
/// keeping alphanumerics and `-`, `_`, `.`, `~`, with upper-case hex digits.
#[verifier::external_body]
fn url_encode(s: &str) -> (r: String)
    ensures
        r@ == percent_encoded(encode_utf8(s@)),
{
    urlencoding::encode(s).into_owned()
}

/// The bookmark-service query for bookmarks created after `since_day` (`YYYY-MM-DD`).
pub open spec fn bookmarks_query(since_day: Seq<char>) -> Seq<char> {
    "created:>"@ + since_day
}

/// Address of page `page` of the bookmarks created after `since_day`.
pub fn bookmarks_page_url(page: usize, since_day: &str) -> (r: String)
    ensures
        r@ == BOOKMARKS_ENDPOINT@ + decimal(BOOKMARKS_PER_PAGE as nat) + "&page="@ + decimal(page as nat)
            + "&search="@ + percent_encoded(encode_utf8(bookmarks_query(since_day@))),
{
    let mut query = String::new();
    push_text(&mut query, "created:>");
    push_text(&mut query, since_day);
    let encoded = url_encode(query.as_str());
    let mut r = String::new();
    push_text(&mut r, BOOKMARKS_ENDPOINT);
    push_decimal(&mut r, BOOKMARKS_PER_PAGE);
    push_text(&mut r, "&page=");
    push_decimal(&mut r, page);
    push_text(&mut r, "&search=");
    push_text(&mut r, encoded.as_str());
    r
}

} // verus!
