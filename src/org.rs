//! Reading an edited org-mode briefing book back into topics: level-one headings
//! are topics, level-two headings stories, level-three headings the URL, Date and
//! Summary sections of a story. Stories are then ordered by date, oldest first.

use vstd::prelude::*;
use crate::calendar::{
    parse_day, parsed_day, rfc2822_instant, rfc2822_instant_of, rfc3339_instant, rfc3339_instant_of, UNIX_EPOCH_DAY,
};
use crate::model::{
    copy_opt_string, copy_strings, opt_view, stories_view, strings_view, topics_view, Story, StoryView, Summary, SummaryView, Topic, TopicView,
};
use crate::text::{
    chars_of, fold_lines, lemma_fold_lines_step, line_end, push_text, range_starts_with, starts_with,
    same_text, string_of, trim, trim_bounds,
};

verus! {

pub const NO_TOPICS_MESSAGE: &'static str = "No topics found in org file. Make sure the file follows the expected format.";
pub const DEFAULT_SHOW_NAME: &'static str = "Briefing";

/// What has been read of an org document so far.
pub struct OrgParse {
    pub show_name: Seq<char>,
    pub topics: Seq<TopicView>,
    pub topic: Option<TopicView>,
    pub story: Option<StoryView>,
    pub section: Option<Seq<char>>,
    pub points: Seq<Seq<char>>,
    pub quote: Option<Seq<char>>,
}

/// `s` with every occurrence of `pat` taken out, scanning left to right.
pub open spec fn remove_all(s: Seq<char>, pat: Seq<char>) -> Seq<char>
    decreases s.len(),
{
    if pat.len() == 0 || s.len() < pat.len() {
        s
    } else if s.subrange(0, pat.len() as int) == pat {
        remove_all(s.subrange(pat.len() as int, s.len() as int), pat)
    } else {
        seq![s[0]] + remove_all(s.drop_first(), pat)
    }
}

/// The show name in a `#+TITLE:` value: the title without the words
/// `Briefing Book` and `Briefing`.
pub open spec fn show_name_of_title(title: Seq<char>) -> Seq<char> {
    trim(remove_all(remove_all(title, "Briefing Book"@), "Briefing"@))
}

/// The topic with the open story added to it.
pub open spec fn close_story(topic: Option<TopicView>, story: Option<StoryView>) -> Option<TopicView> {
    match (topic, story) {
        (Some(t), Some(s)) => Some(TopicView { title: t.title, stories: t.stories.push(s) }),
        _ => topic,
    }
}

/// The topics with the open topic added, when it has stories.
pub open spec fn close_topic(topics: Seq<TopicView>, topic: Option<TopicView>) -> Seq<TopicView> {
    match topic {
        Some(t) => if t.stories.len() > 0 { topics.push(t) } else { topics },
        None => topics,
    }
}

/// A content line of a story's section.
pub open spec fn org_content(st: OrgParse, section: Seq<char>, t: Seq<char>) -> OrgParse {
    if section == "URL"@ {
        OrgParse {
            story: match st.story {
                Some(s) => Some(StoryView { url: t, ..s }),
                None => None,
            },
            ..st
        }
    } else if section == "Date"@ {
        OrgParse {
            story: match st.story {
                Some(s) => Some(StoryView { created: t, ..s }),
                None => None,
            },
            ..st
        }
    } else if section == "Summary"@ {
        let quote = if t[0] == '"' { Some(t) } else { st.quote };
        let points = if t[0] != '"' && starts_with(t, "- "@) {
            st.points.push(trim(t.subrange(2, t.len() as int)))
        } else {
            st.points
        };
        OrgParse {
            story: match st.story {
                Some(s) => if points.len() > 0 {
                    Some(StoryView { summary: SummaryView::Success { points, quote }, ..s })
                } else {
                    Some(s)
                },
                None => None,
            },
            points,
            quote,
            ..st
        }
    } else {
        st
    }
}

/// One line of an org document.
pub open spec fn org_line(st: OrgParse, line: Seq<char>) -> OrgParse {
    let t = trim(line);
    if starts_with(t, "#+TITLE:"@) {
        OrgParse { show_name: show_name_of_title(trim(t.subrange(8, t.len() as int))), ..st }
    } else if starts_with(t, "#+"@) {
        st
    } else if starts_with(t, "* "@) {
        OrgParse {
            topics: close_topic(st.topics, close_story(st.topic, st.story)),
            topic: Some(TopicView { title: trim(t.subrange(2, t.len() as int)), stories: Seq::empty() }),
            story: None,
            section: None,
            ..st
        }
    } else if starts_with(t, "** "@) {
        OrgParse {
            topic: close_story(st.topic, st.story),
            story: Some(StoryView {
                title: trim(t.subrange(3, t.len() as int)),
                url: Seq::empty(),
                created: Seq::empty(),
                summary: SummaryView::Insufficient,
            }),
            section: None,
            points: Seq::empty(),
            quote: None,
            ..st
        }
    } else if starts_with(t, "*** "@) {
        OrgParse { section: Some(trim(t.subrange(4, t.len() as int))), ..st }
    } else if t.len() > 0 {
        match st.section {
            Some(sec) => org_content(st, sec, t),
            None => st,
        }
    } else {
        st
    }
}

pub open spec fn org_step() -> spec_fn(OrgParse, Seq<char>) -> OrgParse {
    |st: OrgParse, line: Seq<char>| org_line(st, line)
}

pub open spec fn org_start() -> OrgParse {
    OrgParse {
        show_name: DEFAULT_SHOW_NAME@,
        topics: Seq::empty(),
        topic: None,
        story: None,
        section: None,
        points: Seq::empty(),
        quote: None,
    }
}

/// The show name and the topics with stories, in document order.
pub open spec fn org_read(content: Seq<char>) -> (Seq<char>, Seq<TopicView>) {
    let st = fold_lines(content, org_start(), org_step());
    (st.show_name, close_topic(st.topics, close_story(st.topic, st.story)))
}

// ---------------------------------------------------------------- reading

struct OrgState {
    show_name: String,
    topics: Vec<Topic>,
    topic: Option<Topic>,
    story: Option<Story>,
    section: Option<String>,
    points: Vec<String>,
    quote: Option<String>,
}

pub open spec fn opt_topic_view(t: Option<Topic>) -> Option<TopicView> {
    match t {
        Some(x) => Some(x@),
        None => None,
    }
}

pub open spec fn opt_story_view(s: Option<Story>) -> Option<StoryView> {
    match s {
        Some(x) => Some(x@),
        None => None,
    }
}

impl View for OrgState {
    type V = OrgParse;

    closed spec fn view(&self) -> OrgParse {
        OrgParse {
            show_name: self.show_name@,
            topics: topics_view(self.topics@),
            topic: opt_topic_view(self.topic),
            story: opt_story_view(self.story),
            section: opt_view(self.section),
            points: strings_view(self.points@),
            quote: opt_view(self.quote),
        }
    }
}

/// `v` with every occurrence of `pat` taken out.
fn remove_all_chars(v: &Vec<char>, pat: &Vec<char>) -> (r: Vec<char>)
    requires
        pat.len() > 0,
    ensures
        r@ == remove_all(v@, pat@),
{
    let mut out: Vec<char> = Vec::new();
    let mut i: usize = 0;
    assert(v@.subrange(0, v.len() as int) == v@);
    while i < v.len()
        invariant
            pat.len() > 0,
            0 <= i <= v.len(),
            remove_all(v@, pat@) == out@ + remove_all(v@.subrange(i as int, v.len() as int), pat@),
        decreases v.len() - i,
    {
        let ghost rest = v@.subrange(i as int, v.len() as int);
        if pat.len() <= v.len() - i && range_starts_with(v, i, v.len(), pat) {
            assert(rest.subrange(pat.len() as int, rest.len() as int) == v@.subrange(i + pat.len(), v.len() as int));
            i = i + pat.len();
        } else {
            assert(rest.drop_first() == v@.subrange(i + 1, v.len() as int));
            assert(rest.len() < pat.len() || rest.subrange(0, pat.len() as int) != pat@);
            let ghost before = out@;
            out.push(v[i]);
            assert(out@ + remove_all(v@.subrange(i + 1, v.len() as int), pat@)
                == before + (seq![rest[0]] + remove_all(rest.drop_first(), pat@)));
            i = i + 1;
        }
    }
    assert(v@.subrange(v.len() as int, v.len() as int) == Seq::<char>::empty());
    out
}

fn trimmed_string(v: &Vec<char>, lo: usize, hi: usize) -> (r: String)
    requires
        lo <= hi <= v.len(),
    ensures
        r@ == trim(v@.subrange(lo as int, hi as int)),
{
    let (a, b) = trim_bounds(v, lo, hi);
    string_of(v, a, b)
}

fn close_story_exec(topic: Option<Topic>, story: Option<Story>) -> (r: Option<Topic>)
    ensures
        opt_topic_view(r) == close_story(opt_topic_view(topic), opt_story_view(story)),
{
    match topic {
        Some(t) => match story {
            Some(s) => {
                let mut stories = t.stories;
                let ghost before = stories@;
                stories.push(s);
                assert(stories_view(stories@) == stories_view(before).push(s@));
                Some(Topic { title: t.title, stories })
            },
            None => Some(t),
        },
        None => None,
    }
}

fn close_topic_exec(topics: &mut Vec<Topic>, topic: Option<Topic>)
    ensures
        topics_view(final(topics)@) == close_topic(topics_view(old(topics)@), opt_topic_view(topic)),
{
    match topic {
        Some(t) => {
            if t.stories.len() > 0 {
                let ghost before = topics@;
                topics.push(t);
                assert(topics_view(topics@) == topics_view(before).push(t@));
            }
        },
        None => {},
    }
}

/// Reads one content line `v[a..b]` (already trimmed, non-empty) of section `sec`.
fn read_content(st: OrgState, sec: &String, v: &Vec<char>, a: usize, b: usize) -> (r: OrgState)
    requires
        a < b <= v.len(),
    ensures
        r@ == org_content(st@, sec@, v@.subrange(a as int, b as int)),
{
    let ghost t = v@.subrange(a as int, b as int);
    let OrgState { show_name, topics, topic, story, section, points, quote } = st;
    if same_text(sec.as_str(), "URL") {
        let story = match story {
            Some(s) => Some(Story { url: string_of(v, a, b), ..s }),
            None => None,
        };
        OrgState { show_name, topics, topic, story, section, points, quote }
    } else if same_text(sec.as_str(), "Date") {
        let story = match story {
            Some(s) => Some(Story { created: string_of(v, a, b), ..s }),
            None => None,
        };
        OrgState { show_name, topics, topic, story, section, points, quote }
    } else if same_text(sec.as_str(), "Summary") {
        let dash = chars_of("- ");
        proof { reveal_strlit("- "); }
        assert(dash.len() == 2);
        let mut points = points;
        let quote = if v[a] == '"' { Some(string_of(v, a, b)) } else { quote };
        if v[a] != '"' && range_starts_with(v, a, b, &dash) {
            assert(t.subrange(2, t.len() as int) == v@.subrange(a + 2, b as int));
            let p = trimmed_string(v, a + 2, b);
            let ghost before = points@;
            points.push(p);
            assert(strings_view(points@) == strings_view(before).push(p@));
        }
        let story = match story {
            Some(s) => if points.len() > 0 {
                Some(Story { summary: Summary::Success { points: copy_strings(&points), quote: copy_opt_string(&quote) }, ..s })
            } else {
                Some(s)
            },
            None => None,
        };
        OrgState { show_name, topics, topic, story, section, points, quote }
    } else {
        OrgState { show_name, topics, topic, story, section, points, quote }
    }
}

/// Reads line `v[lo..hi]`.
fn read_line(st: OrgState, v: &Vec<char>, lo: usize, hi: usize) -> (r: OrgState)
    requires
        lo <= hi <= v.len(),
    ensures
        r@ == org_line(st@, v@.subrange(lo as int, hi as int)),
{
    let ghost line = v@.subrange(lo as int, hi as int);
    let (a, b) = trim_bounds(v, lo, hi);
    let ghost t = v@.subrange(a as int, b as int);
    assert(t == trim(line));
    let title_tag = chars_of("#+TITLE:");
    let property_tag = chars_of("#+");
    let topic_tag = chars_of("* ");
    let story_tag = chars_of("** ");
    let section_tag = chars_of("*** ");
    proof {
        reveal_strlit("#+TITLE:");
        reveal_strlit("* ");
        reveal_strlit("** ");
        reveal_strlit("*** ");
    }
    assert(title_tag.len() == 8 && topic_tag.len() == 2 && story_tag.len() == 3 && section_tag.len() == 4);
    let OrgState { show_name, topics, topic, story, section, points, quote } = st;
    if range_starts_with(v, a, b, &title_tag) {
        assert(t.subrange(8, t.len() as int) == v@.subrange(a + 8, b as int));
        let (ta, tb) = trim_bounds(v, a + 8, b);
        let mut title: Vec<char> = Vec::new();
        let mut k = ta;
        while k < tb
            invariant
                ta <= k <= tb <= v.len(),
                title@ == v@.subrange(ta as int, k as int),
            decreases tb - k,
        {
            title.push(v[k]);
            k = k + 1;
        }
        let book = chars_of("Briefing Book");
        let briefing = chars_of("Briefing");
        proof {
            reveal_strlit("Briefing Book");
            reveal_strlit("Briefing");
        }
        let once = remove_all_chars(&title, &book);
        let twice = remove_all_chars(&once, &briefing);
        let name = trimmed_string(&twice, 0, twice.len());
        assert(twice@.subrange(0, twice.len() as int) == twice@);
        OrgState { show_name: name, topics, topic, story, section, points, quote }
    } else if range_starts_with(v, a, b, &property_tag) {
        OrgState { show_name, topics, topic, story, section, points, quote }
    } else if range_starts_with(v, a, b, &topic_tag) {
        assert(t.subrange(2, t.len() as int) == v@.subrange(a + 2, b as int));
        let mut topics = topics;
        close_topic_exec(&mut topics, close_story_exec(topic, story));
        let title = trimmed_string(v, a + 2, b);
        let fresh = Topic { title, stories: Vec::new() };
        assert(stories_view(fresh.stories@) == Seq::<StoryView>::empty());
        OrgState { show_name, topics, topic: Some(fresh), story: None, section: None, points, quote }
    } else if range_starts_with(v, a, b, &story_tag) {
        assert(t.subrange(3, t.len() as int) == v@.subrange(a + 3, b as int));
        let topic = close_story_exec(topic, story);
        let title = trimmed_string(v, a + 3, b);
        let fresh = Story { title, url: String::new(), created: String::new(), summary: Summary::Insufficient };
        let points: Vec<String> = Vec::new();
        assert(strings_view(points@) == Seq::<Seq<char>>::empty());
        OrgState { show_name, topics, topic, story: Some(fresh), section: None, points, quote: None }
    } else if range_starts_with(v, a, b, &section_tag) {
        assert(t.subrange(4, t.len() as int) == v@.subrange(a + 4, b as int));
        let name = trimmed_string(v, a + 4, b);
        OrgState { show_name, topics, topic, story, section: Some(name), points, quote }
    } else if a < b {
        match section {
            Some(sec) => {
                let st = OrgState { show_name, topics, topic, story, section: Some(sec.clone()), points, quote };
                read_content(st, &sec, v, a, b)
            },
            None => OrgState { show_name, topics, topic, story, section: None, points, quote },
        }
    } else {
        OrgState { show_name, topics, topic, story, section, points, quote }
    }
}

/// Reads an org document into its show name and its topics with stories, in
/// document order.
fn read_org(content: &str) -> (r: (String, Vec<Topic>))
    ensures
        (r.0@, topics_view(r.1@)) == org_read(content@),
{
    let v = chars_of(content);
    let mut name = String::new();
    push_text(&mut name, DEFAULT_SHOW_NAME);
    let mut st = OrgState {
        show_name: name,
        topics: Vec::new(),
        topic: None,
        story: None,
        section: None,
        points: Vec::new(),
        quote: None,
    };
    assert(topics_view(st.topics@) == Seq::<TopicView>::empty());
    assert(strings_view(st.points@) == Seq::<Seq<char>>::empty());
    assert(st@ == org_start());
    assert(v@.subrange(0, v.len() as int) == v@);
    let mut pos: usize = 0;
    while pos < v.len()
        invariant
            0 <= pos <= v.len(),
            v@ == content@,
            fold_lines(content@, org_start(), org_step())
                == fold_lines(v@.subrange(pos as int, v.len() as int), st@, org_step()),
        decreases v.len() - pos,
    {
        let e = line_end(&v, pos);
        proof {
            lemma_fold_lines_step(v@, pos as int, e as int, st@, org_step());
        }
        let ghost before = st@;
        st = read_line(st, &v, pos, e);
        assert(org_step()(before, v@.subrange(pos as int, e as int)) == st@);
        if e < v.len() {
            pos = e + 1;
        } else {
            pos = v.len();
            assert(v@.subrange(pos as int, v.len() as int) == Seq::<char>::empty());
        }
    }
    let OrgState { show_name, topics, topic, story, section, points, quote } = st;
    let mut topics = topics;
    close_topic_exec(&mut topics, close_story_exec(topic, story));
    (show_name, topics)
}

// ---------------------------------------------------------------- ordering by date

/// Day formats accepted for a story date, in order.
pub open spec fn day_format(i: int) -> Seq<char> {
    if i == 0 {
        "%a, %e %b %Y"@
    } else if i == 1 {
        "%a, %d %b %Y"@
    } else if i == 2 {
        "%e %b %Y"@
    } else if i == 3 {
        "%d %b %Y"@
    } else {
        "%Y-%m-%d"@
    }
}

pub const DAY_FORMAT_COUNT: usize = 5;

fn day_format_at(i: usize) -> (r: &'static str)
    requires
        i < DAY_FORMAT_COUNT,
    ensures
        r@ == day_format(i as int),
{
    if i == 0 {
        "%a, %e %b %Y"
    } else if i == 1 {
        "%a, %d %b %Y"
    } else if i == 2 {
        "%e %b %Y"
    } else if i == 3 {
        "%d %b %Y"
    } else {
        "%Y-%m-%d"
    }
}

/// Instant of midnight UTC starting day number `d`.
pub open spec fn midnight_instant(d: int) -> (i64, u32) {
    (((d - UNIX_EPOCH_DAY) * 86400) as i64, 0u32)
}

/// The first day format from `i` on that reads `s`.
pub open spec fn day_key_from(s: Seq<char>, i: int) -> Option<(i64, u32)>
    decreases DAY_FORMAT_COUNT - i,
{
    if i < 0 || i >= DAY_FORMAT_COUNT {
        None
    } else {
        match parsed_day(s, day_format(i)) {
            Some(d) => Some(midnight_instant(d)),
            None => day_key_from(s, i + 1),
        }
    }
}

/// The instant a story date stands for: an RFC 3339 timestamp, an RFC 2822 date
/// at midnight UTC, or a day in one of the accepted formats; none if empty or
/// unreadable.
pub open spec fn date_sort_key(s: Seq<char>) -> Option<(i64, u32)> {
    if s.len() == 0 {
        None
    } else {
        match rfc3339_instant_of(s) {
            Some(k) => Some(k),
            None => match rfc2822_instant_of(s + " 00:00:00 +0000"@) {
                Some(k) => Some(k),
                None => day_key_from(trim(s), 0),
            },
        }
    }
}

/// The sort key of a story date.
pub fn parse_date_for_sorting(date_str: &str) -> (r: Option<(i64, u32)>)
    ensures
        r == date_sort_key(date_str@),
{
    if date_str.is_empty() {
        return None;
    }
    match rfc3339_instant(date_str) {
        Some(k) => Some(k),
        None => {
            let mut with_time = String::new();
            push_text(&mut with_time, date_str);
            push_text(&mut with_time, " 00:00:00 +0000");
            match rfc2822_instant(with_time.as_str()) {
                Some(k) => Some(k),
                None => {
                    let trimmed = trimmed_string(&chars_of(date_str), 0, chars_of(date_str).len());
                    proof {
                        let v = date_str@;
                        assert(v.subrange(0, v.len() as int) == v);
                    }
                    let mut i: usize = 0;
                    while i < DAY_FORMAT_COUNT
                        invariant
                            0 <= i <= DAY_FORMAT_COUNT,
                            date_str@.len() > 0,
                            rfc3339_instant_of(date_str@) is None,
                            rfc2822_instant_of(date_str@ + " 00:00:00 +0000"@) is None,
                            trimmed@ == trim(date_str@),
                            day_key_from(trim(date_str@), 0) == day_key_from(trimmed@, i as int),
                        decreases DAY_FORMAT_COUNT - i,
                    {
                        match parse_day(trimmed.as_str(), day_format_at(i)) {
                            Some(d) => {
                                return Some((((d as i64) - UNIX_EPOCH_DAY) * 86400, 0));
                            },
                            None => {},
                        }
                        i = i + 1;
                    }
                    None
                },
            }
        },
    }
}

/// Order of sort keys: earlier instants first, dates without a key last.
pub open spec fn key_le(a: Option<(i64, u32)>, b: Option<(i64, u32)>) -> bool {
    match (a, b) {
        (Some(x), Some(y)) => x.0 < y.0 || (x.0 == y.0 && x.1 <= y.1),
        (Some(_), None) => true,
        (None, Some(_)) => false,
        (None, None) => true,
    }
}

fn key_le_exec(a: Option<(i64, u32)>, b: Option<(i64, u32)>) -> (r: bool)
    ensures
        r == key_le(a, b),
{
    match (a, b) {
        (Some(x), Some(y)) => x.0 < y.0 || (x.0 == y.0 && x.1 <= y.1),
        (Some(_), None) => true,
        (None, Some(_)) => false,
        (None, None) => true,
    }
}

/// `x` placed into date-ordered `s` after every story that is not later.
pub open spec fn insert_by_date(s: Seq<StoryView>, x: StoryView) -> Seq<StoryView>
    decreases s.len(),
{
    if s.len() == 0 {
        seq![x]
    } else if key_le(date_sort_key(s.last().created), date_sort_key(x.created)) {
        s.push(x)
    } else {
        insert_by_date(s.drop_last(), x).push(s.last())
    }
}

/// Stories ordered by date, oldest first, undated last; stories that compare
/// equal keep their order.
pub open spec fn sort_by_date(s: Seq<StoryView>) -> Seq<StoryView>
    decreases s.len(),
{
    if s.len() == 0 {
        Seq::empty()
    } else {
        insert_by_date(sort_by_date(s.drop_last()), s.last())
    }
}

proof fn lemma_insert_at(s: Seq<StoryView>, x: StoryView, p: int)
    requires
        0 <= p <= s.len(),
        forall|j: int| p <= j < s.len() ==> !key_le(date_sort_key(#[trigger] s[j].created), date_sort_key(x.created)),
        p == 0 || key_le(date_sort_key(s[p - 1].created), date_sort_key(x.created)),
    ensures
        insert_by_date(s, x) == s.insert(p, x),
    decreases s.len() - p,
{
    if s.len() == 0 {
        assert(s.insert(p, x) == seq![x]);
    } else if p == s.len() {
        assert(s.insert(p, x) == s.push(x));
    } else {
        assert(!key_le(date_sort_key(s.last().created), date_sort_key(x.created)));
        let t = s.drop_last();
        assert forall|j: int| p <= j < t.len() implies !key_le(date_sort_key(#[trigger] t[j].created), date_sort_key(x.created)) by {
            assert(t[j] == s[j]);
        }
        lemma_insert_at(t, x, p);
        assert(s.insert(p, x) == t.insert(p, x).push(s.last()));
    }
}

/// Orders stories by date, oldest first, undated last, keeping the order of ties.
pub fn sort_stories_by_date(stories: Vec<Story>) -> (r: Vec<Story>)
    ensures
        stories_view(r@) == sort_by_date(stories_view(stories@)),
{
    let mut out: Vec<Story> = Vec::new();
    let mut keys: Vec<Option<(i64, u32)>> = Vec::new();
    let mut rest = stories;
    let ghost input = stories_view(rest@);
    let mut i: usize = 0;
    let n = rest.len();
    // Reversed once, so that popping takes stories from the front.
    let mut pending: Vec<Story> = Vec::new();
    while rest.len() > 0
        invariant
            input.len() == n,
            rest.len() + pending.len() == n,
            stories_view(rest@) == input.subrange(0, rest.len() as int),
            forall|j: int| 0 <= j < pending.len() ==> #[trigger] pending@[j]@ == input[n - 1 - j],
        decreases rest.len(),
    {
        let ghost old_rest = stories_view(rest@);
        let s = rest.pop().unwrap();
        assert(old_rest[rest.len() as int] == s@);
        let ghost old_pending = pending@;
        pending.push(s);
        assert forall|j: int| 0 <= j < pending.len() implies #[trigger] pending@[j]@ == input[n - 1 - j] by {
            if j < old_pending.len() {
                assert(pending@[j] == old_pending[j]);
            }
        }
        assert(stories_view(rest@) == input.subrange(0, rest.len() as int));
    }
    while i < n
        invariant
            0 <= i <= n,
            input.len() == n,
            pending.len() == n - i,
            forall|j: int| 0 <= j < pending.len() ==> #[trigger] pending@[j]@ == input[n - 1 - j],
            out.len() == keys.len(),
            forall|j: int| 0 <= j < out.len() ==> #[trigger] keys@[j] == date_sort_key(out@[j]@.created),
            stories_view(out@) == sort_by_date(input.subrange(0, i as int)),
        decreases n - i,
    {
        let x = pending.pop().unwrap();
        assert(x@ == input[i as int]);
        let k = parse_date_for_sorting(x.created.as_str());
        let mut p = out.len();
        while p > 0 && !key_le_exec(keys[p - 1], k)
            invariant
                0 <= p <= out.len(),
                out.len() == keys.len(),
                forall|j: int| 0 <= j < out.len() ==> #[trigger] keys@[j] == date_sort_key(out@[j]@.created),
                forall|j: int| p <= j < out.len() ==> !key_le(date_sort_key(#[trigger] out@[j]@.created), k),
            decreases p,
        {
            p = p - 1;
        }
        let ghost before = stories_view(out@);
        proof {
            assert forall|j: int| p <= j < before.len() implies !key_le(date_sort_key(#[trigger] before[j].created), date_sort_key(x@.created)) by {
                assert(before[j] == out@[j]@);
            }
            if p > 0 {
                assert(before[p - 1] == out@[p - 1]@);
            }
            lemma_insert_at(before, x@, p as int);
            assert(input.subrange(0, i + 1).drop_last() == input.subrange(0, i as int));
        }
        out.insert(p, x);
        keys.insert(p, k);
        assert(stories_view(out@) == before.insert(p as int, x@));
        i = i + 1;
    }
    assert(input.subrange(0, n as int) == input);
    out
}

/// The topics with each one's stories ordered by date.
pub open spec fn topics_by_date(ts: Seq<TopicView>) -> Seq<TopicView> {
    ts.map_values(|t: TopicView| TopicView { title: t.title, stories: sort_by_date(t.stories) })
}

/// Reads an edited briefing book: the show name (from `#+TITLE:`, default
/// `Briefing`) and the topics that have stories, each topic's stories ordered by
/// date; an error when no topic has a story.
pub fn parse_org_mode(content: &str) -> (r: Result<(String, Vec<Topic>), String>)
    ensures
        ({
            let (name, topics) = org_read(content@);
            match r {
                Ok((n, ts)) => topics.len() > 0 && n@ == name && topics_view(ts@) == topics_by_date(topics),
                Err(m) => topics.len() == 0 && m@ == NO_TOPICS_MESSAGE@,
            }
        }),
{
    let (show_name, topics) = read_org(content);
    if topics.len() == 0 {
        let mut m = String::new();
        push_text(&mut m, NO_TOPICS_MESSAGE);
        return Err(m);
    }
    let ghost tv = topics_view(topics@);
    let mut rest = topics;
    let mut sorted_rev: Vec<Topic> = Vec::new();
    let n = rest.len();
    while rest.len() > 0
        invariant
            tv.len() == n,
            rest.len() + sorted_rev.len() == n,
            topics_view(rest@) == tv.subrange(0, rest.len() as int),
            forall|j: int| 0 <= j < sorted_rev.len() ==> #[trigger] sorted_rev@[j]@ == topics_by_date(tv)[n - 1 - j],
        decreases rest.len(),
    {
        let ghost old_rest = topics_view(rest@);
        let t = rest.pop().unwrap();
        assert(old_rest[rest.len() as int] == t@);
        let Topic { title, stories } = t;
        let sorted = Topic { title, stories: sort_stories_by_date(stories) };
        assert(sorted@ == topics_by_date(tv)[rest.len() as int]);
        let ghost old_sorted = sorted_rev@;
        sorted_rev.push(sorted);
        assert forall|j: int| 0 <= j < sorted_rev.len() implies #[trigger] sorted_rev@[j]@ == topics_by_date(tv)[n - 1 - j] by {
            if j < old_sorted.len() {
                assert(sorted_rev@[j] == old_sorted[j]);
            }
        }
        assert(topics_view(rest@) == tv.subrange(0, rest.len() as int));
    }
    let mut out: Vec<Topic> = Vec::new();
    while sorted_rev.len() > 0
        invariant
            tv.len() == n,
            out.len() + sorted_rev.len() == n,
            forall|j: int| 0 <= j < sorted_rev.len() ==> #[trigger] sorted_rev@[j]@ == topics_by_date(tv)[n - 1 - j],
            topics_view(out@) == topics_by_date(tv).subrange(0, out.len() as int),
        decreases sorted_rev.len(),
    {
        let t = sorted_rev.pop().unwrap();
        let ghost before = topics_view(out@);
        out.push(t);
        assert(topics_view(out@) == before.push(t@));
    }
    assert(topics_by_date(tv).subrange(0, n as int) == topics_by_date(tv));
    Ok((show_name, out))
}

} // verus!
