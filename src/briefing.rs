//! Rendering helpers for the briefing documents, and the shows they are made for.

use vstd::prelude::*;
use crate::model::{stories_view, strings_view, topics_view, Story, StoryView, Summary, SummaryView, Topic, TopicView};
use crate::calendar::formatted;
use crate::schedule::{next_show_day, UtcMoment, SHOW_DAY_FORMAT};
use crate::text::{
    chars_of, find_char_from, first_index_of, has_char, join_with, last_index_of, lemma_first_index_of_bound,
    lemma_last_index_of_bound, push_chars, push_text, rfind_char, same_text, split_on, string_of, vec_has_char,
};

verus! {

/// Names, slug and bookmark tag of a show.
#[derive(Debug, Clone)]
pub struct ShowInfo {
    pub name: String,
    pub slug: String,
    pub tag: String,
}

impl ShowInfo {
    pub fn new(name: &str, slug: &str, tag: &str) -> (r: ShowInfo)
        ensures
            r.name@ == name@,
            r.slug@ == slug@,
            r.tag@ == tag@,
    {
        let mut n = String::new();
        push_text(&mut n, name);
        let mut s = String::new();
        push_text(&mut s, slug);
        let mut t = String::new();
        push_text(&mut t, tag);
        ShowInfo { name: n, slug: s, tag: t }
    }
}

/// The shows a briefing can be prepared for.
#[derive(Debug, Clone, Copy, PartialEq, Eq, Structural)]
pub enum Show {
    TWiT,
    MacBreakWeekly,
    IntelligentMachines,
}

impl Show {
    pub open spec fn spec_slug(self) -> Seq<char> {
        match self {
            Show::TWiT => "twit"@,
            Show::MacBreakWeekly => "mbw"@,
            Show::IntelligentMachines => "im"@,
        }
    }

    pub open spec fn spec_name(self) -> Seq<char> {
        match self {
            Show::TWiT => "This Week in Tech"@,
            Show::MacBreakWeekly => "MacBreak Weekly"@,
            Show::IntelligentMachines => "Intelligent Machines"@,
        }
    }

    pub open spec fn spec_tag(self) -> Seq<char> {
        match self {
            Show::TWiT => "#twit"@,
            Show::MacBreakWeekly => "#mbw"@,
            Show::IntelligentMachines => "#im"@,
        }
    }

    /// Name, slug and tag of this show.
    pub fn info(&self) -> (r: ShowInfo)
        ensures
            r.name@ == self.spec_name(),
            r.slug@ == self.spec_slug(),
            r.tag@ == self.spec_tag(),
    {
        match self {
            Show::TWiT => ShowInfo::new("This Week in Tech", "twit", "#twit"),
            Show::MacBreakWeekly => ShowInfo::new("MacBreak Weekly", "mbw", "#mbw"),
            Show::IntelligentMachines => ShowInfo::new("Intelligent Machines", "im", "#im"),
        }
    }

    /// The show with this slug, if any.
    pub fn from_slug(slug: &str) -> (r: Option<Show>)
        ensures
            match r {
                Some(s) => s.spec_slug() == slug@,
                None => forall|s: Show| s.spec_slug() != slug@,
            },
    {
        if same_text(slug, "twit") {
            Some(Show::TWiT)
        } else if same_text(slug, "mbw") {
            Some(Show::MacBreakWeekly)
        } else if same_text(slug, "im") {
            Some(Show::IntelligentMachines)
        } else {
            proof {
                assert forall|s: Show| s.spec_slug() != slug@ by {
                    match s {
                        Show::TWiT => {},
                        Show::MacBreakWeekly => {},
                        Show::IntelligentMachines => {},
                    }
                }
            }
            None
        }
    }
}

// ---------------------------------------------------------------- file names

/// The file name in a path: the text after its last `/`, trailing `/`s aside.
pub open spec fn file_name_of(path: Seq<char>) -> Seq<char> {
    let p = trim_trailing_slashes(path);
    p.subrange(last_index_of(p, '/') + 1, p.len() as int)
}

/// `path` without the `/`s that end it, which name no further component.
pub open spec fn trim_trailing_slashes(path: Seq<char>) -> Seq<char>
    decreases path.len(),
{
    if path.len() > 0 && path.last() == '/' {
        trim_trailing_slashes(path.drop_last())
    } else {
        path
    }
}

/// The file name without its extension: the text before the last `.`, unless
/// that `.` opens the name.
pub open spec fn stem_of(name: Seq<char>) -> Seq<char> {
    let d = last_index_of(name, '.');
    if d > 0 { name.subrange(0, d) } else { name }
}

/// The show slug in a briefing file name `{slug}-{YYYY}-{MM}-{DD}.org`: the
/// dash-separated parts of the stem but the last three, or the first part when
/// there are fewer than four.
pub open spec fn slug_of_stem(stem: Seq<char>) -> Seq<char> {
    let parts = split_on(stem, '-');
    if parts.len() >= 4 {
        join_with(parts.subrange(0, parts.len() - 3), '-')
    } else {
        parts[0]
    }
}

/// The slug for a path, or none when the path has no file name.
pub open spec fn show_slug_of(path: Seq<char>) -> Option<Seq<char>> {
    let name = file_name_of(path);
    if name.len() == 0 || name == ".."@ {
        None
    } else {
        Some(slug_of_stem(stem_of(name)))
    }
}

proof fn lemma_split_step(v: Seq<char>, pos: int, e: int)
    requires
        0 <= pos <= v.len(),
        e == pos + first_index_of(v.subrange(pos, v.len() as int), '-'),
        e < v.len(),
    ensures
        split_on(v.subrange(pos, v.len() as int), '-')
            == seq![v.subrange(pos, e)] + split_on(v.subrange(e + 1, v.len() as int), '-'),
{
    let s = v.subrange(pos, v.len() as int);
    lemma_first_index_of_bound(s, '-');
    assert(s.subrange(0, e - pos) == v.subrange(pos, e));
    assert(s.subrange(e - pos + 1, s.len() as int) == v.subrange(e + 1, v.len() as int));
}

/// Splits `v` at each `-`.
fn split_dashes(v: &Vec<char>) -> (r: Vec<Vec<char>>)
    ensures
        r@.map_values(|p: Vec<char>| p@) == split_on(v@, '-'),
        r.len() >= 1,
{
    let mut r: Vec<Vec<char>> = Vec::new();
    let mut pos: usize = 0;
    assert(v@.subrange(0, v.len() as int) == v@);
    loop
        invariant
            0 <= pos <= v.len(),
            split_on(v@, '-') == r@.map_values(|p: Vec<char>| p@) + split_on(v@.subrange(pos as int, v.len() as int), '-'),
        decreases v.len() - pos,
    {
        let e = find_char_from(v, '-', pos);
        let mut piece: Vec<char> = Vec::new();
        let mut k = pos;
        while k < e
            invariant
                pos <= k <= e <= v.len(),
                piece@ == v@.subrange(pos as int, k as int),
            decreases e - k,
        {
            piece.push(v[k]);
            k = k + 1;
        }
        let ghost before = r@;
        r.push(piece);
        assert(r@.map_values(|p: Vec<char>| p@) == before.map_values(|p: Vec<char>| p@).push(piece@));
        if e < v.len() {
            proof { lemma_split_step(v@, pos as int, e as int); }
            assert(seq![piece@] + split_on(v@.subrange(e + 1, v.len() as int), '-')
                == split_on(v@.subrange(pos as int, v.len() as int), '-'));
            pos = e + 1;
        } else {
            proof {
                let s = v@.subrange(pos as int, v.len() as int);
                lemma_first_index_of_bound(s, '-');
                assert(split_on(s, '-') == seq![s]);
            }
            assert(r@.map_values(|p: Vec<char>| p@) == split_on(v@, '-'));
            return r;
        }
    }
}

/// Extracts the show slug from a briefing file path such as
/// `/home/user/Documents/twit-2026-02-01.org`.
pub fn extract_show_slug(org_file: &str) -> (r: Option<String>)
    ensures
        opt_view_eq(r, show_slug_of(org_file@)),
{
    let all = chars_of(org_file);
    let mut end = all.len();
    assert(all@.subrange(0, all.len() as int) == all@);
    while end > 0 && all[end - 1] == '/'
        invariant
            0 <= end <= all.len(),
            all@ == org_file@,
            trim_trailing_slashes(org_file@) == trim_trailing_slashes(all@.subrange(0, end as int)),
        decreases end,
    {
        assert(all@.subrange(0, end as int).drop_last() == all@.subrange(0, end - 1));
        end = end - 1;
    }
    let mut v: Vec<char> = Vec::new();
    let mut c: usize = 0;
    while c < end
        invariant
            0 <= c <= end <= all.len(),
            v@ == all@.subrange(0, c as int),
        decreases end - c,
    {
        v.push(all[c]);
        c = c + 1;
    }
    assert(v@ == trim_trailing_slashes(org_file@));
    proof { lemma_last_index_of_bound(v@, '/'); }
    let start = match rfind_char(&v, '/') {
        Some(j) => {
            assert(j < v.len());
            j + 1
        },
        None => 0,
    };
    let name = {
        let mut n: Vec<char> = Vec::new();
        let mut k = start;
        while k < v.len()
            invariant
                start <= k <= v.len(),
                n@ == v@.subrange(start as int, k as int),
            decreases v.len() - k,
        {
            n.push(v[k]);
            k = k + 1;
        }
        n
    };
    assert(name@ == file_name_of(org_file@));
    let dots = chars_of("..");
    if name.len() == 0 || same_chars(&name, &dots) {
        return None;
    }
    proof { lemma_last_index_of_bound(name@, '.'); }
    let stem_end = match rfind_char(&name, '.') {
        Some(d) => if d > 0 { d } else { name.len() },
        None => name.len(),
    };
    let mut stem: Vec<char> = Vec::new();
    let mut k: usize = 0;
    while k < stem_end
        invariant
            0 <= k <= stem_end <= name.len(),
            stem@ == name@.subrange(0, k as int),
        decreases stem_end - k,
    {
        stem.push(name[k]);
        k = k + 1;
    }
    assert(name@.subrange(0, name.len() as int) == name@);
    assert(stem@ == stem_of(name@));
    let parts = split_dashes(&stem);
    let ghost pv = parts@.map_values(|p: Vec<char>| p@);
    let mut out = String::new();
    if parts.len() >= 4 {
        let keep = parts.len() - 3;
        let mut j: usize = 0;
        while j < keep
            invariant
                0 <= j <= keep,
                keep == parts.len() - 3,
                pv == parts@.map_values(|p: Vec<char>| p@),
                out@ == join_with(pv.subrange(0, j as int), '-'),
            decreases keep - j,
        {
            assert(pv.subrange(0, j + 1).drop_last() == pv.subrange(0, j as int));
            if j > 0 {
                out.push('-');
            }
            push_chars(&mut out, &parts[j]);
            j = j + 1;
        }
    } else {
        push_chars(&mut out, &parts[0]);
    }
    Some(out)
}

/// `r` holds exactly the text `o` describes.
pub open spec fn opt_view_eq(r: Option<String>, o: Option<Seq<char>>) -> bool {
    match (r, o) {
        (Some(s), Some(t)) => s@ == t,
        (None, None) => true,
        _ => false,
    }
}

fn same_chars(a: &Vec<char>, b: &Vec<char>) -> (r: bool)
    ensures
        r == (a@ == b@),
{
    if a.len() != b.len() {
        return false;
    }
    let mut i: usize = 0;
    while i < a.len()
        invariant
            a.len() == b.len(),
            0 <= i <= a.len(),
            forall|k: int| 0 <= k < i ==> a@[k] == b@[k],
        decreases a.len() - i,
    {
        if a[i] != b[i] {
            assert(a@[i as int] != b@[i as int]);
            return false;
        }
        i = i + 1;
    }
    assert(a@ =~= b@);
    true
}

// ---------------------------------------------------------------- escaping and CSV

/// What `c` becomes in HTML text.
pub open spec fn html_entity(c: char) -> Seq<char> {
    if c == '&' {
        "&amp;"@
    } else if c == '<' {
        "&lt;"@
    } else if c == '>' {
        "&gt;"@
    } else if c == '"' {
        "&quot;"@
    } else if c == '\'' {
        "&#39;"@
    } else {
        seq![c]
    }
}

/// `s` with the five HTML-special characters replaced by entities.
pub open spec fn html_escaped(s: Seq<char>) -> Seq<char>
    decreases s.len(),
{
    if s.len() == 0 {
        Seq::empty()
    } else {
        html_escaped(s.drop_last()) + html_entity(s.last())
    }
}

/// `s` with each `"` doubled.
pub open spec fn quotes_doubled(s: Seq<char>) -> Seq<char>
    decreases s.len(),
{
    if s.len() == 0 {
        Seq::empty()
    } else {
        quotes_doubled(s.drop_last()) + if s.last() == '"' { seq!['"', '"'] } else { seq![s.last()] }
    }
}

/// A CSV field: quoted, with inner quotes doubled, when it holds a comma, a
/// quote or a newline; as it is otherwise.
pub open spec fn csv_field(s: Seq<char>) -> Seq<char> {
    if has_char(s, ',') || has_char(s, '"') || has_char(s, '\n') {
        seq!['"'] + quotes_doubled(s) + seq!['"']
    } else {
        s
    }
}

/// The CSV row of a story; the first row of a topic also names the topic.
pub open spec fn csv_story_row(first: bool, topic_title: Seq<char>, s: StoryView) -> Seq<char> {
    if first {
        ","@ + csv_field(topic_title) + ","@ + csv_field(s.title) + ",,"@ + csv_field(s.url) + "\n"@
    } else {
        ",,"@ + csv_field(s.title) + ",,"@ + csv_field(s.url) + "\n"@
    }
}

/// The rows of a topic's stories.
pub open spec fn csv_story_rows(topic_title: Seq<char>, ss: Seq<StoryView>) -> Seq<char>
    decreases ss.len(),
{
    if ss.len() == 0 {
        Seq::empty()
    } else {
        csv_story_rows(topic_title, ss.drop_last()) + csv_story_row(ss.len() == 1, topic_title, ss.last())
    }
}

/// The links CSV: per topic, one row per story, then a blank row.
pub open spec fn links_csv(ts: Seq<TopicView>) -> Seq<char>
    decreases ts.len(),
{
    if ts.len() == 0 {
        Seq::empty()
    } else {
        links_csv(ts.drop_last()) + csv_story_rows(ts.last().title, ts.last().stories) + ",,,,\n"@
    }
}

/// Produces the briefing documents from topics.
pub struct BriefingGenerator;

impl BriefingGenerator {
    /// Escapes `&`, `<`, `>`, `"` and `'` for HTML text.
    pub fn escape_html(text: &str) -> (r: String)
        ensures
            r@ == html_escaped(text@),
    {
        let v = chars_of(text);
        let mut out = String::new();
        let mut i: usize = 0;
        while i < v.len()
            invariant
                0 <= i <= v.len(),
                v@ == text@,
                out@ == html_escaped(v@.subrange(0, i as int)),
            decreases v.len() - i,
        {
            assert(v@.subrange(0, i + 1).drop_last() == v@.subrange(0, i as int));
            let c = v[i];
            if c == '&' {
                push_text(&mut out, "&amp;");
            } else if c == '<' {
                push_text(&mut out, "&lt;");
            } else if c == '>' {
                push_text(&mut out, "&gt;");
            } else if c == '"' {
                push_text(&mut out, "&quot;");
            } else if c == '\'' {
                push_text(&mut out, "&#39;");
            } else {
                out.push(c);
                assert(seq![c] == Seq::<char>::empty().push(c));
            }
            i = i + 1;
        }
        assert(v@.subrange(0, v.len() as int) == v@);
        out
    }

    /// Makes `text` a CSV field.
    pub fn escape_csv(text: &str) -> (r: String)
        ensures
            r@ == csv_field(text@),
    {
        let v = chars_of(text);
        if vec_has_char(&v, ',') || vec_has_char(&v, '"') || vec_has_char(&v, '\n') {
            let mut out = String::new();
            out.push('"');
            let mut i: usize = 0;
            while i < v.len()
                invariant
                    0 <= i <= v.len(),
                    v@ == text@,
                    out@ == seq!['"'] + quotes_doubled(v@.subrange(0, i as int)),
                decreases v.len() - i,
            {
                assert(v@.subrange(0, i + 1).drop_last() == v@.subrange(0, i as int));
                let c = v[i];
                out.push(c);
                if c == '"' {
                    out.push('"');
                }
                i = i + 1;
            }
            out.push('"');
            assert(v@.subrange(0, v.len() as int) == v@);
            out
        } else {
            string_of(&v, 0, v.len())
        }
    }

    /// The links CSV: for each topic, a row per story (the first also naming the
    /// topic), then a blank row.
    pub fn generate_links_csv(topics: &[Topic]) -> (r: String)
        ensures
            r@ == links_csv(topics_view(topics@)),
    {
        let mut csv = String::new();
        let mut t: usize = 0;
        while t < topics.len()
            invariant
                0 <= t <= topics.len(),
                csv@ == links_csv(topics_view(topics@).subrange(0, t as int)),
            decreases topics.len() - t,
        {
            assert(topics_view(topics@).subrange(0, t + 1).drop_last() == topics_view(topics@).subrange(0, t as int));
            let topic = &topics[t];
            let ghost before = csv@;
            let mut k: usize = 0;
            while k < topic.stories.len()
                invariant
                    0 <= k <= topic.stories.len(),
                    csv@ == before + csv_story_rows(topic.title@, stories_view(topic.stories@).subrange(0, k as int)),
                decreases topic.stories.len() - k,
            {
                let ss = Ghost(stories_view(topic.stories@).subrange(0, k + 1));
                assert(ss@.drop_last() == stories_view(topic.stories@).subrange(0, k as int));
                let story = &topic.stories[k];
                if k == 0 {
                    push_text(&mut csv, ",");
                    let f = Self::escape_csv(topic.title.as_str());
                    push_text(&mut csv, f.as_str());
                    push_text(&mut csv, ",");
                } else {
                    push_text(&mut csv, ",,");
                }
                let f = Self::escape_csv(story.title.as_str());
                push_text(&mut csv, f.as_str());
                push_text(&mut csv, ",,");
                let f = Self::escape_csv(story.url.as_str());
                push_text(&mut csv, f.as_str());
                push_text(&mut csv, "\n");
                proof {
                    let row = csv_story_row(k == 0, topic.title@, story@);
                    assert(csv_story_rows(topic.title@, ss@) == csv_story_rows(topic.title@, ss@.drop_last()) + row);
                }
                k = k + 1;
            }
            assert(stories_view(topic.stories@).subrange(0, topic.stories.len() as int) == stories_view(topic.stories@));
            push_text(&mut csv, ",,,,\n");
            t = t + 1;
        }
        assert(topics_view(topics@).subrange(0, topics.len() as int) == topics_view(topics@));
        csv
    }
}

// ---------------------------------------------------------------- org-mode document

/// The summary section body of a story.
pub open spec fn org_summary(s: SummaryView) -> Seq<char> {
    match s {
        SummaryView::Success { points, quote } => (match quote {
            Some(q) => q + "\n\n"@,
            None => Seq::empty(),
        }) + org_points(points),
        _ => "Summary not available\n"@,
    }
}

/// One `- point` line per point.
pub open spec fn org_points(points: Seq<Seq<char>>) -> Seq<char>
    decreases points.len(),
{
    if points.len() == 0 {
        Seq::empty()
    } else {
        org_points(points.drop_last()) + "- "@ + points.last() + "\n"@
    }
}

/// The org-mode entry of a story.
pub open spec fn org_story(s: StoryView) -> Seq<char> {
    "** "@ + s.title + "\n\n"@ + "*** URL\n"@ + s.url + "\n\n"@
        + (if s.created.len() > 0 { "*** Date\n"@ + s.created + "\n\n"@ } else { Seq::empty() })
        + "*** Summary\n"@ + org_summary(s.summary) + "\n"@
}

pub open spec fn org_stories(ss: Seq<StoryView>) -> Seq<char>
    decreases ss.len(),
{
    if ss.len() == 0 {
        Seq::empty()
    } else {
        org_stories(ss.drop_last()) + org_story(ss.last())
    }
}

pub open spec fn org_topics(ts: Seq<TopicView>) -> Seq<char>
    decreases ts.len(),
{
    if ts.len() == 0 {
        Seq::empty()
    } else {
        org_topics(ts.drop_last()) + "* "@ + ts.last().title + "\n\n"@ + org_stories(ts.last().stories)
    }
}

/// The sections every briefing book ends with, left empty for the hosts.
pub const ORG_CLOSING_SECTIONS: &'static str = "* In Other News\n\n* Leo's Picks\n\n* In Memoriam\n\n";

/// The whole org-mode briefing book.
pub open spec fn org_document(ts: Seq<TopicView>, show_name: Seq<char>, date_label: Seq<char>) -> Seq<char> {
    "#+TITLE: "@ + show_name + " Briefing Book\n"@ + "#+DATE: "@ + date_label + "\n\n"@ + org_topics(ts)
        + ORG_CLOSING_SECTIONS@
}

fn push_org_summary(out: &mut String, summary: &Summary)
    ensures
        final(out)@ == old(out)@ + org_summary(summary@),
{
    match summary {
        Summary::Success { points, quote } => {
            let ghost start = out@;
            match quote {
                Some(q) => {
                    push_text(out, q.as_str());
                    push_text(out, "\n\n");
                },
                None => {},
            }
            let ghost mid = out@;
            let ghost pv = strings_view(points@);
            let mut i: usize = 0;
            while i < points.len()
                invariant
                    0 <= i <= points.len(),
                    pv == strings_view(points@),
                    out@ == mid + org_points(pv.subrange(0, i as int)),
                decreases points.len() - i,
            {
                assert(pv.subrange(0, i + 1).drop_last() == pv.subrange(0, i as int));
                push_text(out, "- ");
                push_text(out, points[i].as_str());
                push_text(out, "\n");
                i = i + 1;
            }
            assert(pv.subrange(0, points.len() as int) == pv);
        },
        _ => {
            push_text(out, "Summary not available\n");
        },
    }
}

fn push_org_story(out: &mut String, story: &Story)
    ensures
        final(out)@ == old(out)@ + org_story(story@),
{
    push_text(out, "** ");
    push_text(out, story.title.as_str());
    push_text(out, "\n\n");
    push_text(out, "*** URL\n");
    push_text(out, story.url.as_str());
    push_text(out, "\n\n");
    if !story.created.as_str().is_empty() {
        push_text(out, "*** Date\n");
        push_text(out, story.created.as_str());
        push_text(out, "\n\n");
    }
    push_text(out, "*** Summary\n");
    push_org_summary(out, &story.summary);
    push_text(out, "\n");
}

impl BriefingGenerator {
    /// The org-mode briefing book: title, the next show's date, one heading per
    /// topic and per story with its URL, date and summary, then the closing sections.
    pub fn generate_org_mode(topics: &[Topic], show_name: &str, date: UtcMoment) -> (r: String)
        requires
            date.wf(),
            date.day <= i32::MAX - 7,
        ensures
            r@ == org_document(
                topics_view(topics@),
                show_name@,
                match formatted(next_show_day(show_name@, date), 0, SHOW_DAY_FORMAT@) {
                    Some(l) => l,
                    None => Seq::empty(),
                },
            ),
    {
        let next_show_date = Self::calculate_next_show_date(show_name, date);
        let mut org = String::new();
        push_text(&mut org, "#+TITLE: ");
        push_text(&mut org, show_name);
        push_text(&mut org, " Briefing Book\n");
        push_text(&mut org, "#+DATE: ");
        push_text(&mut org, next_show_date.as_str());
        push_text(&mut org, "\n\n");
        let ghost head = org@;
        let ghost tv = topics_view(topics@);
        let mut t: usize = 0;
        while t < topics.len()
            invariant
                0 <= t <= topics.len(),
                tv == topics_view(topics@),
                org@ == head + org_topics(tv.subrange(0, t as int)),
            decreases topics.len() - t,
        {
            assert(tv.subrange(0, t + 1).drop_last() == tv.subrange(0, t as int));
            let topic = &topics[t];
            push_text(&mut org, "* ");
            push_text(&mut org, topic.title.as_str());
            push_text(&mut org, "\n\n");
            let ghost topic_start = org@;
            let ghost sv = stories_view(topic.stories@);
            let mut k: usize = 0;
            while k < topic.stories.len()
                invariant
                    0 <= k <= topic.stories.len(),
                    sv == stories_view(topic.stories@),
                    org@ == topic_start + org_stories(sv.subrange(0, k as int)),
                decreases topic.stories.len() - k,
            {
                assert(sv.subrange(0, k + 1).drop_last() == sv.subrange(0, k as int));
                push_org_story(&mut org, &topic.stories[k]);
                k = k + 1;
            }
            assert(sv.subrange(0, topic.stories.len() as int) == sv);
            t = t + 1;
        }
        assert(tv.subrange(0, topics.len() as int) == tv);
        push_text(&mut org, ORG_CLOSING_SECTIONS);
        org
    }
}

// ---------------------------------------------------------------- saved briefing data

/// Format version written into saved briefing data.
pub const BRIEFING_DATA_VERSION: &'static str = "1.0";

/// A briefing as it is saved between runs.
#[derive(Debug)]
pub struct BriefingData {
    pub version: String,
    pub created_at: String,
    pub show: ShowInfo,
    pub topics: Vec<Topic>,
}

/// Why saved briefing data is refused: an unknown version is named, then missing topics.
pub open spec fn briefing_data_problem(version: Seq<char>, n_topics: nat, source: Seq<char>) -> Option<Seq<char>> {
    if version != BRIEFING_DATA_VERSION@ {
        Some("Unsupported story file version: "@ + version
            + ". Expected 1.0. Please regenerate the story file with collect-stories."@)
    } else if n_topics == 0 {
        Some("Story file "@ + source + " contains no topics. The file may be incomplete."@)
    } else {
        None
    }
}

impl BriefingData {
    /// Briefing data of the current format, stamped `created_at`.
    pub fn new(show: ShowInfo, topics: Vec<Topic>, created_at: String) -> (r: BriefingData)
        ensures
            r.version@ == BRIEFING_DATA_VERSION@,
            r.created_at == created_at,
            r.show == show,
            r.topics == topics,
    {
        let mut version = String::new();
        push_text(&mut version, BRIEFING_DATA_VERSION);
        BriefingData { version, created_at, show, topics }
    }

    /// Checks data read from `source`: the format version must be current and
    /// there must be topics.
    pub fn validate(&self, source: &str) -> (r: Result<(), String>)
        ensures
            match briefing_data_problem(self.version@, self.topics.len() as nat, source@) {
                Some(m) => r matches Err(e) && e@ == m,
                None => r is Ok,
            },
    {
        if !same_text(self.version.as_str(), BRIEFING_DATA_VERSION) {
            let mut m = String::new();
            push_text(&mut m, "Unsupported story file version: ");
            push_text(&mut m, self.version.as_str());
            push_text(&mut m, ". Expected 1.0. Please regenerate the story file with collect-stories.");
            return Err(m);
        }
        if self.topics.len() == 0 {
            let mut m = String::new();
            push_text(&mut m, "Story file ");
            push_text(&mut m, source);
            push_text(&mut m, " contains no topics. The file may be incomplete.");
            return Err(m);
        }
        Ok(())
    }
}

} // verus!
