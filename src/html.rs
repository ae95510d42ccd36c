//! The HTML briefing: one collapsible section per topic, each story with its
//! link, date and summary points, text escaped for HTML.

use vstd::prelude::*;
use crate::briefing::{html_escaped, BriefingGenerator};
use crate::calendar::{format_moment, formatted, parse_day, parse_utc, parsed_day, parsed_utc};
use crate::model::{opt_view, stories_view, strings_view, topics_view, Story, StoryView, Summary, SummaryView, Topic, TopicView};
use crate::schedule::UtcMoment;
use crate::text::{chars_of, decimal, push_decimal, push_text, string_of, trim, trim_bounds};

verus! {

pub const HTML_HEAD_START: &'static str = "<!DOCTYPE html>\n<html>\n<head>\n  <meta charset=\"UTF-8\">\n  <title>";

pub const HTML_STYLE: &'static str = "  <style>
    body { font-family: Arial, sans-serif; max-width: 900px; margin: 40px auto; padding: 0 20px; line-height: 1.6; }
    h1 { color: #2c3e50; border-bottom: 3px solid #3498db; padding-bottom: 10px; text-align: center; }
    h1 .show-name { display: block; font-size: 1.2em; margin-bottom: 10px; }
    h1 .date { display: block; font-size: 0.8em; font-weight: normal; color: #555; }
    h1 .prepared { display: block; font-size: 0.7em; font-weight: normal; color: #888; margin-top: 5px; }
    h2 { color: #34495e; margin: 0; padding: 10px; background-color: #ecf0f1; border-left: 4px solid #3498db; }
    h3 { color: #2c3e50; margin-top: 25px; }
    .metadata { color: #7f8c8d; font-size: 0.9em; margin: 5px 0; }
    .link { color: #3498db; text-decoration: none; }
    .link:hover { text-decoration: underline; }
    details.topic { margin: 40px 0 20px 0; }
    details.topic > summary { display: block; cursor: pointer; user-select: none; }
    details.topic > summary:hover h2 { background-color: #d5dbdb; }
    details.topic > summary h2::before { content: '\u{25bc} '; font-size: 0.8em; }
    details.topic:not([open]) > summary h2::before { content: '\u{25b6} '; }
    details.article { margin: 15px 0; padding: 10px; background-color: #f8f9fa; border-radius: 4px; }
    details.article > summary { display: none; }
    ul { margin: 10px 0; padding-left: 20px; }
    li { margin: 8px 0; }
    hr { border: none; border-top: 1px solid #ddd; margin: 30px 0; }
    .error { color: #e74c3c; font-style: italic; }
  </style>
</head>
<body>
";

pub const HTML_FOOTER: &'static str = "<hr style=\"margin: 60px 0 30px 0; border-top: 2px solid #3498db;\">\n<h2 style=\"text-align: center; color: #2c3e50;\">Stories will be updated as needed until show time.</h2>\n</body>\n</html>";

// ---------------------------------------------------------------- dates

/// How a story's timestamp is shown, such as `1-Feb-2026 3:30PM`.
pub const STAMP_FORMAT: &'static str = "%-d-%b-%Y %-I:%M%p";
/// How a story's bare date is shown, such as `1-Feb-2026`.
pub const DAY_FORMAT: &'static str = "%-d-%b-%Y";
/// How the show day heads the briefing, such as `Sunday, 1 February 2026`.
pub const LONG_DAY_FORMAT: &'static str = "%A, %-d %B %Y";

/// A date in one of the accepted input forms, shown as a bare day.
pub open spec fn day_form_label(s: Seq<char>, fmt: Seq<char>) -> Option<Seq<char>> {
    match parsed_day(s, fmt) {
        Some(d) => match formatted(d, 0, DAY_FORMAT@) {
            Some(l) => Some(l),
            None => Some(s),
        },
        None => None,
    }
}

/// How a story's date is shown: a timestamp with its time, a date in one of the
/// accepted forms as a bare day, anything else as it is.
pub open spec fn story_date_label(s: Seq<char>) -> Seq<char> {
    match parsed_utc(s) {
        Some(t) => match formatted(t.0, t.1, STAMP_FORMAT@) {
            Some(l) => l,
            None => s,
        },
        None => match day_form_label(trim(s), "%a, %e %b %Y"@) {
            Some(l) => l,
            None => match day_form_label(trim(s), "%a, %d %b %Y"@) {
                Some(l) => l,
                None => match day_form_label(trim(s), "%Y-%m-%d"@) {
                    Some(l) => l,
                    None => s,
                },
            },
        },
    }
}

fn day_form(s: &str, fmt: &str) -> (r: Option<String>)
    ensures
        opt_view(r) == day_form_label(s@, fmt@),
{
    match parse_day(s, fmt) {
        Some(d) => match format_moment(d, 0, DAY_FORMAT) {
            Some(l) => Some(l),
            None => Some(s.to_owned()),
        },
        None => None,
    }
}

// ---------------------------------------------------------------- document

pub open spec fn html_points(points: Seq<Seq<char>>) -> Seq<char>
    decreases points.len(),
{
    if points.len() == 0 {
        Seq::empty()
    } else {
        html_points(points.drop_last()) + "        <li>"@ + html_escaped(points.last()) + "</li>\n"@
    }
}

pub open spec fn html_summary(s: SummaryView) -> Seq<char> {
    match s {
        SummaryView::Success { points, quote } => "    <details class=\"article\" open>\n      <summary></summary>\n"@
            + (match quote {
                Some(q) => "      <p><em>"@ + html_escaped(q) + "</em></p>\n"@,
                None => Seq::empty(),
            }) + "      <ul>\n"@ + html_points(points) + "      </ul>\n    </details>\n"@,
        _ => "    <p class=\"error\">Summary not available</p>\n"@,
    }
}

pub open spec fn html_story(s: StoryView) -> Seq<char> {
    "    <h3>"@ + html_escaped(s.title) + "</h3>\n"@ + "    <div class=\"metadata\">\n"@
        + "      <strong>Link:</strong> <a href=\""@ + s.url + "\" class=\"link\" target=\"_blank\">"@
        + html_escaped(s.url) + "</a><br>\n"@ + "      <strong>Date:</strong> "@ + story_date_label(s.created)
        + "\n"@ + "    </div>\n"@ + html_summary(s.summary) + "    <hr>\n"@
}

pub open spec fn html_stories(ss: Seq<StoryView>) -> Seq<char>
    decreases ss.len(),
{
    if ss.len() == 0 {
        Seq::empty()
    } else {
        html_stories(ss.drop_last()) + html_story(ss.last())
    }
}

/// The section of topic number `n`.
pub open spec fn html_topic(n: nat, t: TopicView) -> Seq<char> {
    "<details class=\"topic\">\n"@ + "  <summary><h2>"@ + decimal(n) + ". "@ + html_escaped(t.title)
        + "</h2></summary>\n"@ + "  <div>\n"@ + html_stories(t.stories) + "  </div>\n"@ + "</details>\n"@
}

/// The sections of topics `ts`, numbered from 1.
pub open spec fn html_topics(ts: Seq<TopicView>) -> Seq<char>
    decreases ts.len(),
{
    if ts.len() == 0 {
        Seq::empty()
    } else {
        html_topics(ts.drop_last()) + html_topic(ts.len(), ts.last())
    }
}

/// The whole HTML briefing for the show on the day written `day_label`.
pub open spec fn html_document(ts: Seq<TopicView>, show_name: Seq<char>, day_label: Seq<char>, prepared: Seq<char>) -> Seq<char> {
    HTML_HEAD_START@ + show_name + " Briefing - "@ + day_label + "</title>\n"@ + HTML_STYLE@
        + "<h1><span class=\"show-name\">"@ + show_name + " Briefing</span><span class=\"date\">For "@ + day_label
        + "</span><span class=\"prepared\">(Prepared "@ + prepared + ")</span></h1>\n"@ + html_topics(ts) + HTML_FOOTER@
}

fn push_escaped(out: &mut String, s: &str)
    ensures
        final(out)@ == old(out)@ + html_escaped(s@),
{
    let e = BriefingGenerator::escape_html(s);
    push_text(out, e.as_str());
}

fn push_html_summary(out: &mut String, summary: &Summary)
    ensures
        final(out)@ == old(out)@ + html_summary(summary@),
{
    match summary {
        Summary::Success { points, quote } => {
            push_text(out, "    <details class=\"article\" open>\n      <summary></summary>\n");
            match quote {
                Some(q) => {
                    push_text(out, "      <p><em>");
                    push_escaped(out, q.as_str());
                    push_text(out, "</em></p>\n");
                },
                None => {},
            }
            push_text(out, "      <ul>\n");
            let ghost mid = out@;
            let ghost pv = strings_view(points@);
            let mut i: usize = 0;
            while i < points.len()
                invariant
                    0 <= i <= points.len(),
                    pv == strings_view(points@),
                    out@ == mid + html_points(pv.subrange(0, i as int)),
                decreases points.len() - i,
            {
                assert(pv.subrange(0, i + 1).drop_last() == pv.subrange(0, i as int));
                push_text(out, "        <li>");
                push_escaped(out, points[i].as_str());
                push_text(out, "</li>\n");
                i = i + 1;
            }
            assert(pv.subrange(0, points.len() as int) == pv);
            push_text(out, "      </ul>\n    </details>\n");
        },
        _ => {
            push_text(out, "    <p class=\"error\">Summary not available</p>\n");
        },
    }
}

fn push_html_story(out: &mut String, story: &Story)
    ensures
        final(out)@ == old(out)@ + html_story(story@),
{
    push_text(out, "    <h3>");
    push_escaped(out, story.title.as_str());
    push_text(out, "</h3>\n");
    push_text(out, "    <div class=\"metadata\">\n");
    push_text(out, "      <strong>Link:</strong> <a href=\"");
    push_text(out, story.url.as_str());
    push_text(out, "\" class=\"link\" target=\"_blank\">");
    push_escaped(out, story.url.as_str());
    push_text(out, "</a><br>\n");
    push_text(out, "      <strong>Date:</strong> ");
    let d = BriefingGenerator::format_date(story.created.as_str());
    push_text(out, d.as_str());
    push_text(out, "\n");
    push_text(out, "    </div>\n");
    push_html_summary(out, &story.summary);
    push_text(out, "    <hr>\n");
}

fn push_html_topic(out: &mut String, n: usize, topic: &Topic)
    ensures
        final(out)@ == old(out)@ + html_topic(n as nat, topic@),
{
    push_text(out, "<details class=\"topic\">\n");
    push_text(out, "  <summary><h2>");
    push_decimal(out, n);
    push_text(out, ". ");
    push_escaped(out, topic.title.as_str());
    push_text(out, "</h2></summary>\n");
    push_text(out, "  <div>\n");
    let ghost topic_start = out@;
    let ghost sv = stories_view(topic.stories@);
    let mut k: usize = 0;
    while k < topic.stories.len()
        invariant
            0 <= k <= topic.stories.len(),
            sv == stories_view(topic.stories@),
            out@ == topic_start + html_stories(sv.subrange(0, k as int)),
        decreases topic.stories.len() - k,
    {
        assert(sv.subrange(0, k + 1).drop_last() == sv.subrange(0, k as int));
        push_html_story(out, &topic.stories[k]);
        k = k + 1;
    }
    assert(sv.subrange(0, topic.stories.len() as int) == sv);
    push_text(out, "  </div>\n");
    push_text(out, "</details>\n");
}

impl BriefingGenerator {
    /// Shows a story's date: a timestamp as `1-Feb-2026 3:30PM`, a date as
    /// `1-Feb-2026`, anything else unchanged.
    pub fn format_date(date_str: &str) -> (r: String)
        ensures
            r@ == story_date_label(date_str@),
    {
        match parse_utc(date_str) {
            Some((day, second)) => match format_moment(day, second, STAMP_FORMAT) {
                Some(l) => l,
                None => date_str.to_owned(),
            },
            None => {
                let v = chars_of(date_str);
                let (a, b) = trim_bounds(&v, 0, v.len());
                assert(v@.subrange(0, v.len() as int) == v@);
                let trimmed = string_of(&v, a, b);
                match day_form(trimmed.as_str(), "%a, %e %b %Y") {
                    Some(l) => l,
                    None => match day_form(trimmed.as_str(), "%a, %d %b %Y") {
                        Some(l) => l,
                        None => match day_form(trimmed.as_str(), "%Y-%m-%d") {
                            Some(l) => l,
                            None => date_str.to_owned(),
                        },
                    },
                }
            },
        }
    }

    /// The HTML briefing for `show_name` on the day of `date`, prepared at the
    /// moment written `prepared`; the day is left blank if beyond the calendar.
    pub fn generate(topics: &[Topic], show_name: &str, date: UtcMoment, prepared: &str) -> (r: String)
        ensures
            r@ == html_document(
                topics_view(topics@),
                show_name@,
                match formatted(date.day as int, 0, LONG_DAY_FORMAT@) {
                    Some(l) => l,
                    None => Seq::empty(),
                },
                prepared@,
            ),
    {
        let formatted_date = match format_moment(date.day, 0, LONG_DAY_FORMAT) {
            Some(l) => l,
            None => String::new(),
        };
        let mut html = String::new();
        push_text(&mut html, HTML_HEAD_START);
        push_text(&mut html, show_name);
        push_text(&mut html, " Briefing - ");
        push_text(&mut html, formatted_date.as_str());
        push_text(&mut html, "</title>\n");
        push_text(&mut html, HTML_STYLE);
        push_text(&mut html, "<h1><span class=\"show-name\">");
        push_text(&mut html, show_name);
        push_text(&mut html, " Briefing</span><span class=\"date\">For ");
        push_text(&mut html, formatted_date.as_str());
        push_text(&mut html, "</span><span class=\"prepared\">(Prepared ");
        push_text(&mut html, prepared);
        push_text(&mut html, ")</span></h1>\n");
        let ghost head = html@;
        let ghost tv = topics_view(topics@);
        let mut t: usize = 0;
        while t < topics.len()
            invariant
                0 <= t <= topics.len(),
                tv == topics_view(topics@),
                html@ == head + html_topics(tv.subrange(0, t as int)),
            decreases topics.len() - t,
        {
            let ghost tt = tv.subrange(0, t + 1);
            assert(tt.drop_last() == tv.subrange(0, t as int));
            push_html_topic(&mut html, t + 1, &topics[t]);
            assert(tt.len() == t + 1);
            t = t + 1;
        }
        assert(tv.subrange(0, topics.len() as int) == tv);
        push_text(&mut html, HTML_FOOTER);
        html
    }
}

} // verus!
