use podcast_briefing::briefing::BriefingGenerator;
use podcast_briefing::model::{Story, Summary, Topic};
use podcast_briefing::schedule::UtcMoment;

fn noon() -> UtcMoment {
    UtcMoment::from_ymd_hms(2026, 2, 1, 12, 0, 0).unwrap()
}

#[test]
fn test_format_date_valid_iso() {
    let result = BriefingGenerator::format_date("2026-02-01T15:30:00Z");
    assert_eq!(result, "1-Feb-2026 3:30PM");
}

#[test]
fn test_format_date_invalid_fallback() {
    let result = BriefingGenerator::format_date("not a date");
    assert_eq!(result, "not a date");
}

#[test]
fn format_date_accepts_day_forms() {
    assert_eq!(BriefingGenerator::format_date(" Sat, 7 Feb 2026 "), "7-Feb-2026");
    assert_eq!(BriefingGenerator::format_date("2026-02-01"), "1-Feb-2026");
}

#[test]
fn test_generate_html_contains_show_name() {
    let topics = vec![Topic {
        title: "Tech News".to_string(),
        stories: vec![Story {
            title: "Test Article".to_string(),
            url: "https://example.com".to_string(),
            created: "2026-02-01T00:00:00Z".to_string(),
            summary: Summary::Success { points: vec!["Point 1".to_string()], quote: None },
        }],
    }];

    let html = BriefingGenerator::generate(&topics, "TWiT", noon(), "Sun 1 Feb 2026 at 12:00 PST");

    assert!(html.contains("TWiT Briefing"));
    assert!(html.contains("Tech News"));
    assert!(html.contains("Test Article"));
    assert!(html.contains("https://example.com"));
    assert!(html.contains("Point 1"));
}

#[test]
fn test_generate_html_escapes_special_chars() {
    let topics = vec![Topic {
        title: "Apple & Google".to_string(),
        stories: vec![Story {
            title: "Test <script>".to_string(),
            url: "https://example.com".to_string(),
            created: "2026-02-01".to_string(),
            summary: Summary::Success { points: vec!["Point \"quoted\"".to_string()], quote: None },
        }],
    }];

    let html = BriefingGenerator::generate(&topics, "Test", noon(), "Sun 1 Feb 2026 at 12:00 PST");

    assert!(html.contains("Apple &amp; Google"));
    assert!(html.contains("Test &lt;script&gt;"));
    assert!(html.contains("Point &quot;quoted&quot;"));
}

#[test]
fn generate_html_numbers_topics_and_dates() {
    let story = |title: &str, summary: Summary| Story {
        title: title.to_string(),
        url: "https://e.com".to_string(),
        created: "2026-02-01T15:30:00Z".to_string(),
        summary,
    };
    let topics = vec![
        Topic { title: "First".to_string(), stories: vec![story("a", Summary::Insufficient)] },
        Topic {
            title: "Second".to_string(),
            stories: vec![story("b", Summary::Success { points: vec![], quote: Some("Q & A".to_string()) })],
        },
    ];
    let html = BriefingGenerator::generate(&topics, "MacBreak Weekly", noon(), "now");
    assert!(html.contains("<title>MacBreak Weekly Briefing - Sunday, 1 February 2026</title>"));
    assert!(html.contains("<span class=\"prepared\">(Prepared now)</span>"));
    assert!(html.contains("<h2>1. First</h2>"));
    assert!(html.contains("<h2>2. Second</h2>"));
    assert!(html.contains("<strong>Date:</strong> 1-Feb-2026 3:30PM"));
    assert!(html.contains("<p class=\"error\">Summary not available</p>"));
    assert!(html.contains("<p><em>Q &amp; A</em></p>"));
    assert!(html.ends_with("</body>\n</html>"));
}
