use podcast_briefing::model::Summary;
use podcast_briefing::org::{parse_date_for_sorting, parse_org_mode};

#[test]
fn test_parse_org_mode_basic() {
    let content = r#"#+TITLE: TWiT Briefing Book
#+DATE: Sun, 2 February 2026

* Apple

** iPhone 17 Announced

*** URL
https://example.com/iphone17

*** Date
2026-02-01

*** Summary
- New chip announced
- Better battery life
"#;

    let (show_name, topics) = parse_org_mode(content).unwrap();

    assert_eq!(show_name, "TWiT");
    assert_eq!(topics.len(), 1);
    assert_eq!(topics[0].title, "Apple");
    assert_eq!(topics[0].stories.len(), 1);
    assert_eq!(topics[0].stories[0].title, "iPhone 17 Announced");
    assert_eq!(topics[0].stories[0].url, "https://example.com/iphone17");

    if let Summary::Success { points, .. } = &topics[0].stories[0].summary {
        assert_eq!(points.len(), 2);
        assert_eq!(points[0], "New chip announced");
    } else {
        panic!("Expected Summary::Success");
    }
}

#[test]
fn test_parse_org_mode_with_quote() {
    let content = r#"#+TITLE: Test Briefing

* News

** Story Title

*** URL
https://test.com

*** Summary
"This is a quote" - Author Name
- Point one
- Point two
"#;

    let (_, topics) = parse_org_mode(content).unwrap();

    if let Summary::Success { points, quote } = &topics[0].stories[0].summary {
        assert_eq!(points.len(), 2);
        assert!(quote.is_some());
        assert!(quote.as_ref().unwrap().contains("This is a quote"));
    } else {
        panic!("Expected Summary::Success");
    }
}

#[test]
fn test_parse_org_mode_multiple_topics() {
    let content = r#"#+TITLE: TWiT Briefing

* Apple

** Apple Story

*** URL
https://apple.com

*** Summary
- Point

* Google

** Google Story

*** URL
https://google.com

*** Summary
- Another point
"#;

    let (_, topics) = parse_org_mode(content).unwrap();

    assert_eq!(topics.len(), 2);
    assert_eq!(topics[0].title, "Apple");
    assert_eq!(topics[1].title, "Google");
}

#[test]
fn test_parse_org_mode_skips_empty_topics() {
    let content = r#"#+TITLE: Test

* Has Stories

** A Story

*** URL
https://example.com

*** Summary
- Point

* Empty Topic

* In Other News

* Leo's Picks
"#;

    let (_, topics) = parse_org_mode(content).unwrap();

    assert_eq!(topics.len(), 1);
    assert_eq!(topics[0].title, "Has Stories");
}

#[test]
fn test_parse_org_mode_extracts_show_name() {
    let content = r#"#+TITLE: MacBreak Weekly Briefing Book

* Topic

** Story

*** URL
https://test.com

*** Summary
- Point
"#;

    let (show_name, _) = parse_org_mode(content).unwrap();
    assert_eq!(show_name, "MacBreak Weekly");
}

#[test]
fn test_parse_org_mode_no_topics_error() {
    let content = "#+TITLE: Empty Briefing\n\n* In Other News\n\n* Leo's Picks\n";

    let result = parse_org_mode(content);
    assert!(result.is_err());
    assert!(result.unwrap_err().contains("No topics found"));
}

#[test]
fn test_parse_org_mode_with_date() {
    let content = r#"#+TITLE: Test Briefing

* Topic

** Story

*** URL
https://test.com

*** Date
Sat, 1 Feb 2026

*** Summary
- Point
"#;

    let (_, topics) = parse_org_mode(content).unwrap();
    assert_eq!(topics[0].stories[0].created, "Sat, 1 Feb 2026");
}

#[test]
fn parse_org_mode_orders_stories_by_date() {
    let content = "* T\n\n** Undated\n\n** Late\n*** Date\n2026-02-05T10:00:00Z\n\n\
                   ** Early\n*** Date\nSat, 31 Jan 2026\n\n** Middle\n*** Date\n2026-02-03\n";
    let (show_name, topics) = parse_org_mode(content).unwrap();
    assert_eq!(show_name, "Briefing");
    let titles: Vec<&str> = topics[0].stories.iter().map(|s| s.title.as_str()).collect();
    assert_eq!(titles, vec!["Early", "Middle", "Late", "Undated"]);
}

#[test]
fn date_sort_keys() {
    assert_eq!(parse_date_for_sorting(""), None);
    assert_eq!(parse_date_for_sorting("soon"), None);
    assert_eq!(parse_date_for_sorting("1970-01-02"), Some((86_400, 0)));
    assert_eq!(parse_date_for_sorting("1970-01-01T01:00:00+01:00"), Some((0, 0)));
    assert_eq!(parse_date_for_sorting("Fri, 2 Jan 1970"), Some((86_400, 0)));
}
