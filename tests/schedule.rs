use podcast_briefing::briefing::BriefingGenerator;
use podcast_briefing::model::{Story, Summary, Topic};
use podcast_briefing::schedule::UtcMoment;

fn at(year: i32, month: u32, day: u32, hour: u32, minute: u32, second: u32) -> UtcMoment {
    UtcMoment::from_ymd_hms(year, month, day, hour, minute, second).unwrap()
}

#[test]
fn test_mbw_from_sunday_evening() {
    let date = at(2026, 2, 1, 21, 25, 0);
    let result = BriefingGenerator::calculate_next_show_date("MacBreak Weekly", date);
    assert_eq!(result, "Tue, 3 February 2026");
}

#[test]
fn test_twit_from_sunday_after_cutoff() {
    let date = at(2026, 2, 1, 19, 0, 0);
    let result = BriefingGenerator::calculate_next_show_date("This Week in Tech", date);
    assert_eq!(result, "Sun, 8 February 2026");
}

#[test]
fn test_twit_from_sunday_before_cutoff() {
    let date = at(2026, 2, 1, 17, 0, 0);
    let result = BriefingGenerator::calculate_next_show_date("This Week in Tech", date);
    assert_eq!(result, "Sun, 1 February 2026");
}

#[test]
fn test_mbw_from_tuesday_after_cutoff() {
    let date = at(2026, 2, 3, 15, 0, 0);
    let result = BriefingGenerator::calculate_next_show_date("MacBreak Weekly", date);
    assert_eq!(result, "Tue, 10 February 2026");
}

#[test]
fn test_mbw_from_tuesday_before_cutoff() {
    let date = at(2026, 2, 3, 13, 0, 0);
    let result = BriefingGenerator::calculate_next_show_date("MacBreak Weekly", date);
    assert_eq!(result, "Tue, 3 February 2026");
}

#[test]
fn test_im_from_wednesday_after_cutoff() {
    let date = at(2026, 2, 4, 19, 0, 0);
    let result = BriefingGenerator::calculate_next_show_date("Intelligent Machines", date);
    assert_eq!(result, "Wed, 11 February 2026");
}

#[test]
fn test_im_from_sunday() {
    let date = at(2026, 2, 1, 21, 25, 0);
    let result = BriefingGenerator::calculate_next_show_date("Intelligent Machines", date);
    assert_eq!(result, "Wed, 4 February 2026");
}

#[test]
fn next_show_keeps_time_of_day() {
    let from = at(2026, 2, 5, 9, 30, 15);
    let next = BriefingGenerator::next_show_datetime("Unknown Show", from);
    assert_eq!(next, at(2026, 2, 8, 9, 30, 15));
    assert!(UtcMoment::from_ymd_hms(2026, 2, 30, 0, 0, 0).is_none());
    assert!(UtcMoment::from_ymd_hms(2026, 2, 3, 24, 0, 0).is_none());
}

#[test]
fn test_generate_org_mode() {
    let topics = vec![Topic {
        title: "Tech".to_string(),
        stories: vec![Story {
            title: "Story Title".to_string(),
            url: "https://example.com".to_string(),
            created: "2026-02-01".to_string(),
            summary: Summary::Success {
                points: vec!["Point A".to_string(), "Point B".to_string()],
                quote: Some("\"A quote\" - Author".to_string()),
            },
        }],
    }];

    let date = at(2026, 2, 1, 12, 0, 0);
    let org = BriefingGenerator::generate_org_mode(&topics, "TWiT", date);

    assert!(org.contains("#+TITLE: TWiT Briefing Book"));
    assert!(org.contains("* Tech"));
    assert!(org.contains("** Story Title"));
    assert!(org.contains("*** URL\nhttps://example.com"));
    assert!(org.contains("*** Summary"));
    assert!(org.contains("- Point A"));
    assert!(org.contains("- Point B"));
    assert!(org.contains("\"A quote\" - Author"));
}

#[test]
fn test_generate_org_mode_includes_standard_sections() {
    let topics = vec![];
    let date = at(2026, 2, 1, 12, 0, 0);
    let org = BriefingGenerator::generate_org_mode(&topics, "Test", date);

    assert!(org.contains("* In Other News"));
    assert!(org.contains("* Leo's Picks"));
    assert!(org.contains("* In Memoriam"));
}

#[test]
fn generate_org_mode_exact_text() {
    let topics = vec![Topic {
        title: "Misc".to_string(),
        stories: vec![Story {
            title: "Gone".to_string(),
            url: "https://x.com".to_string(),
            created: String::new(),
            summary: Summary::Failed("boom".to_string()),
        }],
    }];
    let org = BriefingGenerator::generate_org_mode(&topics, "MacBreak Weekly", at(2026, 2, 1, 21, 25, 0));
    assert_eq!(
        org,
        "#+TITLE: MacBreak Weekly Briefing Book\n#+DATE: Tue, 3 February 2026\n\n* Misc\n\n** Gone\n\n\
         *** URL\nhttps://x.com\n\n*** Summary\nSummary not available\n\n\
         * In Other News\n\n* Leo's Picks\n\n* In Memoriam\n\n"
    );
}
