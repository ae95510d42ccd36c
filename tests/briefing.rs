use podcast_briefing::briefing::{extract_show_slug, BriefingGenerator, Show};
use podcast_briefing::model::{Story, Summary, Topic};

#[test]
fn test_extract_show_slug_twit() {
    let result = extract_show_slug("/home/user/Documents/twit-2026-02-01.org").unwrap();
    assert_eq!(result, "twit");
}

#[test]
fn test_extract_show_slug_mbw() {
    let result = extract_show_slug("/home/user/Documents/mbw-2026-02-03.org").unwrap();
    assert_eq!(result, "mbw");
}

#[test]
fn test_extract_show_slug_with_hyphens() {
    let result = extract_show_slug("/home/user/Documents/intelligent-machines-2026-02-04.org").unwrap();
    assert_eq!(result, "intelligent-machines");
}

#[test]
fn test_extract_show_slug_short_name() {
    let result = extract_show_slug("im-2026-02-04.org").unwrap();
    assert_eq!(result, "im");
}

#[test]
fn extract_show_slug_without_date_takes_first_part() {
    assert_eq!(extract_show_slug("notes/mbw-draft.org").unwrap(), "mbw");
    assert_eq!(extract_show_slug("a/b/").unwrap(), "b");
    assert_eq!(extract_show_slug("docs/twit-2026-02-01.org//").unwrap(), "twit");
    assert_eq!(extract_show_slug("/").is_none(), true);
}

#[test]
fn test_escape_html_ampersand() {
    assert_eq!(BriefingGenerator::escape_html("A & B"), "A &amp; B");
}

#[test]
fn test_escape_html_less_than() {
    assert_eq!(BriefingGenerator::escape_html("<script>"), "&lt;script&gt;");
}

#[test]
fn test_escape_html_quotes() {
    assert_eq!(
        BriefingGenerator::escape_html("He said \"hello\""),
        "He said &quot;hello&quot;"
    );
}

#[test]
fn test_escape_html_single_quotes() {
    assert_eq!(BriefingGenerator::escape_html("It's here"), "It&#39;s here");
}

#[test]
fn test_escape_html_combined() {
    assert_eq!(
        BriefingGenerator::escape_html("<a href=\"test\">Click & Go</a>"),
        "&lt;a href=&quot;test&quot;&gt;Click &amp; Go&lt;/a&gt;"
    );
}

#[test]
fn test_escape_csv_no_special_chars() {
    assert_eq!(BriefingGenerator::escape_csv("Hello World"), "Hello World");
}

#[test]
fn test_escape_csv_with_comma() {
    assert_eq!(BriefingGenerator::escape_csv("Hello, World"), "\"Hello, World\"");
}

#[test]
fn test_escape_csv_with_quotes() {
    assert_eq!(
        BriefingGenerator::escape_csv("He said \"hi\""),
        "\"He said \"\"hi\"\"\""
    );
}

#[test]
fn test_escape_csv_with_newline() {
    assert_eq!(BriefingGenerator::escape_csv("Line1\nLine2"), "\"Line1\nLine2\"");
}

fn story(title: &str, url: &str, created: &str, summary: Summary) -> Story {
    Story {
        title: title.to_string(),
        url: url.to_string(),
        created: created.to_string(),
        summary,
    }
}

#[test]
fn test_generate_links_csv() {
    let topics = vec![Topic {
        title: "Apple".to_string(),
        stories: vec![
            story("Article 1", "https://a.com", "2026-02-01", Summary::Insufficient),
            story("Article 2", "https://b.com", "2026-02-01", Summary::Insufficient),
        ],
    }];

    let csv = BriefingGenerator::generate_links_csv(&topics);

    assert!(csv.contains(",Apple,Article 1,,https://a.com"));
    assert!(csv.contains(",,Article 2,,https://b.com"));
}

#[test]
fn generate_links_csv_exact_layout() {
    let topics = vec![
        Topic {
            title: "Apple, Inc".to_string(),
            stories: vec![story("A", "https://a.com", "", Summary::Insufficient)],
        },
        Topic {
            title: "Google".to_string(),
            stories: vec![
                story("B \"beta\"", "https://b.com", "", Summary::Insufficient),
                story("C", "https://c.com", "", Summary::Insufficient),
            ],
        },
    ];
    let csv = BriefingGenerator::generate_links_csv(&topics);
    assert_eq!(
        csv,
        ",\"Apple, Inc\",A,,https://a.com\n,,,,\n,Google,\"B \"\"beta\"\"\",,https://b.com\n,,C,,https://c.com\n,,,,\n"
    );
    assert_eq!(BriefingGenerator::generate_links_csv(&[]), "");
}

#[test]
fn show_slugs_round_trip() {
    for show in [Show::TWiT, Show::MacBreakWeekly, Show::IntelligentMachines] {
        let info = show.info();
        assert_eq!(Show::from_slug(&info.slug), Some(show));
    }
    assert_eq!(Show::MacBreakWeekly.info().name, "MacBreak Weekly");
    assert_eq!(Show::IntelligentMachines.info().tag, "#im");
    assert_eq!(Show::from_slug("twit2"), None);
}
