use podcast_briefing::cluster::{
    begin_clustering, cluster_digest, finish_clustering, json_payload, ClusterStart, TopicCluster,
};
use podcast_briefing::fetch::{
    article_from_response, extract_published_date, fetch_step, format_date, run_fetch_attempts, FetchFailure,
    FetchStep,
};
use podcast_briefing::model::{ArticleContent, ExtractionResult, Story, Summary};
use podcast_briefing::pipeline::{
    articles_for_summary, bookmarks_page_url, build_stories, filter_by_tag, reconcile_fetches, Bookmark,
};
use podcast_briefing::summarize::{
    parse_bullet_points, parse_summary_with_quote, summarize_step, summary_from_reply, summary_prompt,
    truncate_to_budget, SummarizeStep,
};

fn story(title: &str, point: &str) -> Story {
    Story {
        title: title.to_string(),
        url: format!("https://example.com/{}", title),
        created: "2026-02-01".to_string(),
        summary: Summary::Success { points: vec![point.to_string()], quote: None },
    }
}

fn titles(stories: &[Story]) -> Vec<String> {
    stories.iter().map(|s| s.title.clone()).collect()
}

fn article(text: &str) -> ArticleContent {
    ArticleContent { text: text.to_string(), published_date: None }
}

// ---------------------------------------------------------------- summarize

#[test]
fn five_bullets_and_quote_succeed() {
    let reply = "QUOTE: \"We ship it\" -- Jane Doe\n- one\n- two\n- three\n- four\n- five\n";
    match summary_from_reply(reply) {
        Summary::Success { points, quote } => {
            assert_eq!(points.len(), 5);
            assert_eq!(points[0], "one");
            assert_eq!(quote, Some("\"We ship it\" -- Jane Doe".to_string()));
        }
        other => panic!("unexpected {:?}", other),
    }
}

#[test]
fn three_bullets_fail_with_count() {
    match summary_from_reply("- one\n- two\n- three") {
        Summary::Failed(m) => assert_eq!(m, "expected 5 bullets, got 3"),
        other => panic!("unexpected {:?}", other),
    }
}

#[test]
fn insufficient_reply_is_recognized() {
    assert!(matches!(
        summary_from_reply("Insufficient content for summary."),
        Summary::Insufficient
    ));
}

#[test]
fn bullet_prefixes_are_recognized() {
    let text = "1. First\n2) Second\n\u{2022} Third\n* Fourth\n  - Fifth  \nplain line\n-\n";
    assert_eq!(parse_bullet_points(text), vec!["First", "Second", "Third", "Fourth", "Fifth"]);
    let (quote, points) = parse_summary_with_quote("QUOTE:   \nQUOTE: last one\r\n- a\r\n");
    assert_eq!(quote, Some("last one".to_string()));
    assert_eq!(points, vec!["a"]);
    assert_eq!(parse_bullet_points("QUOTE: - not a point\n- point"), vec!["point"]);
}

#[test]
fn truncation_respects_char_boundaries() {
    assert_eq!(truncate_to_budget("abc", 10), "abc");
    assert_eq!(truncate_to_budget("abcdef", 4), "abcd");
    // 'é' takes two bytes: three of them need six, so a budget of five keeps two.
    assert_eq!(truncate_to_budget("ééé", 5), "éé");
    assert_eq!(truncate_to_budget("", 0), "");
    let long = "x".repeat(10_050);
    let prompt = summary_prompt(&long);
    assert!(prompt.contains(&"x".repeat(10_000)));
    assert!(!prompt.contains(&"x".repeat(10_001)));
}

#[test]
fn summarize_retry_policy() {
    match summarize_step(0, Err("API error: rate_limit_error".to_string())) {
        SummarizeStep::Retry { delay_ms } => assert_eq!(delay_ms, 15_000),
        _ => panic!("expected retry"),
    }
    match summarize_step(2, Err("API error: rate_limit_error".to_string())) {
        SummarizeStep::Retry { delay_ms } => assert_eq!(delay_ms, 45_000),
        _ => panic!("expected retry"),
    }
    match summarize_step(3, Err("timeout".to_string())) {
        SummarizeStep::Retry { delay_ms } => assert_eq!(delay_ms, 8_000),
        _ => panic!("expected retry"),
    }
    match summarize_step(4, Err("timeout".to_string())) {
        SummarizeStep::Done { summary: Summary::Failed(m), pause_ms } => {
            assert_eq!(m, "timeout");
            assert_eq!(pause_ms, 0);
        }
        _ => panic!("expected failure"),
    }
    match summarize_step(1, Ok(Summary::Insufficient)) {
        SummarizeStep::Done { summary: Summary::Insufficient, pause_ms } => assert_eq!(pause_ms, 500),
        _ => panic!("expected done"),
    }
}

// ---------------------------------------------------------------- cluster

#[test]
fn clustering_no_stories_gives_no_topics() {
    match begin_clustering(vec![]) {
        ClusterStart::Done(topics) => assert!(topics.is_empty()),
        _ => panic!("no request expected"),
    }
}

#[test]
fn clustering_single_story_gives_one_topic() {
    match begin_clustering(vec![story("Solo", "p")]) {
        ClusterStart::Done(topics) => {
            assert_eq!(topics.len(), 1);
            assert_eq!(topics[0].title, "News");
            assert_eq!(titles(&topics[0].stories), vec!["Solo"]);
        }
        _ => panic!("no request expected"),
    }
}

#[test]
fn clustering_two_stories_asks_the_model() {
    match begin_clustering(vec![story("A", "alpha"), story("B", "beta")]) {
        ClusterStart::Ask { prompt, stories } => {
            assert_eq!(stories.len(), 2);
            assert!(prompt.contains("0: A - alpha\n1: B - beta"));
            assert!(prompt.contains("Every article index from 0 to 1 must appear"));
        }
        _ => panic!("request expected"),
    }
}

#[test]
fn clustering_reply_partitions_stories() {
    let stories = vec![story("iPhone", "a"), story("Pixel", "b"), story("Mac", "c")];
    let clusters = vec![
        TopicCluster { title: "Apple".to_string(), article_indices: vec![0, 2] },
        TopicCluster { title: "Google".to_string(), article_indices: vec![1] },
    ];
    let topics = finish_clustering(stories, Ok(clusters));
    assert_eq!(topics.len(), 2);
    assert_eq!(topics[0].title, "Apple");
    assert_eq!(titles(&topics[0].stories), vec!["iPhone", "Mac"]);
    assert_eq!(topics[1].title, "Google");
    assert_eq!(titles(&topics[1].stories), vec!["Pixel"]);
}

#[test]
fn clustering_drops_bad_indices_and_empty_topics() {
    let stories = vec![story("A", "a"), story("B", "b")];
    let clusters = vec![
        TopicCluster { title: "Ghost".to_string(), article_indices: vec![7, 9] },
        TopicCluster { title: "Real".to_string(), article_indices: vec![1, 5, 0] },
    ];
    let topics = finish_clustering(stories, Ok(clusters));
    assert_eq!(topics.len(), 1);
    assert_eq!(topics[0].title, "Real");
    assert_eq!(titles(&topics[0].stories), vec!["A", "B"]);
}

#[test]
fn clustering_keeps_input_order_within_a_topic() {
    let stories = vec![story("A", "a"), story("B", "b")];
    let clusters = vec![TopicCluster { title: "T".to_string(), article_indices: vec![1, 0] }];
    let topics = finish_clustering(stories, Ok(clusters));
    assert_eq!(topics.len(), 1);
    assert_eq!(titles(&topics[0].stories), vec!["A", "B"]);
}

#[test]
fn clustering_places_unnamed_stories_last() {
    let stories = vec![story("A", "a"), story("B", "b"), story("C", "c")];
    let clusters = vec![TopicCluster { title: "Apple".to_string(), article_indices: vec![0] }];
    let topics = finish_clustering(stories, Ok(clusters));
    assert_eq!(topics.len(), 2);
    assert_eq!(topics[0].title, "Apple");
    assert_eq!(titles(&topics[0].stories), vec!["A"]);
    assert_eq!(topics[1].title, "Other Stories");
    assert_eq!(titles(&topics[1].stories), vec!["B", "C"]);
}

#[test]
fn clustering_uses_each_story_once() {
    let stories = vec![story("A", "a"), story("B", "b")];
    let clusters = vec![
        TopicCluster { title: "First".to_string(), article_indices: vec![0, 0, 1] },
        TopicCluster { title: "Second".to_string(), article_indices: vec![1, 0] },
    ];
    let topics = finish_clustering(stories, Ok(clusters));
    assert_eq!(topics.len(), 1);
    assert_eq!(topics[0].title, "First");
    assert_eq!(titles(&topics[0].stories), vec!["A", "B"]);
}

#[test]
fn clustering_error_falls_back_to_one_topic() {
    let stories = vec![story("C", "c"), story("A", "a"), story("B", "b")];
    let topics = finish_clustering(stories, Err("network unreachable".to_string()));
    assert_eq!(topics.len(), 1);
    assert_eq!(topics[0].title, "News Stories");
    assert_eq!(titles(&topics[0].stories), vec!["C", "A", "B"]);

    let stories = vec![story("A", "a"), story("B", "b")];
    let topics = finish_clustering(stories, Ok(vec![]));
    assert_eq!(topics.len(), 1);
    assert_eq!(titles(&topics[0].stories), vec!["A", "B"]);
}

#[test]
fn json_payload_is_framed() {
    assert_eq!(json_payload("Sure! {\"topics\": [{\"a\": 1}]} Hope it helps."), "{\"topics\": [{\"a\": 1}]}");
    assert_eq!(json_payload("no json here"), "no json here");
    assert_eq!(json_payload("} backwards {"), "} backwards {");
}

#[test]
fn digest_lines() {
    let mut s = story("B", "unused");
    s.summary = Summary::Failed("x".to_string());
    assert_eq!(cluster_digest(&vec![story("A", "first"), s]), "0: A - first\n1: B - ");
}

// ---------------------------------------------------------------- fetch

#[test]
fn paywall_stops_after_one_attempt() {
    let script = vec![Err(FetchFailure::Status(403)), Ok(article("never reached"))];
    let (outcome, attempts, delays) = run_fetch_attempts(&script);
    assert!(matches!(outcome, Some(ExtractionResult::Paywalled)));
    assert_eq!(attempts, 1);
    assert!(delays.is_empty());

    let script = vec![Err(FetchFailure::Transport("reset".to_string())), Err(FetchFailure::Status(403))];
    let (outcome, attempts, delays) = run_fetch_attempts(&script);
    assert!(matches!(outcome, Some(ExtractionResult::Paywalled)));
    assert_eq!(attempts, 2);
    assert_eq!(delays, vec![500]);
}

#[test]
fn transient_errors_exhaust_three_attempts() {
    let script = vec![
        Err(FetchFailure::Transport("connection reset".to_string())),
        Err(FetchFailure::Status(503)),
        Err(FetchFailure::Transport("timed out".to_string())),
        Ok(article("too late")),
    ];
    let (outcome, attempts, delays) = run_fetch_attempts(&script);
    match outcome {
        Some(ExtractionResult::Failed(m)) => assert_eq!(m, "timed out"),
        other => panic!("unexpected {:?}", other),
    }
    assert_eq!(attempts, 3);
    assert_eq!(delays, vec![500, 1000]);
}

#[test]
fn steady_transport_gives_same_outcome_each_run() {
    for answer in [Ok(()), Err(403u16), Err(500u16)] {
        let make = || -> Vec<Result<ArticleContent, FetchFailure>> {
            (0..3)
                .map(|_| match answer {
                    Ok(()) => Ok(article("body")),
                    Err(code) => Err(FetchFailure::Status(code)),
                })
                .collect()
        };
        let first = format!("{:?}", run_fetch_attempts(&make()));
        let second = format!("{:?}", run_fetch_attempts(&make()));
        assert_eq!(first, second);
    }
}

#[test]
fn fetch_step_decisions() {
    assert!(matches!(fetch_step(0, Ok(article("x"))), FetchStep::Done(ExtractionResult::Success(_))));
    assert!(matches!(fetch_step(1, Err(FetchFailure::NoText)), FetchStep::Retry { delay_ms: 1000 }));
    match fetch_step(2, Err(FetchFailure::TooShort(42))) {
        FetchStep::Done(ExtractionResult::Failed(m)) => {
            assert_eq!(m, "Content too short (42 chars) - may be paywalled or blocked")
        }
        _ => panic!("expected failure"),
    }
}

#[test]
fn failure_messages() {
    assert_eq!(FetchFailure::Status(404).message(), "Page not found (404) - article may have been removed");
    assert_eq!(FetchFailure::Status(502).message(), "Server error (502) - website is having issues");
    assert_eq!(FetchFailure::Status(418).message(), "HTTP error: 418");
    assert_eq!(
        FetchFailure::Status(403).message(),
        "Access forbidden (403 Forbidden) - may be paywalled or blocking bots"
    );
    assert!(FetchFailure::Status(403).is_paywall());
    assert!(!FetchFailure::Status(401).is_paywall());
}

#[test]
fn response_turns_into_article() {
    let body = format!(
        "<html><head><meta property=\"article:published_time\" content=\"2026-02-01T15:30:00Z\"></head>\
         <body><p>{}</p></body></html>",
        "Readable article sentence. ".repeat(10)
    );
    match article_from_response(200, &body) {
        Ok(c) => {
            assert!(c.text.contains("Readable article sentence."));
            assert!(!c.text.contains("<p>"));
            assert_eq!(c.published_date, Some("Sun, 1 Feb 2026".to_string()));
        }
        Err(e) => panic!("unexpected {:?}", e),
    }
    assert!(matches!(
        article_from_response(200, "<p>tiny</p>"),
        Err(FetchFailure::TooShort(n)) if n < 100
    ));
    assert!(matches!(article_from_response(200, "<p>   </p>"), Err(FetchFailure::NoText)));
    assert!(matches!(article_from_response(403, &body), Err(FetchFailure::Status(403))));
    // Sixty four-byte characters are 240 bytes but only sixty characters.
    let wide = format!("<p>{}</p>", "\u{1F600}".repeat(60));
    assert!(matches!(article_from_response(200, &wide), Err(FetchFailure::TooShort(n)) if n < 100));
}

#[test]
fn publication_date_search_order() {
    let html = "<html><head><meta name=\"date\" content=\"garbage\">\
                <meta itemprop=\"datePublished\" content=\"2026-02-03\"></head>\
                <body><time datetime=\"2026-02-04T10:00:00Z\">x</time></body></html>";
    assert_eq!(extract_published_date(html), Some("Tue, 3 Feb 2026".to_string()));
    let html = "<html><body><time datetime=\"2026-02-04T10:00:00+02:00\">x</time></body></html>";
    assert_eq!(extract_published_date(html), Some("Wed, 4 Feb 2026".to_string()));
    assert_eq!(extract_published_date("<html><body>nothing</body></html>"), None);
    assert_eq!(format_date("not a date"), None);
    assert_eq!(format_date("2026-02-01"), Some("Sun, 1 Feb 2026".to_string()));
}

// ---------------------------------------------------------------- orchestration

fn bookmark(title: &str, link: &str, tags: &[&str]) -> Bookmark {
    Bookmark {
        id: 1,
        title: title.to_string(),
        link: link.to_string(),
        excerpt: None,
        tags: tags.iter().map(|t| t.to_string()).collect(),
        created: "2026-01-30T08:00:00Z".to_string(),
    }
}

#[test]
fn reconcile_gives_one_outcome_per_url() {
    let urls = vec!["u1".to_string(), "u2".to_string(), "u3".to_string()];
    let completions = vec![
        ("u3".to_string(), ExtractionResult::Paywalled),
        ("u1".to_string(), ExtractionResult::Success(article("text one"))),
    ];
    let r = reconcile_fetches(&urls, &completions);
    assert_eq!(r.len(), 3);
    assert_eq!(r[0].0, "u1");
    assert!(matches!(&r[0].1, ExtractionResult::Success(c) if c.text == "text one"));
    assert!(matches!(&r[1].1, ExtractionResult::Failed(_)));
    assert!(matches!(r[2].1, ExtractionResult::Paywalled));
}

#[test]
fn stories_merge_by_url() {
    let bookmarks = vec![
        bookmark("Paywalled", "p", &[]),
        bookmark("Fetched", "f", &[]),
        bookmark("Broken", "b", &[]),
        bookmark("Unsummarized", "n", &[]),
    ];
    let fetched = vec![
        ("n".to_string(), ExtractionResult::Success(article("n text"))),
        ("b".to_string(), ExtractionResult::Failed("boom".to_string())),
        (
            "f".to_string(),
            ExtractionResult::Success(ArticleContent {
                text: "f text".to_string(),
                published_date: Some("Sun, 1 Feb 2026".to_string()),
            }),
        ),
        ("p".to_string(), ExtractionResult::Paywalled),
    ];
    let inputs = articles_for_summary(&fetched);
    assert_eq!(
        inputs,
        vec![("n".to_string(), "n text".to_string()), ("f".to_string(), "f text".to_string())]
    );
    let summaries = vec![("f".to_string(), Summary::Insufficient)];
    let stories = build_stories(&bookmarks, &fetched, &summaries);
    assert_eq!(titles(&stories), vec!["Paywalled", "Fetched", "Broken", "Unsummarized"]);
    assert!(matches!(&stories[0].summary, Summary::Failed(m) if m == "Paywalled - summary unavailable"));
    assert_eq!(stories[1].created, "Sun, 1 Feb 2026");
    assert!(matches!(stories[1].summary, Summary::Insufficient));
    assert_eq!(stories[2].created, "2026-01-30T08:00:00Z");
    assert!(matches!(&stories[2].summary, Summary::Failed(m) if m == "Summary not available"));
    assert!(matches!(&stories[3].summary, Summary::Failed(m) if m == "Summarization failed"));
}

#[test]
fn tags_match_without_case() {
    let bookmarks = vec![
        bookmark("one", "1", &["#TWiT", "misc"]),
        bookmark("two", "2", &["#mbw"]),
        bookmark("three", "3", &["#twit"]),
    ];
    let kept = filter_by_tag(&bookmarks, "#twit");
    assert_eq!(kept.iter().map(|b| b.title.clone()).collect::<Vec<_>>(), vec!["one", "three"]);
}

#[test]
fn bookmarks_page_address() {
    assert_eq!(
        bookmarks_page_url(2, "2026-02-01"),
        "https://api.raindrop.io/rest/v1/raindrops/0?perpage=50&page=2&search=created%3A%3E2026-02-01"
    );
}
