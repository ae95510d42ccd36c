use podcast_briefing::cookies::{chrome_timestamp, cookie_strings, default_profile_dirs};

#[test]
fn default_profiles_in_file_order() {
    let ini = "[General]\nStartWithLastProfile=1\n\n[Profile1]\nName=work\nPath=abc.work\n\n\
               [Profile0]\nName=default\nIsRelative=1\nPath=xyz.default\nDefault=1\n\n\
               [Install4F96D1932A9F858E]\nDefault=xyz.default-release\nLocked=1\n";
    assert_eq!(default_profile_dirs(ini), vec!["xyz.default"]);
}

#[test]
fn default_profile_in_last_section() {
    assert_eq!(default_profile_dirs("[Profile0]\nDefault=1\nPath=last.profile"), vec!["last.profile"]);
    assert!(default_profile_dirs("[Profile0]\nPath=p\n").is_empty());
}

#[test]
fn cookie_row_strings() {
    let (cookie, url) = cookie_strings("sid", "42", ".example.com", "/news", true);
    assert_eq!(cookie, "sid=42; Domain=.example.com; Path=/news; Secure");
    assert_eq!(url, "https://example.com/news");
    let (cookie, url) = cookie_strings("a", "b", "host.org", "/", false);
    assert_eq!(cookie, "a=b; Domain=host.org; Path=/");
    assert_eq!(url, "http://host.org/");
}

#[test]
fn chrome_clock() {
    assert_eq!(chrome_timestamp(0), Some(11_644_473_600_000_000));
    assert_eq!(chrome_timestamp(i64::MAX), None);
}
