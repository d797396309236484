use reddit_scraper::link::{destination_path, file_name, is_on_host, normalize_url};
use reddit_scraper::text::{has_prefix, join, same_text, skip_chars, tail_after_last};

#[test]
fn direct_reddit_image_is_unchanged() {
    assert_eq!(
        normalize_url("https://i.redd.it/abc.jpg"),
        Some("https://i.redd.it/abc.jpg".to_string())
    );
}

#[test]
fn direct_imgur_image_is_unchanged() {
    assert_eq!(
        normalize_url("https://i.imgur.com/q1w2e3.png"),
        Some("https://i.imgur.com/q1w2e3.png".to_string())
    );
}

#[test]
fn gallery_page_moves_to_the_image_host() {
    assert_eq!(
        normalize_url("https://imgur.com/abc123"),
        Some("https://i.imgur.com/abc123.jpg".to_string())
    );
}

#[test]
fn gallery_page_keeps_everything_after_the_host() {
    assert_eq!(
        normalize_url("https://imgur.com/a/xyz?x=1"),
        Some("https://i.imgur.com/a/xyz?x=1.jpg".to_string())
    );
    assert_eq!(normalize_url("https://imgur.com"), Some("https://i.imgur.com.jpg".to_string()));
}

#[test]
fn other_hosts_do_not_match() {
    assert_eq!(normalize_url("https://example.com/x"), None);
    assert_eq!(normalize_url("http://i.redd.it/abc.jpg"), None);
    assert_eq!(normalize_url("https://i.redd.it"), None);
    assert_eq!(normalize_url("https://www.imgur.com/abc"), None);
    assert_eq!(normalize_url(""), None);
    assert_eq!(normalize_url("/r/pics/comments/1"), None);
}

#[test]
fn hosts_that_only_begin_like_a_known_host_do_not_match() {
    assert_eq!(normalize_url("https://imgur.community/x"), None);
    assert_eq!(normalize_url("https://i.imgur.community/z.png"), None);
    assert_eq!(normalize_url("https://imgur.com.example.org/abc"), None);
    assert_eq!(normalize_url("https://i.imgur.comx"), None);
    assert_eq!(normalize_url("https://imgur.com:8443/abc"), None);
    assert_eq!(normalize_url("https://imgur.comabc"), None);
}

#[test]
fn bare_hosts() {
    assert_eq!(normalize_url("https://i.imgur.com"), Some("https://i.imgur.com".to_string()));
    assert_eq!(normalize_url("https://i.imgur.com/"), Some("https://i.imgur.com/".to_string()));
    assert_eq!(normalize_url("https://imgur.com/"), Some("https://i.imgur.com/.jpg".to_string()));
    assert_eq!(normalize_url("https://i.redd.it/"), Some("https://i.redd.it/".to_string()));
}

#[test]
fn an_address_is_on_a_host_when_the_host_ends_there() {
    assert!(is_on_host("https://imgur.com/abc", "https://imgur.com"));
    assert!(is_on_host("https://imgur.com", "https://imgur.com"));
    assert!(is_on_host("https://imgur.com/", "https://imgur.com"));
    assert!(!is_on_host("https://imgur.community/x", "https://imgur.com"));
    assert!(!is_on_host("https://imgur.co", "https://imgur.com"));
    assert!(!is_on_host("https://i.imgur.com/x", "https://imgur.com"));
    assert!(!is_on_host("", "https://imgur.com"));
    assert!(!is_on_host("https://imgur.com\u{e9}/x", "https://imgur.com"));
}

#[test]
fn non_ascii_links() {
    assert_eq!(
        normalize_url("https://imgur.com/caf\u{e9}"),
        Some("https://i.imgur.com/caf\u{e9}.jpg".to_string())
    );
    assert_eq!(normalize_url("https://\u{ef}mgur.com/x"), None);
}

#[test]
fn file_name_is_the_last_segment() {
    assert_eq!(file_name("https://i.redd.it/abc.jpg"), "abc.jpg");
    assert_eq!(file_name("https://i.imgur.com/a/b/c.png"), "c.png");
    assert_eq!(file_name("no-slash.gif"), "no-slash.gif");
    assert_eq!(file_name("https://i.redd.it/"), "");
    assert_eq!(file_name(""), "");
}

#[test]
fn destination_is_below_the_directory() {
    assert_eq!(destination_path(".", "https://i.redd.it/abc.jpg"), "./abc.jpg");
    assert_eq!(destination_path("out/pics", "https://i.imgur.com/x1.jpg"), "out/pics/x1.jpg");
    assert_eq!(destination_path("/srv/img", "https://i.imgur.com/x1.jpg"), "/srv/img/x1.jpg");
}

#[test]
fn empty_directory_is_the_current_one() {
    assert_eq!(destination_path("", "https://i.redd.it/abc.jpg"), "./abc.jpg");
    assert_eq!(destination_path("", "abc.jpg"), "./abc.jpg");
}

#[test]
fn prefix_and_equality() {
    assert!(has_prefix("https://i.redd.it/x", "https://"));
    assert!(has_prefix("abc", ""));
    assert!(has_prefix("abc", "abc"));
    assert!(!has_prefix("ab", "abc"));
    assert!(!has_prefix("abd", "abc"));
    assert!(same_text("feed", "feed"));
    assert!(!same_text("feed", "feeds"));
    assert!(!same_text("feed", "fees"));
    assert!(same_text("", ""));
}

#[test]
fn skipping_and_tails() {
    assert_eq!(skip_chars("h\u{e9}llo", 2), "llo");
    assert_eq!(skip_chars("abc", 3), "");
    assert_eq!(skip_chars("abc", 0), "abc");
    assert_eq!(tail_after_last("a/b/c", '/'), "c");
    assert_eq!(tail_after_last("a/b/", '/'), "");
    assert_eq!(tail_after_last("abc", '/'), "abc");
    assert_eq!(tail_after_last("\u{e9}/\u{fc}x", '/'), "\u{fc}x");
    assert_eq!(join("ab", "cd"), "abcd");
}
