use reddit_scraper::driver::{entry_link, page_links, Driver, Phase};
use reddit_scraper::report::{decimal_text, report_line};
use reddit_scraper::error::SaveError;
use reddit_scraper::feed::{Feed, FeedEntry};
use reddit_scraper::html::{Attribute, HtmlDocument, HtmlNode, NodeKind};
use reddit_scraper::reader::parse_feed;

fn entry(id: Option<&str>) -> FeedEntry {
    FeedEntry { title: None, content: None, id: id.map(|s| s.to_string()) }
}

fn page(ids: &[Option<&str>]) -> Feed {
    Feed { entries: ids.iter().map(|id| entry(*id)).collect() }
}

#[test]
fn first_request_has_no_cursor() {
    let d = Driver::new("pics", None);
    assert_eq!(d.phase(), Phase::Fetching);
    assert_eq!(d.cursor(), None);
    assert_eq!(d.next_request(), Some("https://www.reddit.com/r/pics/.rss".to_string()));
}

#[test]
fn first_request_after_a_given_cursor() {
    let d = Driver::new("aww", Some("t3_abc".to_string()));
    assert_eq!(d.cursor(), Some("t3_abc"));
    assert_eq!(
        d.next_request(),
        Some("https://www.reddit.com/r/aww/.rss?after=t3_abc".to_string())
    );
}

#[test]
fn empty_page_ends_the_run() {
    let mut d = Driver::new("pics", Some("t3_zzz".to_string()));
    d.page_done(&page(&[]));
    assert_eq!(d.phase(), Phase::Finished);
    assert_eq!(d.next_request(), None);
    assert_eq!(d.cursor(), Some("t3_zzz"));
}

#[test]
fn empty_first_page_ends_the_run() {
    let mut d = Driver::new("pics", None);
    let feed = parse_feed(b"<feed></feed>").expect("well-formed feed");
    d.page_done(&feed);
    assert_eq!(d.next_request(), None);
}

#[test]
fn cursor_is_the_last_id_of_the_page() {
    let mut d = Driver::new("pics", None);
    d.page_done(&page(&[Some("t3_1"), Some("t3_2"), Some("t3_3")]));
    assert_eq!(d.phase(), Phase::Fetching);
    assert_eq!(d.cursor(), Some("t3_3"));
    assert_eq!(d.next_request(), Some("https://www.reddit.com/r/pics/.rss?after=t3_3".to_string()));
    d.page_done(&page(&[None, Some("t3_9")]));
    assert_eq!(d.next_request(), Some("https://www.reddit.com/r/pics/.rss?after=t3_9".to_string()));
}

#[test]
fn last_entry_without_id_stalls_the_run() {
    let mut d = Driver::new("pics", Some("t3_0".to_string()));
    d.page_done(&page(&[Some("t3_1"), None]));
    assert_eq!(d.phase(), Phase::Stalled);
    assert_eq!(d.next_request(), None);
    assert_eq!(d.cursor(), Some("t3_0"));
}

#[test]
fn a_stopped_driver_stays_stopped() {
    let mut d = Driver::new("pics", None);
    d.page_done(&page(&[]));
    d.page_done(&page(&[Some("t3_5")]));
    assert_eq!(d.phase(), Phase::Finished);
    assert_eq!(d.cursor(), None);
    assert_eq!(d.next_request(), None);
    let mut s = Driver::new("pics", None);
    s.page_done(&page(&[None]));
    s.page_done(&page(&[]));
    assert_eq!(s.phase(), Phase::Stalled);
}

#[test]
fn entry_without_content_has_no_link() {
    assert_eq!(entry_link(&entry(Some("t3_1"))), None);
}

#[test]
fn entry_link_is_the_first_in_its_content() {
    let a = HtmlNode {
        kind: NodeKind::Element {
            name: "a".to_string(),
            attrs: vec![Attribute {
                name: "href".to_string(),
                value: "https://imgur.com/g1".to_string(),
            }],
        },
        first_child: 2,
        child_count: 0,
    };
    let root = HtmlNode { kind: NodeKind::Other, first_child: 1, child_count: 1 };
    let e = FeedEntry {
        title: Some("t".to_string()),
        content: HtmlDocument::from_nodes(vec![root, a]),
        id: None,
    };
    assert!(e.content.is_some());
    assert_eq!(entry_link(&e), Some("https://i.imgur.com/g1.jpg".to_string()));
}

#[test]
fn numbers_in_decimal() {
    assert_eq!(decimal_text(0), "0");
    assert_eq!(decimal_text(7), "7");
    assert_eq!(decimal_text(10), "10");
    assert_eq!(decimal_text(1234567890), "1234567890");
    assert_eq!(decimal_text(u64::MAX), "18446744073709551615");
}

#[test]
fn report_of_a_saved_image() {
    let line = report_line(&entry(Some("t3_1")), "https://i.redd.it/a.jpg", &Ok(20480));
    assert_eq!(line, "t3_1, https://i.redd.it/a.jpg, saved 20480 bytes");
}

#[test]
fn report_of_a_failure() {
    let failed = Err(SaveError::AlreadyExists { path: "./a.jpg".to_string() });
    assert_eq!(
        report_line(&entry(Some("t3_2")), "https://i.redd.it/a.jpg", &failed),
        "t3_2, https://i.redd.it/a.jpg, AlreadyExistsError: ./a.jpg"
    );
    let lost = Err(SaveError::Fetch { detail: "timed out".to_string() });
    assert_eq!(
        report_line(&entry(None), "https://i.imgur.com/b.jpg", &lost),
        "-, https://i.imgur.com/b.jpg, FetchError: timed out"
    );
}

#[test]
fn every_failure_has_its_name() {
    let d = "d".to_string();
    assert_eq!(SaveError::Fetch { detail: d.clone() }.to_text(), "FetchError: d");
    assert_eq!(SaveError::Decode { detail: d.clone() }.to_text(), "DecodeError: d");
    assert_eq!(SaveError::AlreadyExists { path: d.clone() }.to_text(), "AlreadyExistsError: d");
    assert_eq!(SaveError::Encode { detail: d.clone() }.to_text(), "EncodeError: d");
    assert_eq!(SaveError::Storage { detail: d.clone() }.to_text(), "StorageError: d");
    assert_eq!(SaveError::Encode { detail: d.clone() }.label(), "EncodeError");
    assert_eq!(SaveError::Storage { detail: d }.detail(), "d");
}

fn linked_entry(id: &str, href: &str) -> FeedEntry {
    let a = HtmlNode {
        kind: NodeKind::Element {
            name: "a".to_string(),
            attrs: vec![Attribute { name: "href".to_string(), value: href.to_string() }],
        },
        first_child: 2,
        child_count: 0,
    };
    let root = HtmlNode { kind: NodeKind::Other, first_child: 1, child_count: 1 };
    FeedEntry {
        title: None,
        content: HtmlDocument::from_nodes(vec![root, a]),
        id: Some(id.to_string()),
    }
}

#[test]
fn page_links_keep_place_and_order() {
    let feed = Feed {
        entries: vec![
            entry(Some("t3_0")),
            linked_entry("t3_1", "https://i.redd.it/one.jpg"),
            linked_entry("t3_2", "https://example.com/none"),
            linked_entry("t3_3", "https://imgur.com/three"),
            entry(None),
            linked_entry("t3_5", "https://i.redd.it/one.jpg"),
        ],
    };
    assert_eq!(
        page_links(&feed),
        vec![
            (1, "https://i.redd.it/one.jpg".to_string()),
            (3, "https://i.imgur.com/three.jpg".to_string()),
            (5, "https://i.redd.it/one.jpg".to_string()),
        ]
    );
}

#[test]
fn page_without_links() {
    assert!(page_links(&page(&[])).is_empty());
    assert!(page_links(&page(&[Some("t3_1"), None])).is_empty());
}

#[test]
fn page_links_of_a_parsed_page() {
    let doc = b"<feed><entry><id>a</id><content>&lt;p&gt;text&lt;/p&gt;</content></entry>\
<entry><id>b</id><content>&lt;a href=&quot;https://i.imgur.com/b.png&quot;&gt;b&lt;/a&gt;</content></entry>\
<entry><id>c</id></entry></feed>";
    let feed = parse_feed(doc).expect("well-formed feed");
    assert_eq!(page_links(&feed), vec![(1, "https://i.imgur.com/b.png".to_string())]);
}
