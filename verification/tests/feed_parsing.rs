use reddit_scraper::feed::{Feed, FeedEntry, FeedParser, ParseError, State, Token};
use reddit_scraper::html::{parse_html, walk_for_img};
use reddit_scraper::reader::{feed_from_pulls, parse_feed};

const TWO_ENTRIES: &str = "<?xml version=\"1.0\" encoding=\"UTF-8\"?>\
<feed xmlns=\"http://www.w3.org/2005/Atom\">\
<updated>2019-10-01T00:00:00+00:00</updated>\
<entry><id>t1</id><title>Post A</title>\
<content type=\"html\">&lt;div&gt;&lt;a href=&quot;https://i.redd.it/abc.jpg&quot;&gt;x&lt;/a&gt;&lt;/div&gt;</content></entry>\
<entry><id>t2</id><title>Post B</title>\
<content type=\"html\">&lt;p&gt;no links&lt;/p&gt;</content></entry>\
</feed>";

fn link_of(entry: &FeedEntry) -> Option<String> {
    walk_for_img(entry.content.as_ref().expect("entry has content"))
}

#[test]
fn two_entries_in_document_order() {
    let feed = parse_feed(TWO_ENTRIES.as_bytes()).expect("well-formed feed");
    assert_eq!(feed.entries.len(), 2);
    let a = &feed.entries[0];
    let b = &feed.entries[1];
    assert_eq!(a.id.as_deref(), Some("t1"));
    assert_eq!(a.title.as_deref(), Some("Post A"));
    assert_eq!(link_of(a), Some("https://i.redd.it/abc.jpg".to_string()));
    assert_eq!(
        a.content,
        Some(parse_html("<div><a href=\"https://i.redd.it/abc.jpg\">x</a></div>"))
    );
    assert_eq!(b.id.as_deref(), Some("t2"));
    assert_eq!(b.title.as_deref(), Some("Post B"));
    assert_eq!(link_of(b), None);
    assert_eq!(b.content, Some(parse_html("<p>no links</p>")));
}

#[test]
fn parsing_twice_gives_the_same_feed() {
    let first = parse_feed(TWO_ENTRIES.as_bytes());
    let second = parse_feed(TWO_ENTRIES.as_bytes());
    assert!(first.is_ok());
    assert_eq!(first, second);
}

#[test]
fn stream_that_ends_after_entry_opens_is_an_error() {
    let r = parse_feed(b"<feed><entry>");
    assert!(matches!(r, Err(ParseError::Malformed { .. })));
}

#[test]
fn empty_document_is_an_error() {
    assert!(matches!(parse_feed(b""), Err(ParseError::Malformed { .. })));
}

#[test]
fn document_without_feed_element() {
    assert_eq!(parse_feed(b"<rss><channel/></rss>"), Err(ParseError::NoFeed));
}

#[test]
fn feed_without_entries() {
    let feed = parse_feed(b"<feed><title>r/pics</title></feed>").expect("well-formed feed");
    assert!(feed.entries.is_empty());
}

#[test]
fn entry_without_title_and_content_is_kept() {
    let feed = parse_feed(b"<feed><entry><id>t9</id></entry></feed>").expect("well-formed feed");
    assert_eq!(
        feed.entries,
        vec![FeedEntry { title: None, content: None, id: Some("t9".to_string()) }]
    );
}

#[test]
fn unknown_elements_pass_through() {
    let doc = b"<feed><link href=\"x\"/><entry><author><name>n</name></author><id>t3</id>\
<updated>now</updated></entry></feed>";
    let feed = parse_feed(doc).expect("well-formed feed");
    assert_eq!(feed.entries.len(), 1);
    assert_eq!(feed.entries[0].id.as_deref(), Some("t3"));
    assert_eq!(feed.entries[0].title, None);
}

#[test]
fn pulls_end_inside_entry() {
    let pulls = vec![Ok(Token::Open("feed".to_string())), Ok(Token::Open("entry".to_string()))];
    assert_eq!(feed_from_pulls(pulls), Err(ParseError::Truncated { state: State::InEntry }));
}

#[test]
fn pulls_end_inside_feed() {
    let pulls = vec![Ok(Token::Open("feed".to_string())), Ok(Token::End)];
    assert_eq!(feed_from_pulls(pulls), Err(ParseError::Truncated { state: State::InFeed }));
}

#[test]
fn pulls_without_feed() {
    assert_eq!(feed_from_pulls(vec![Ok(Token::End)]), Err(ParseError::NoFeed));
    assert_eq!(feed_from_pulls(Vec::new()), Err(ParseError::NoFeed));
}

#[test]
fn error_pull_ends_the_stream() {
    let pulls = vec![
        Ok(Token::Open("feed".to_string())),
        Err("1:7 Unexpected EOF".to_string()),
        Ok(Token::Close("feed".to_string())),
    ];
    assert_eq!(
        feed_from_pulls(pulls),
        Err(ParseError::Malformed { detail: "1:7 Unexpected EOF".to_string() })
    );
}

#[test]
fn pulls_after_the_end_are_not_read() {
    let pulls = vec![
        Ok(Token::Open("feed".to_string())),
        Ok(Token::Close("feed".to_string())),
        Ok(Token::End),
        Ok(Token::Open("feed".to_string())),
    ];
    assert_eq!(feed_from_pulls(pulls), Ok(Feed { entries: Vec::new() }));
}

#[test]
fn transitions_follow_the_table() {
    let mut p = FeedParser::new();
    assert_eq!(p.state(), State::Start);
    p = p.push(Token::Open("entry".to_string()));
    assert_eq!(p.state(), State::Start);
    p = p.push(Token::Open("feed".to_string()));
    assert_eq!(p.state(), State::InFeed);
    p = p.push(Token::Open("title".to_string()));
    assert_eq!(p.state(), State::InFeed);
    p = p.push(Token::Open("entry".to_string()));
    assert_eq!(p.state(), State::InEntry);
    p = p.push(Token::Open("title".to_string()));
    assert_eq!(p.state(), State::InTitle);
    p = p.push(Token::Text("T".to_string()));
    p = p.push(Token::Close("id".to_string()));
    assert_eq!(p.state(), State::InTitle);
    p = p.push(Token::Close("title".to_string()));
    assert_eq!(p.state(), State::InEntry);
    p = p.push(Token::Open("content".to_string()));
    assert_eq!(p.state(), State::InContent);
    p = p.push(Token::Close("content".to_string()));
    p = p.push(Token::Open("id".to_string()));
    assert_eq!(p.state(), State::InID);
    p = p.push(Token::Text("t5".to_string()));
    p = p.push(Token::Close("id".to_string()));
    assert_eq!(p.state(), State::InEntry);
    p = p.push(Token::Text("ignored".to_string()));
    p = p.push(Token::Other);
    p = p.push(Token::Close("entry".to_string()));
    assert_eq!(p.state(), State::InFeed);
    p = p.push(Token::Close("entry".to_string()));
    assert_eq!(p.state(), State::InFeed);
    p = p.push(Token::Close("feed".to_string()));
    assert_eq!(p.state(), State::Start);
    let feed = p.finish().expect("feed was closed");
    assert_eq!(
        feed.entries,
        vec![FeedEntry { title: Some("T".to_string()), content: None, id: Some("t5".to_string()) }]
    );
}

#[test]
fn later_text_replaces_earlier_text() {
    let pulls = vec![
        Ok(Token::Open("feed".to_string())),
        Ok(Token::Open("entry".to_string())),
        Ok(Token::Open("id".to_string())),
        Ok(Token::Text("first".to_string())),
        Ok(Token::Text("second".to_string())),
        Ok(Token::Close("id".to_string())),
        Ok(Token::Close("entry".to_string())),
        Ok(Token::Close("feed".to_string())),
    ];
    let feed = feed_from_pulls(pulls).expect("feed was closed");
    assert_eq!(feed.entries[0].id.as_deref(), Some("second"));
}

#[test]
fn new_feed_and_entry_are_empty() {
    assert!(Feed::new().entries.is_empty());
    assert_eq!(FeedEntry::new(), FeedEntry { title: None, content: None, id: None });
}

#[test]
fn character_data_sections_are_passed_over() {
    let doc = b"<feed><entry><id><![CDATA[t7]]></id><title>T</title></entry></feed>";
    let feed = parse_feed(doc).expect("well-formed feed");
    assert_eq!(feed.entries[0].id, None);
    assert_eq!(feed.entries[0].title.as_deref(), Some("T"));
}

#[test]
fn entities_are_unescaped_before_the_html_is_parsed() {
    let doc = b"<feed><entry><title>a &amp; b</title>\
<content>&lt;a href=&quot;https://imgur.com/z9&quot;&gt;z&lt;/a&gt;</content></entry></feed>";
    let feed = parse_feed(doc).expect("well-formed feed");
    assert_eq!(feed.entries[0].title.as_deref(), Some("a & b"));
    assert_eq!(link_of(&feed.entries[0]), Some("https://i.imgur.com/z9.jpg".to_string()));
}

#[test]
fn mismatched_closing_tag_is_rejected_by_the_reader() {
    assert!(matches!(
        parse_feed(b"<feed><entry></feed></entry>"),
        Err(ParseError::Malformed { .. })
    ));
}

#[test]
fn stream_that_ends_inside_a_title() {
    assert!(parse_feed(b"<feed><entry><title>Post").is_err());
    assert!(parse_feed(b"<feed>").is_err());
}

#[test]
fn content_tree_is_rooted_at_the_document() {
    let pulls = vec![
        Ok(Token::Open("feed".to_string())),
        Ok(Token::Open("entry".to_string())),
        Ok(Token::Open("content".to_string())),
        Ok(Token::Text("<p>hi</p>".to_string())),
        Ok(Token::Close("content".to_string())),
        Ok(Token::Close("entry".to_string())),
        Ok(Token::Close("feed".to_string())),
        Ok(Token::End),
    ];
    let feed = feed_from_pulls(pulls).expect("feed was closed");
    let doc = feed.entries[0].content.as_ref().expect("content was parsed");
    let nodes = doc.nodes();
    assert_eq!(nodes[0].kind, reddit_scraper::html::NodeKind::Other);
    assert_eq!((nodes[0].first_child, nodes[0].child_count), (1, 1));
    assert!(matches!(
        &nodes[1].kind,
        reddit_scraper::html::NodeKind::Element { name, .. } if name == "html"
    ));
    assert_eq!(doc, &reddit_scraper::html::parse_html("<p>hi</p>"));
}

#[test]
fn second_feed_replaces_the_first() {
    let pulls = vec![
        Ok(Token::Open("feed".to_string())),
        Ok(Token::Open("entry".to_string())),
        Ok(Token::Close("entry".to_string())),
        Ok(Token::Close("feed".to_string())),
        Ok(Token::Open("feed".to_string())),
        Ok(Token::Close("feed".to_string())),
    ];
    assert_eq!(feed_from_pulls(pulls), Ok(Feed { entries: Vec::new() }));
}
