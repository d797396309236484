//! The feed state machine: it rebuilds the entries of a feed page from the
//! stream of tokens of the page's document, one token at a time.

use vstd::prelude::*;
use vstd::string::StringExecFns;
use crate::html::{html_tree, parse_html, HtmlDocument, NodeView};
use crate::text::{join, same_text};

verus! {

/// Where the machine stands in the document.
#[derive(Clone, Copy, Debug, PartialEq, Eq, Structural)]
pub enum State {
    Start,
    InFeed,
    InEntry,
    InTitle,
    InContent,
    InID,
}

/// One post of a feed page. Any field may be missing in a malformed post.
#[derive(Debug, PartialEq, Eq)]
pub struct FeedEntry {
    pub title: Option<String>,
    pub content: Option<HtmlDocument>,
    pub id: Option<String>,
}

/// The entries of one feed page, in document order.
#[derive(Debug, PartialEq, Eq)]
pub struct Feed {
    pub entries: Vec<FeedEntry>,
}

/// One token of the document's stream.
#[derive(Debug, PartialEq, Eq)]
pub enum Token {
    /// An opening tag, with its local name.
    Open(String),
    /// A closing tag, with its local name.
    Close(String),
    /// Character data, unescaped.
    Text(String),
    /// Anything else that the machine passes over.
    Other,
    /// The end of a complete document.
    End,
}

/// Why a document gave no feed.
#[derive(Debug, PartialEq, Eq)]
pub enum ParseError {
    /// The tokenizer rejected the document; `detail` is its message.
    Malformed { detail: String },
    /// The stream ended inside a feed or an entry.
    Truncated { state: State },
    /// The stream ended and no feed had been opened.
    NoFeed,
}

/// An entry as a value.
pub struct EntryView {
    pub title: Option<Seq<char>>,
    pub content: Option<NodeView>,
    pub id: Option<Seq<char>>,
}

/// A token as a value.
pub enum TokenView {
    Open(Seq<char>),
    Close(Seq<char>),
    Text(Seq<char>),
    Other,
    End,
}

/// A parse failure as a value.
pub enum ParseErrorView {
    Malformed { detail: Seq<char> },
    Truncated { state: State },
    NoFeed,
}

/// The machine as a value: its state, the feed so far, the entry in progress.
pub struct MachineView {
    pub state: State,
    pub feed: Option<Seq<EntryView>>,
    pub entry: Option<EntryView>,
}

impl View for FeedEntry {
    type V = EntryView;

    open spec fn view(&self) -> EntryView {
        EntryView {
            title: match self.title {
                Some(t) => Some(t@),
                None => None,
            },
            content: match self.content {
                Some(c) => Some(c@),
                None => None,
            },
            id: match self.id {
                Some(i) => Some(i@),
                None => None,
            },
        }
    }
}

/// The views of a row of entries.
pub open spec fn entries_view(entries: Seq<FeedEntry>) -> Seq<EntryView> {
    entries.map_values(|e: FeedEntry| e@)
}

impl View for Feed {
    type V = Seq<EntryView>;

    open spec fn view(&self) -> Seq<EntryView> {
        entries_view(self.entries@)
    }
}

impl View for Token {
    type V = TokenView;

    open spec fn view(&self) -> TokenView {
        match self {
            Token::Open(name) => TokenView::Open(name@),
            Token::Close(name) => TokenView::Close(name@),
            Token::Text(text) => TokenView::Text(text@),
            Token::Other => TokenView::Other,
            Token::End => TokenView::End,
        }
    }
}

impl View for ParseError {
    type V = ParseErrorView;

    open spec fn view(&self) -> ParseErrorView {
        match self {
            ParseError::Malformed { detail } => ParseErrorView::Malformed { detail: detail@ },
            ParseError::Truncated { state } => ParseErrorView::Truncated { state: *state },
            ParseError::NoFeed => ParseErrorView::NoFeed,
        }
    }
}

impl State {
    /// The name of the state.
    pub open spec fn name(self) -> Seq<char> {
        match self {
            State::Start => "Start"@,
            State::InFeed => "InFeed"@,
            State::InEntry => "InEntry"@,
            State::InTitle => "InTitle"@,
            State::InContent => "InContent"@,
            State::InID => "InID"@,
        }
    }

    /// The name of the state.
    pub fn to_text(&self) -> (r: &'static str)
        ensures
            r@ == self.name(),
    {
        match self {
            State::Start => "Start",
            State::InFeed => "InFeed",
            State::InEntry => "InEntry",
            State::InTitle => "InTitle",
            State::InContent => "InContent",
            State::InID => "InID",
        }
    }
}

impl ParseErrorView {
    /// The failure in one line.
    pub open spec fn text(self) -> Seq<char> {
        match self {
            ParseErrorView::Malformed { detail } => "ParseError: malformed document: "@ + detail,
            ParseErrorView::Truncated { state } => "ParseError: stream ended in state "@
                + state.name(),
            ParseErrorView::NoFeed => "ParseError: document holds no feed"@,
        }
    }
}

impl ParseError {
    /// The failure in one line.
    pub fn to_text(&self) -> (r: String)
        ensures
            r@ == self@.text(),
    {
        match self {
            ParseError::Malformed { detail } => join(
                "ParseError: malformed document: ",
                detail.as_str(),
            ),
            ParseError::Truncated { state } => join(
                "ParseError: stream ended in state ",
                state.to_text(),
            ),
            ParseError::NoFeed => String::from_str("ParseError: document holds no feed"),
        }
    }
}

/// The machine yields a feed only from its start state: a stream that ends
/// inside a feed or an entry never gives one.
pub proof fn lemma_feed_only_when_closed(m: MachineView)
    ensures
        at_end(m) is Ok <==> m.state == State::Start && m.feed is Some,
        at_end(m) is Ok ==> at_end(m) == Ok::<Seq<EntryView>, ParseErrorView>(m.feed.unwrap()),
{
}

impl EntryView {
    /// An entry with no field set.
    pub open spec fn empty() -> EntryView {
        EntryView { title: None, content: None, id: None }
    }
}

impl MachineView {
    /// The machine before the first token.
    pub open spec fn start() -> MachineView {
        MachineView { state: State::Start, feed: None, entry: None }
    }

    /// A feed exists while the machine is inside one, and an entry is in
    /// progress exactly while the machine is inside one.
    pub open spec fn wf(self) -> bool {
        match self.state {
            State::Start => self.entry is None,
            State::InFeed => self.feed is Some && self.entry is None,
            _ => self.feed is Some && self.entry is Some,
        }
    }
}

/// The machine after an opening tag `name`.
pub open spec fn on_open(m: MachineView, name: Seq<char>) -> MachineView {
    if m.state == State::Start && name == "feed"@ {
        MachineView { state: State::InFeed, feed: Some(Seq::empty()), entry: m.entry }
    } else if m.state == State::InFeed && name == "entry"@ {
        MachineView { state: State::InEntry, feed: m.feed, entry: Some(EntryView::empty()) }
    } else if m.state == State::InEntry && name == "title"@ {
        MachineView { state: State::InTitle, feed: m.feed, entry: m.entry }
    } else if m.state == State::InEntry && name == "content"@ {
        MachineView { state: State::InContent, feed: m.feed, entry: m.entry }
    } else if m.state == State::InEntry && name == "id"@ {
        MachineView { state: State::InID, feed: m.feed, entry: m.entry }
    } else {
        m
    }
}

/// The machine after a closing tag `name`. A closing tag counts only where
/// it is the one that the current state waits for; closing an entry appends
/// it to the feed.
pub open spec fn on_close(m: MachineView, name: Seq<char>) -> MachineView {
    if m.state == State::InFeed && name == "feed"@ {
        MachineView { state: State::Start, feed: m.feed, entry: m.entry }
    } else if m.state == State::InEntry && name == "entry"@ {
        MachineView {
            state: State::InFeed,
            feed: Some(m.feed.unwrap().push(m.entry.unwrap())),
            entry: None,
        }
    } else if (m.state == State::InTitle && name == "title"@) || (m.state == State::InContent
        && name == "content"@) || (m.state == State::InID && name == "id"@) {
        MachineView { state: State::InEntry, feed: m.feed, entry: m.entry }
    } else {
        m
    }
}

/// The machine after character data `text`: inside a title or an id the
/// text becomes that field, inside a content element it is parsed as HTML
/// and the tree becomes the content; elsewhere it is passed over.
pub open spec fn on_text(m: MachineView, text: Seq<char>) -> MachineView {
    let e = m.entry.unwrap();
    match m.state {
        State::InTitle => MachineView {
            state: m.state,
            feed: m.feed,
            entry: Some(EntryView { title: Some(text), content: e.content, id: e.id }),
        },
        State::InContent => MachineView {
            state: m.state,
            feed: m.feed,
            entry: Some(EntryView { title: e.title, content: Some(html_tree(text)), id: e.id }),
        },
        State::InID => MachineView {
            state: m.state,
            feed: m.feed,
            entry: Some(EntryView { title: e.title, content: e.content, id: Some(text) }),
        },
        _ => m,
    }
}

/// The machine after one token.
pub open spec fn step(m: MachineView, token: TokenView) -> MachineView {
    match token {
        TokenView::Open(name) => on_open(m, name),
        TokenView::Close(name) => on_close(m, name),
        TokenView::Text(text) => on_text(m, text),
        TokenView::Other => m,
        TokenView::End => m,
    }
}

/// What the machine yields when the stream ends: the feed, where one was
/// opened and closed again; otherwise the reason why there is none.
pub open spec fn at_end(m: MachineView) -> Result<Seq<EntryView>, ParseErrorView> {
    if m.state != State::Start {
        Err(ParseErrorView::Truncated { state: m.state })
    } else if m.feed is None {
        Err(ParseErrorView::NoFeed)
    } else {
        Ok(m.feed.unwrap())
    }
}

/// The view of a parse result.
pub open spec fn outcome_view(r: Result<Feed, ParseError>) -> Result<
    Seq<EntryView>,
    ParseErrorView,
> {
    match r {
        Ok(feed) => Ok(feed@),
        Err(e) => Err(e@),
    }
}

impl FeedEntry {
    /// An entry with no field set.
    pub fn new() -> (e: FeedEntry)
        ensures
            e@ == EntryView::empty(),
    {
        FeedEntry { title: None, content: None, id: None }
    }
}

impl Feed {
    /// A feed without entries.
    pub fn new() -> (f: Feed)
        ensures
            f@ == Seq::<EntryView>::empty(),
    {
        let f = Feed { entries: Vec::new() };
        assert(f@ =~= Seq::<EntryView>::empty());
        f
    }
}

/// The feed state machine.
pub struct FeedParser {
    state: State,
    feed: Option<Feed>,
    entry: Option<FeedEntry>,
}

impl View for FeedParser {
    type V = MachineView;

    closed spec fn view(&self) -> MachineView {
        MachineView {
            state: self.state,
            feed: match self.feed {
                Some(f) => Some(f@),
                None => None,
            },
            entry: match self.entry {
                Some(e) => Some(e@),
                None => None,
            },
        }
    }
}

impl FeedParser {
    /// A feed exists while the machine is inside one, and an entry is in
    /// progress exactly while the machine is inside one.
    #[verifier::type_invariant]
    pub closed spec fn wf(self) -> bool {
        self@.wf()
    }

    /// The machine before the first token.
    pub fn new() -> (p: FeedParser)
        ensures
            p@ == MachineView::start(),
            p@.wf(),
    {
        FeedParser { state: State::Start, feed: None, entry: None }
    }

    /// The state the machine is in.
    pub fn state(&self) -> (s: State)
        ensures
            s == self@.state,
    {
        self.state
    }

    /// Takes one token and returns the machine after it.
    pub fn push(self, token: Token) -> (p: FeedParser)
        ensures
            p@ == step(self@, token@),
            p@.wf(),
    {
        proof {
            use_type_invariant(&self);
        }
        let FeedParser { state, feed, entry } = self;
        match token {
            Token::Open(name) => {
                if state == State::Start && same_text(name.as_str(), "feed") {
                    FeedParser { state: State::InFeed, feed: Some(Feed::new()), entry }
                } else if state == State::InFeed && same_text(name.as_str(), "entry") {
                    FeedParser { state: State::InEntry, feed, entry: Some(FeedEntry::new()) }
                } else if state == State::InEntry && same_text(name.as_str(), "title") {
                    FeedParser { state: State::InTitle, feed, entry }
                } else if state == State::InEntry && same_text(name.as_str(), "content") {
                    FeedParser { state: State::InContent, feed, entry }
                } else if state == State::InEntry && same_text(name.as_str(), "id") {
                    FeedParser { state: State::InID, feed, entry }
                } else {
                    FeedParser { state, feed, entry }
                }
            },
            Token::Close(name) => {
                if state == State::InFeed && same_text(name.as_str(), "feed") {
                    FeedParser { state: State::Start, feed, entry }
                } else if state == State::InEntry && same_text(name.as_str(), "entry") {
                    let mut page = feed.unwrap();
                    let done = entry.unwrap();
                    let ghost earlier = page@;
                    page.entries.push(done);
                    assert(page@ =~= earlier.push(done@));
                    FeedParser { state: State::InFeed, feed: Some(page), entry: None }
                } else if (state == State::InTitle && same_text(name.as_str(), "title")) || (state
                    == State::InContent && same_text(name.as_str(), "content")) || (state
                    == State::InID && same_text(name.as_str(), "id")) {
                    FeedParser { state: State::InEntry, feed, entry }
                } else {
                    FeedParser { state, feed, entry }
                }
            },
            Token::Text(text) => {
                match state {
                    State::InTitle => {
                        let e = entry.unwrap();
                        let next = FeedEntry { title: Some(text), content: e.content, id: e.id };
                        FeedParser { state, feed, entry: Some(next) }
                    },
                    State::InContent => {
                        let e = entry.unwrap();
                        let tree = parse_html(text.as_str());
                        let next = FeedEntry { title: e.title, content: Some(tree), id: e.id };
                        FeedParser { state, feed, entry: Some(next) }
                    },
                    State::InID => {
                        let e = entry.unwrap();
                        let next = FeedEntry { title: e.title, content: e.content, id: Some(text) };
                        FeedParser { state, feed, entry: Some(next) }
                    },
                    _ => FeedParser { state, feed, entry },
                }
            },
            Token::Other => FeedParser { state, feed, entry },
            Token::End => FeedParser { state, feed, entry },
        }
    }

    /// Ends the stream: the feed, where the document opened one and closed
    /// everything it opened; otherwise the reason why there is none.
    pub fn finish(self) -> (r: Result<Feed, ParseError>)
        ensures
            outcome_view(r) == at_end(self@),
    {
        let FeedParser { state, feed, entry: _ } = self;
        if state != State::Start {
            Err(ParseError::Truncated { state })
        } else {
            match feed {
                Some(page) => Ok(page),
                None => Err(ParseError::NoFeed),
            }
        }
    }
}

} // verus!
