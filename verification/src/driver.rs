//! The pagination driver: which page to ask for next, when to stop, and
//! which entries of a page have an image to save.

use vstd::prelude::*;
use vstd::string::StringExecFns;
use crate::feed::{EntryView, Feed, FeedEntry, ParseError, ParseErrorView};
use crate::reader::{feed_of_document, parse_feed};
use crate::html::{first_link, walk_for_img};
use crate::link::text_of;
use crate::text::join;

verus! {

/// Whether the driver still asks for pages.
#[derive(Clone, Copy, Debug, PartialEq, Eq, Structural)]
pub enum Phase {
    /// The next page is to be fetched.
    Fetching,
    /// The last page was empty: there is nothing more to fetch.
    Finished,
    /// The last entry of the last page has no id, so no cursor follows.
    Stalled,
    /// A page could not be fetched or parsed: the run is given up.
    Failed,
}

/// The driver as a value.
pub struct DriverView {
    pub subreddit: Seq<char>,
    pub cursor: Option<Seq<char>>,
    pub phase: Phase,
}

/// The address of the feed page of `subreddit` that follows `cursor`; the
/// first page where there is no cursor.
pub open spec fn feed_address(subreddit: Seq<char>, cursor: Option<Seq<char>>) -> Seq<char> {
    let first = "https://www.reddit.com/r/"@ + subreddit + "/.rss"@;
    match cursor {
        Some(c) => first + "?after="@ + c,
        None => first,
    }
}

/// The page the driver asks for, if it asks for one.
pub open spec fn request_of(d: DriverView) -> Option<Seq<char>> {
    if d.phase == Phase::Fetching {
        Some(feed_address(d.subreddit, d.cursor))
    } else {
        None
    }
}

/// The driver after the page it asked for has been handled. An empty page
/// ends the run; otherwise the id of the page's last entry is the new
/// cursor, and without that id the run cannot go on.
pub open spec fn after_page(d: DriverView, page: Seq<EntryView>) -> DriverView {
    if d.phase != Phase::Fetching {
        d
    } else if page.len() == 0 {
        DriverView { subreddit: d.subreddit, cursor: d.cursor, phase: Phase::Finished }
    } else {
        match page.last().id {
            Some(id) => DriverView { subreddit: d.subreddit, cursor: Some(id), phase: d.phase },
            None => DriverView { subreddit: d.subreddit, cursor: d.cursor, phase: Phase::Stalled },
        }
    }
}

/// Why a page gave no feed. Either way the run cannot go on.
#[derive(Debug, PartialEq, Eq)]
pub enum PageError {
    /// The page could not be fetched; `detail` is the transport's message.
    Fetch { detail: String },
    /// The page was fetched and is no complete feed document.
    Parse { error: ParseError },
}

/// A page failure as a value.
pub enum PageErrorView {
    Fetch { detail: Seq<char> },
    Parse { error: ParseErrorView },
}

impl View for PageError {
    type V = PageErrorView;

    open spec fn view(&self) -> PageErrorView {
        match self {
            PageError::Fetch { detail } => PageErrorView::Fetch { detail: detail@ },
            PageError::Parse { error } => PageErrorView::Parse { error: error@ },
        }
    }
}

impl PageErrorView {
    /// The failure in one line.
    pub open spec fn text(self) -> Seq<char> {
        match self {
            PageErrorView::Fetch { detail } => "FetchError: "@ + detail,
            PageErrorView::Parse { error } => error.text(),
        }
    }
}

impl PageError {
    /// The failure in one line.
    pub fn to_text(&self) -> (r: String)
        ensures
            r@ == self@.text(),
    {
        match self {
            PageError::Fetch { detail } => join("FetchError: ", detail.as_str()),
            PageError::Parse { error } => error.to_text(),
        }
    }
}

/// What a fetched page holds: the feed of its document, or the failure of
/// the fetch or of the parse.
pub open spec fn page_of(fetched: Result<Seq<u8>, Seq<char>>) -> Result<
    Seq<EntryView>,
    PageErrorView,
> {
    match fetched {
        Err(detail) => Err(PageErrorView::Fetch { detail }),
        Ok(body) => match feed_of_document(body) {
            Ok(entries) => Ok(entries),
            Err(error) => Err(PageErrorView::Parse { error }),
        },
    }
}

/// The driver after the attempt to fetch and read the page it asked for:
/// as before where the page was read, given up where it was not.
pub open spec fn after_fetch(d: DriverView, fetched: Result<Seq<u8>, Seq<char>>) -> DriverView {
    if d.phase == Phase::Fetching && page_of(fetched) is Err {
        DriverView { subreddit: d.subreddit, cursor: d.cursor, phase: Phase::Failed }
    } else {
        d
    }
}

/// The view of what a fetch brought.
pub open spec fn fetched_view(fetched: Result<Vec<u8>, String>) -> Result<Seq<u8>, Seq<char>> {
    match fetched {
        Ok(body) => Ok(body@),
        Err(detail) => Err(detail@),
    }
}

/// The view of a page or of the reason why there is none.
pub open spec fn page_view(r: Result<Feed, PageError>) -> Result<Seq<EntryView>, PageErrorView> {
    match r {
        Ok(feed) => Ok(feed@),
        Err(e) => Err(e@),
    }
}

/// A page that cannot be fetched or parsed ends the run: after it the
/// driver asks for no further page.
pub proof fn lemma_failed_page_ends_run(d: DriverView, fetched: Result<Seq<u8>, Seq<char>>)
    requires
        page_of(fetched) is Err,
    ensures
        request_of(after_fetch(d, fetched)) is None,
{
}

/// A page without entries ends the run: after it the driver asks for no
/// further page, whatever cursor it held.
pub proof fn lemma_empty_page_ends_run(d: DriverView, page: Seq<EntryView>)
    requires
        page.len() == 0,
    ensures
        request_of(after_page(d, page)) is None,
{
}

/// A driver that has stopped asking never asks again.
pub proof fn lemma_stopped_stays_stopped(d: DriverView, page: Seq<EntryView>)
    requires
        request_of(d) is None,
    ensures
        after_page(d, page) == d,
        request_of(after_page(d, page)) is None,
{
}

/// While pages have entries with ids, the driver asks for the page after
/// the last id it saw.
pub proof fn lemma_cursor_follows_last_id(d: DriverView, page: Seq<EntryView>)
    requires
        d.phase == Phase::Fetching,
        page.len() > 0,
        page.last().id is Some,
    ensures
        request_of(after_page(d, page)) == Some(feed_address(d.subreddit, page.last().id)),
{
}

/// The pagination driver. The cursor is all it carries from page to page.
pub struct Driver {
    subreddit: String,
    cursor: Option<String>,
    phase: Phase,
}

impl View for Driver {
    type V = DriverView;

    closed spec fn view(&self) -> DriverView {
        DriverView { subreddit: self.subreddit@, cursor: text_of(self.cursor), phase: self.phase }
    }
}

impl Driver {
    /// A driver for `subreddit` that starts after `after`, or at the first
    /// page where `after` is `None`.
    pub fn new(subreddit: &str, after: Option<String>) -> (d: Driver)
        ensures
            d@ == (DriverView {
                subreddit: subreddit@,
                cursor: text_of(after),
                phase: Phase::Fetching,
            }),
    {
        Driver { subreddit: String::from_str(subreddit), cursor: after, phase: Phase::Fetching }
    }

    /// Whether the driver still asks for pages.
    pub fn phase(&self) -> (p: Phase)
        ensures
            p == self@.phase,
    {
        self.phase
    }

    /// The cursor: the id of the last entry seen, if any.
    pub fn cursor(&self) -> (c: Option<&str>)
        ensures
            match c {
                Some(s) => self@.cursor == Some(s@),
                None => self@.cursor is None,
            },
    {
        match &self.cursor {
            Some(s) => Some(s.as_str()),
            None => None,
        }
    }

    /// The address of the page to fetch next, or `None` where the run is
    /// over.
    pub fn next_request(&self) -> (r: Option<String>)
        ensures
            text_of(r) == request_of(self@),
    {
        match self.phase {
            Phase::Fetching => {
                let mut url = join("https://www.reddit.com/r/", self.subreddit.as_str());
                url.append("/.rss");
                match &self.cursor {
                    Some(c) => {
                        url.append("?after=");
                        url.append(c.as_str());
                    },
                    None => {},
                }
                Some(url)
            },
            _ => None,
        }
    }

    /// Reads the page that was fetched for the last request. A page that
    /// was not fetched, or that is no complete feed document, ends the run.
    pub fn read_page(&mut self, fetched: Result<Vec<u8>, String>) -> (r: Result<Feed, PageError>)
        ensures
            page_view(r) == page_of(fetched_view(fetched)),
            final(self)@ == after_fetch(old(self)@, fetched_view(fetched)),
    {
        let r = match fetched {
            Err(detail) => Err(PageError::Fetch { detail }),
            Ok(body) => match parse_feed(body.as_slice()) {
                Ok(feed) => Ok(feed),
                Err(error) => Err(PageError::Parse { error }),
            },
        };
        if r.is_err() && self.phase == Phase::Fetching {
            self.phase = Phase::Failed;
        }
        r
    }

    /// Takes note that the page asked for has been handled.
    pub fn page_done(&mut self, feed: &Feed)
        ensures
            final(self)@ == after_page(old(self)@, feed@),
    {
        if self.phase == Phase::Fetching {
            let n: usize = feed.entries.len();
            if n == 0 {
                self.phase = Phase::Finished;
            } else {
                assert(feed@.last() == feed.entries@[n - 1]@);
                match &feed.entries[n - 1].id {
                    Some(id) => {
                        self.cursor = Some(id.clone());
                    },
                    None => {
                        self.phase = Phase::Stalled;
                    },
                }
            }
        }
    }
}

/// The image link of an entry: the first one in its content, if it has
/// content.
pub open spec fn link_of_entry(e: EntryView) -> Option<Seq<char>> {
    match e.content {
        Some(tree) => first_link(tree),
        None => None,
    }
}

/// The entries of a page that have an image link, each as its place on the
/// page with its link, in page order.
pub open spec fn links_of_page(page: Seq<EntryView>) -> Seq<(int, Seq<char>)>
    decreases page.len(),
{
    if page.len() == 0 {
        Seq::empty()
    } else {
        let before = links_of_page(page.drop_last());
        match link_of_entry(page.last()) {
            Some(link) => before.push((page.len() - 1, link)),
            None => before,
        }
    }
}

/// The views of a row of places and links.
pub open spec fn links_view(links: Seq<(usize, String)>) -> Seq<(int, Seq<char>)> {
    links.map_values(|l: (usize, String)| (l.0 as int, l.1@))
}

/// `links_of_page` lists every entry that has a link, once and in page
/// order, each with its own link, and no other entry.
pub proof fn lemma_links_of_page(page: Seq<EntryView>)
    ensures
        forall|k: int|
            0 <= k < links_of_page(page).len() ==> 0 <= (#[trigger] links_of_page(page)[k]).0
                < page.len() && link_of_entry(page[links_of_page(page)[k].0]) == Some(
                links_of_page(page)[k].1,
            ),
        forall|j: int, k: int|
            0 <= j < k < links_of_page(page).len() ==> (#[trigger] links_of_page(page)[j]).0 < (
            #[trigger] links_of_page(page)[k]).0,
        forall|i: int|
            0 <= i < page.len() && link_of_entry(#[trigger] page[i]) is Some ==> exists|k: int|
                0 <= k < links_of_page(page).len() && (#[trigger] links_of_page(page)[k]).0 == i,
    decreases page.len(),
{
    if page.len() > 0 {
        let front = page.drop_last();
        let before = links_of_page(front);
        let all = links_of_page(page);
        lemma_links_of_page(front);
        assert forall|k: int| 0 <= k < all.len() implies 0 <= (#[trigger] all[k]).0 < page.len()
            && link_of_entry(page[all[k].0]) == Some(all[k].1) by {
            if k < before.len() {
                assert(all[k] == before[k]);
                assert(front[before[k].0] == page[before[k].0]);
            }
        }
        assert forall|j: int, k: int| 0 <= j < k < all.len() implies (#[trigger] all[j]).0 < (
        #[trigger] all[k]).0 by {
            assert(all[j] == before[j]);
            if k < before.len() {
                assert(all[k] == before[k]);
            }
        }
        assert forall|i: int|
            0 <= i < page.len() && link_of_entry(#[trigger] page[i]) is Some implies exists|
            k: int,
        | 0 <= k < all.len() && (#[trigger] all[k]).0 == i by {
            if i < front.len() {
                assert(front[i] == page[i]);
                let k = choose|k: int| 0 <= k < before.len() && (#[trigger] before[k]).0 == i;
                assert(all[k] == before[k]);
            } else {
                assert(all[all.len() - 1].0 == i);
            }
        }
    }
}

/// Finds the image links of a page: for each entry that has one, its place
/// on the page and its link, in page order.
pub fn page_links(feed: &Feed) -> (r: Vec<(usize, String)>)
    ensures
        links_view(r@) == links_of_page(feed@),
{
    let mut out: Vec<(usize, String)> = Vec::new();
    let n: usize = feed.entries.len();
    let mut i: usize = 0;
    proof {
        assert(links_view(out@) =~= links_of_page(feed@.take(0)));
    }
    while i < n
        invariant
            i <= n,
            n == feed.entries@.len(),
            links_view(out@) == links_of_page(feed@.take(i as int)),
        decreases n - i,
    {
        let ghost before = links_view(out@);
        proof {
            assert(feed@.take(i + 1).drop_last() =~= feed@.take(i as int));
            assert(feed@.take(i + 1).last() == feed.entries@[i as int]@);
        }
        match entry_link(&feed.entries[i]) {
            Some(link) => {
                out.push((i, link));
                assert(links_view(out@) =~= before.push((i as int, link@)));
            },
            None => {},
        }
        i += 1;
    }
    proof {
        assert(feed@.take(n as int) =~= feed@);
    }
    out
}

/// Finds the image link of an entry.
pub fn entry_link(entry: &FeedEntry) -> (r: Option<String>)
    ensures
        text_of(r) == link_of_entry(entry@),
{
    match &entry.content {
        Some(tree) => walk_for_img(tree),
        None => None,
    }
}

} // verus!
