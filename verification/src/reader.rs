//! Reads a feed document: pulls the tokens of its XML stream one by one and
//! hands each to the feed state machine.

use vstd::prelude::*;
use xml::reader::XmlEvent;
use crate::feed::{
    at_end, outcome_view, step, EntryView, Feed, FeedParser, MachineView, ParseError,
    ParseErrorView, Token, TokenView,
};

verus! {

/// An XML reader over a document held in memory. It keeps an
/// `xml::reader::EventReader`, whose state is known here only through
/// `unread`.
#[verifier::external_body]
pub struct XmlReader<'a> {
    inner: xml::reader::EventReader<&'a [u8]>,
}

/// What the XML reader yields for the document `bytes`, pull by pull, up to
/// and including the pull that ends the stream: the end of the document or
/// the reader's first error, given by its message.
pub uninterp spec fn xml_stream(bytes: Seq<u8>) -> Seq<Result<TokenView, Seq<char>>>;

/// What a reader has yet to yield, up to and including the pull that ends
/// its stream.
pub uninterp spec fn unread(reader: XmlReader) -> Seq<Result<TokenView, Seq<char>>>;

/// Tells whether a pull ends the stream.
pub open spec fn ends_stream(item: Result<TokenView, Seq<char>>) -> bool {
    item is Err || item == Ok::<TokenView, Seq<char>>(TokenView::End)
}

/// The view of a pull.
pub open spec fn pull_view(item: Result<Token, String>) -> Result<TokenView, Seq<char>> {
    match item {
        Ok(token) => Ok(token@),
        Err(detail) => Err(detail@),
    }
}

/// The views of a row of pulls.
pub open spec fn pulls_view(items: Seq<Result<Token, String>>) -> Seq<
    Result<TokenView, Seq<char>>,
> {
    items.map_values(|item: Result<Token, String>| pull_view(item))
}

/// What a stream of pulls yields when the machine `m` takes them in order:
/// an error ends it at once, the end of the document or of the pulls ends
/// it with what the machine holds.
pub open spec fn feed_of_stream(m: MachineView, items: Seq<Result<TokenView, Seq<char>>>) -> Result<
    Seq<EntryView>,
    ParseErrorView,
>
    decreases items.len(),
{
    if items.len() == 0 {
        at_end(m)
    } else {
        match items[0] {
            Err(detail) => Err(ParseErrorView::Malformed { detail }),
            Ok(TokenView::End) => at_end(m),
            Ok(token) => feed_of_stream(step(m, token), items.drop_first()),
        }
    }
}

/// The feed that the document `bytes` holds.
pub open spec fn feed_of_document(bytes: Seq<u8>) -> Result<Seq<EntryView>, ParseErrorView> {
    feed_of_stream(MachineView::start(), xml_stream(bytes))
}

/// Opens a reader on `bytes` with `xml::reader::EventReader::new`. Nothing
/// is read yet, so the whole stream of the document is still to come; it
/// holds at least the pull that ends it.
#[verifier::external_body]
fn open_reader<'a>(bytes: &'a [u8]) -> (reader: XmlReader<'a>)
    ensures
        unread(reader) == xml_stream(bytes@),
        unread(reader).len() > 0,
        ends_stream(unread(reader).last()),
{
    XmlReader { inner: xml::reader::EventReader::new(bytes) }
}

/// Pulls the next event with `xml::reader::EventReader::next` and keeps of
/// it what the machine reads: the local name of a tag, the text of
/// character data, the end of the document, or the message of an error.
/// The document's declaration, processing instructions, CDATA sections,
/// comments and whitespace between tags come back as `Token::Other`. While
/// the stream has not ended, the pull is the first unread one and leaves
/// the rest unread.
#[verifier::external_body]
fn next_token(reader: &mut XmlReader) -> (item: Result<Token, String>)
    ensures
        unread(*old(reader)).len() > 0 ==> pull_view(item) == unread(*old(reader))[0],
        unread(*old(reader)).len() > 0 ==> unread(*final(reader)) == unread(
            *old(reader),
        ).drop_first(),
{
    match reader.inner.next() {
        Ok(XmlEvent::StartElement { name, .. }) => Ok(Token::Open(name.local_name)),
        Ok(XmlEvent::EndElement { name }) => Ok(Token::Close(name.local_name)),
        Ok(XmlEvent::Characters(text)) => Ok(Token::Text(text)),
        Ok(XmlEvent::EndDocument) => Ok(Token::End),
        Ok(XmlEvent::StartDocument { .. }) => Ok(Token::Other),
        Ok(XmlEvent::ProcessingInstruction { .. }) => Ok(Token::Other),
        Ok(XmlEvent::CData(_)) => Ok(Token::Other),
        Ok(XmlEvent::Comment(_)) => Ok(Token::Other),
        Ok(XmlEvent::Whitespace(_)) => Ok(Token::Other),
        Err(e) => Err(e.to_string()),
    }
}

/// Parses a feed document. The result is the feed with its entries in
/// document order, or the reason why the document holds none: the reader
/// rejected it, or it ended before everything it opened was closed.
pub fn parse_feed(bytes: &[u8]) -> (r: Result<Feed, ParseError>)
    ensures
        outcome_view(r) == feed_of_document(bytes@),
{
    let mut reader = open_reader(bytes);
    let mut parser = FeedParser::new();
    loop
        invariant
            parser@.wf(),
            unread(reader).len() > 0,
            ends_stream(unread(reader).last()),
            feed_of_stream(parser@, unread(reader)) == feed_of_document(bytes@),
        decreases unread(reader).len(),
    {
        let ghost stream = unread(reader);
        match next_token(&mut reader) {
            Err(detail) => {
                return Err(ParseError::Malformed { detail });
            },
            Ok(Token::End) => {
                return parser.finish();
            },
            Ok(token) => {
                assert(stream.drop_first().len() > 0 ==> stream.drop_first().last()
                    == stream.last());
                parser = parser.push(token);
            },
        }
    }
}

/// Runs the machine over pulls that are already at hand.
pub fn feed_from_pulls(items: Vec<Result<Token, String>>) -> (r: Result<Feed, ParseError>)
    ensures
        outcome_view(r) == feed_of_stream(MachineView::start(), pulls_view(items@)),
{
    let ghost all = pulls_view(items@);
    let mut parser = FeedParser::new();
    proof {
        assert(all.skip(0) =~= all);
    }
    for item in it: items
        invariant
            parser@.wf(),
            all == pulls_view(it.seq()),
            feed_of_stream(parser@, all.skip(it.index())) == feed_of_stream(
                MachineView::start(),
                all,
            ),
    {
        proof {
            let rest = all.skip(it.index());
            assert(rest[0] == pull_view(item));
            assert(rest.drop_first() =~= all.skip(it.index() + 1));
        }
        match item {
            Err(detail) => {
                return Err(ParseError::Malformed { detail });
            },
            Ok(Token::End) => {
                return parser.finish();
            },
            Ok(token) => {
                parser = parser.push(token);
            },
        }
    }
    parser.finish()
}

} // verus!
