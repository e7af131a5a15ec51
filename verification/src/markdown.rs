//! Reading a Markdown text as a sequence of events.

use crate::event::{event_models, Event, EventModel, Tag};
use pulldown_cmark::Event as ParserEvent;
use pulldown_cmark::Tag as ParserTag;
use pulldown_cmark::{CodeBlockKind, Options, Parser};
use vstd::prelude::*;

verus! {

/// An event of the parser.
#[verifier::external_type_specification]
#[verifier::external_body]
pub struct ExParserEvent<'a>(ParserEvent<'a>);

/// A tag of the parser.
#[verifier::external_type_specification]
#[verifier::external_body]
pub struct ExParserTag<'a>(ParserTag<'a>);

/// The kind of a code block of the parser.
#[verifier::external_type_specification]
#[verifier::external_body]
pub struct ExCodeBlockKind<'a>(CodeBlockKind<'a>);

/// The events that a Markdown text is read as, with all the extensions of
/// the parser.
pub uninterp spec fn markdown_events(text: Seq<char>) -> Seq<EventModel>;

/// The events that `text` is read as.
///
/// Calls pulldown_cmark's `Parser::new_ext` with `Options::all()` and takes
/// every event that the parser hands out, each as the event of this library
/// that stands for it. The result is named `markdown_events`.
#[verifier::external_body]
pub(crate) fn parse(text: &str) -> (events: Vec<Event>)
    ensures
        event_models(events@) == markdown_events(text@),
{
    Parser::new_ext(text, Options::all()).map(event_of).collect()
}

/// The event that stands for an event of the parser: the same variant with
/// the same text.
///
/// Tells the variants of pulldown_cmark's `Event` apart. Nothing is stated
/// of the result.
#[verifier::external_body]
fn event_of(event: ParserEvent) -> Event {
    match event {
        ParserEvent::Start(tag) => Event::Start(tag_of(tag)),
        ParserEvent::End(tag) => Event::End(tag_of(tag)),
        ParserEvent::Text(text) => Event::Text(text.to_string()),
        ParserEvent::Code(text) => Event::Code(text.to_string()),
        ParserEvent::Html(html) => Event::Html(html.to_string()),
        ParserEvent::FootnoteReference(name) => Event::FootnoteReference(name.to_string()),
        ParserEvent::SoftBreak => Event::SoftBreak,
        ParserEvent::HardBreak => Event::HardBreak,
        ParserEvent::Rule => Event::Rule,
        ParserEvent::TaskListMarker(checked) => Event::TaskListMarker(checked),
    }
}

/// The tag that stands for a tag of the parser: the same variant with what
/// this library reads of its fields. The parts of a table all count as a
/// table.
///
/// Tells the variants of pulldown_cmark's `Tag` apart. Nothing is stated of
/// the result.
#[verifier::external_body]
fn tag_of(tag: ParserTag) -> Tag {
    match tag {
        ParserTag::Paragraph => Tag::Paragraph,
        ParserTag::Heading(level, _, _) => Tag::Heading(level as u8),
        ParserTag::BlockQuote => Tag::BlockQuote,
        ParserTag::CodeBlock(kind) => Tag::CodeBlock(token_of(kind)),
        ParserTag::List(start) => Tag::List(start),
        ParserTag::Item => Tag::Item,
        ParserTag::FootnoteDefinition(name) => Tag::FootnoteDefinition(name.to_string()),
        ParserTag::Emphasis => Tag::Emphasis,
        ParserTag::Strong => Tag::Strong,
        ParserTag::Strikethrough => Tag::Strikethrough,
        ParserTag::Link(_, dest, _) => Tag::Link(dest.to_string()),
        ParserTag::Image(_, dest, title) => Tag::Image(dest.to_string(), title.to_string()),
        ParserTag::Table(_) | ParserTag::TableHead | ParserTag::TableRow | ParserTag::TableCell => Tag::Table,
    }
}

/// The language token of a code block, where it is fenced.
///
/// Tells the variants of pulldown_cmark's `CodeBlockKind` apart. Nothing is
/// stated of the result.
#[verifier::external_body]
fn token_of(kind: CodeBlockKind) -> Option<String> {
    match kind {
        CodeBlockKind::Fenced(token) => Some(token.to_string()),
        CodeBlockKind::Indented => None,
    }
}

} // verus!
