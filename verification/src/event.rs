//! The semantic events that a document is read as.

use vstd::prelude::*;

verus! {

/// What a `Start` event opens and an `End` event closes.
#[derive(Debug, Clone)]
pub enum Tag {
    /// A paragraph of inline content.
    Paragraph,
    /// A heading of the given level, 1 being the topmost.
    Heading(u8),
    /// A block quotation.
    BlockQuote,
    /// A code block, with its language token where it is fenced.
    CodeBlock(Option<String>),
    /// A list, with the number of its first item where it is ordered.
    List(Option<u64>),
    /// A list item.
    Item,
    /// The definition of the footnote of the given name.
    FootnoteDefinition(String),
    /// A table or a part of one: its head, a row or a cell.
    Table,
    /// Emphasised inline content.
    Emphasis,
    /// Strongly emphasised inline content.
    Strong,
    /// Struck-through inline content.
    Strikethrough,
    /// A link to the given destination.
    Link(String),
    /// An image at the given destination, with the given title.
    Image(String, String),
}

/// A tag as a value.
#[verifier::ext_equal]
pub enum TagModel {
    Paragraph,
    Heading(u8),
    BlockQuote,
    CodeBlock(Option<Seq<char>>),
    List(Option<u64>),
    Item,
    FootnoteDefinition(Seq<char>),
    Table,
    Emphasis,
    Strong,
    Strikethrough,
    Link(Seq<char>),
    Image(Seq<char>, Seq<char>),
}

impl View for Tag {
    type V = TagModel;

    open spec fn view(&self) -> TagModel {
        match *self {
            Tag::Paragraph => TagModel::Paragraph,
            Tag::Heading(level) => TagModel::Heading(level),
            Tag::BlockQuote => TagModel::BlockQuote,
            Tag::CodeBlock(None) => TagModel::CodeBlock(None),
            Tag::CodeBlock(Some(token)) => TagModel::CodeBlock(Some(token@)),
            Tag::List(start) => TagModel::List(start),
            Tag::Item => TagModel::Item,
            Tag::FootnoteDefinition(name) => TagModel::FootnoteDefinition(name@),
            Tag::Table => TagModel::Table,
            Tag::Emphasis => TagModel::Emphasis,
            Tag::Strong => TagModel::Strong,
            Tag::Strikethrough => TagModel::Strikethrough,
            Tag::Link(dest) => TagModel::Link(dest@),
            Tag::Image(dest, title) => TagModel::Image(dest@, title@),
        }
    }
}

/// A stretch of highlighted code: its text, the colour of its foreground and
/// its font attributes.
#[derive(Debug, Clone)]
pub struct Span {
    pub red: u8,
    pub green: u8,
    pub blue: u8,
    pub bold: bool,
    pub italic: bool,
    pub underline: bool,
    pub text: String,
}

/// A span as a value.
#[verifier::ext_equal]
pub struct SpanModel {
    pub red: u8,
    pub green: u8,
    pub blue: u8,
    pub bold: bool,
    pub italic: bool,
    pub underline: bool,
    pub text: Seq<char>,
}

impl View for Span {
    type V = SpanModel;

    open spec fn view(&self) -> SpanModel {
        SpanModel {
            red: self.red,
            green: self.green,
            blue: self.blue,
            bold: self.bold,
            italic: self.italic,
            underline: self.underline,
            text: self.text@,
        }
    }
}

/// The values of a sequence of spans.
pub open spec fn span_models(spans: Seq<Span>) -> Seq<SpanModel> {
    Seq::new(spans.len(), |i: int| spans[i]@)
}

/// The texts of a sequence of spans.
pub open spec fn span_texts(spans: Seq<SpanModel>) -> Seq<Seq<char>> {
    Seq::new(spans.len(), |i: int| spans[i].text)
}

/// One event of a document.
#[derive(Debug, Clone)]
pub enum Event {
    /// The start of a tagged element.
    Start(Tag),
    /// The end of a tagged element.
    End(Tag),
    /// A run of text.
    Text(String),
    /// A run of inline code.
    Code(String),
    /// A run of raw HTML.
    Html(String),
    /// A reference to the footnote of the given name.
    FootnoteReference(String),
    /// A soft line break.
    SoftBreak,
    /// A hard line break.
    HardBreak,
    /// A horizontal rule.
    Rule,
    /// The checkbox of a task list item, with whether it is checked.
    TaskListMarker(bool),
    /// A run of code that a highlighter has cut into spans.
    Highlighted(Vec<Span>),
}

/// An event as a value.
#[verifier::ext_equal]
pub enum EventModel {
    Start(TagModel),
    End(TagModel),
    Text(Seq<char>),
    Code(Seq<char>),
    Html(Seq<char>),
    FootnoteReference(Seq<char>),
    SoftBreak,
    HardBreak,
    Rule,
    TaskListMarker(bool),
    Highlighted(Seq<SpanModel>),
}

impl View for Event {
    type V = EventModel;

    open spec fn view(&self) -> EventModel {
        match *self {
            Event::Start(tag) => EventModel::Start(tag@),
            Event::End(tag) => EventModel::End(tag@),
            Event::Text(text) => EventModel::Text(text@),
            Event::Code(text) => EventModel::Code(text@),
            Event::Html(text) => EventModel::Html(text@),
            Event::FootnoteReference(name) => EventModel::FootnoteReference(name@),
            Event::SoftBreak => EventModel::SoftBreak,
            Event::HardBreak => EventModel::HardBreak,
            Event::Rule => EventModel::Rule,
            Event::TaskListMarker(checked) => EventModel::TaskListMarker(checked),
            Event::Highlighted(spans) => EventModel::Highlighted(span_models(spans@)),
        }
    }
}

/// The values of a sequence of events.
pub open spec fn event_models(events: Seq<Event>) -> Seq<EventModel> {
    Seq::new(events.len(), |i: int| events[i]@)
}

} // verus!
