//! Building the box tree of a document from its events.

use crate::dombox::{
    group_models, BorderType, BoxKind, BoxModel, BoxSize, DomBox, DomColor, DomStyle, Edges,
    KindModel, TermColor, XY,
};
use crate::event::{event_models, span_models, Event, EventModel, Span, SpanModel, Tag, TagModel};
use crate::highlight::{highlighted, Highlighter};
use crate::layout::{layout_of, LayoutError};
use crate::markdown::{markdown_events, parse};
use crate::render::{page, written};
use crate::style::color_index;
use crate::OutputKind;
use crate::text::{decimal, decimal_string, split_at_in_place};
use vstd::prelude::*;

verus! {

/// Where a build stands: the next event, and the two side collections that
/// are appended to the document at its end. A collection is absent while it
/// is being filled by the events of a footnote definition.
pub struct BuildState {
    pub pos: int,
    pub links: Option<BoxModel>,
    pub footnotes: Option<BoxModel>,
}

impl BoxModel {
    /// This box in another style.
    pub open spec fn styled(self, style: DomStyle) -> BoxModel {
        BoxModel { style, ..self }
    }

    /// This box with other borders.
    pub open spec fn edged(self, border: Edges) -> BoxModel {
        BoxModel { size: BoxSize { border, ..self.size }, ..self }
    }

    /// A new piece of text in the style of the inline content of this box.
    pub open spec fn new_text(self, text: Seq<char>) -> BoxModel {
        BoxModel::fresh(KindModel::Text(text), self.inline_container().style)
    }

    /// A new inline group in the style of the inline content of this box.
    pub open spec fn new_inline(self) -> BoxModel {
        BoxModel::fresh(KindModel::Inline, self.inline_container().style)
    }

    /// A new child of the given kind in the style of this box.
    pub open spec fn new_child(self, kind: KindModel) -> BoxModel {
        BoxModel::fresh(kind, self.style)
    }

    /// This box with a forced end of line appended.
    pub open spec fn with_break(self) -> BoxModel {
        self.with_child(self.new_child(KindModel::Break))
    }

    /// This box followed by a block that holds one empty line.
    pub open spec fn with_blank_line(self) -> BoxModel {
        let block = self.new_child(KindModel::Block);
        self.with_child(block.with_inline(block.new_text(Seq::empty())))
    }
}

/// The palette colour of the dark variant of a base colour.
pub open spec fn dark(color: TermColor) -> DomColor {
    DomColor(Some(color.code()))
}

/// The palette colour of the bright variant of a base colour.
pub open spec fn light(color: TermColor) -> DomColor {
    DomColor(Some((color.code() + 8) as u8))
}

/// One more cell.
pub open spec fn one_more(x: XY) -> XY {
    x.plus(XY(1))
}

/// The border line of a heading: levels 1 to 5 have one of their own, any
/// other level keeps what it inherits.
pub open spec fn heading_line(level: u8, inherited: BorderType) -> BorderType {
    if level == 1 {
        BorderType::Thin
    } else if level == 2 {
        BorderType::Bold
    } else if level == 3 {
        BorderType::Double
    } else if level == 4 {
        BorderType::Thin
    } else if level == 5 {
        BorderType::Dash
    } else {
        inherited
    }
}

/// The borders of a heading: one row below, and for the topmost level a
/// frame all around.
pub open spec fn heading_edges(level: u8, border: Edges) -> Edges {
    if level == 1 {
        Edges {
            top: one_more(border.top),
            bottom: one_more(border.bottom),
            left: one_more(border.left),
            right: one_more(border.right),
        }
    } else {
        Edges { bottom: one_more(border.bottom), ..border }
    }
}

/// The box that a heading starts as, under a parent of the given style.
pub open spec fn heading_box(level: u8, style: DomStyle) -> BoxModel {
    let fresh = BoxModel::fresh(KindModel::Header(level), style);
    fresh.edged(heading_edges(level, fresh.size.border)).styled(
        DomStyle {
            border_type: heading_line(level, style.border_type),
            fg: dark(TermColor::Purple),
            ..style
        },
    )
}

/// The start number of a list as a coordinate.
pub open spec fn list_start(start: Option<u64>) -> Option<XY> {
    match start {
        None => None,
        Some(n) => Some(XY(if n > u16::MAX { u16::MAX } else { n as u16 })),
    }
}

/// Whether a run of text ends its line.
pub open spec fn ends_line(text: Seq<char>) -> bool {
    text.len() > 0 && text.last() == '\n'
}

/// A run of text without the newline that ends it, if one does.
pub open spec fn line_of(text: Seq<char>) -> Seq<char> {
    if ends_line(text) {
        text.drop_last()
    } else {
        text
    }
}

/// The parent with a run of text appended: the text without the newline that
/// ends it, and a forced end of line in place of that newline.
pub open spec fn with_chunk(parent: BoxModel, text: Seq<char>) -> BoxModel {
    let placed = parent.with_inline(parent.new_text(line_of(text)));
    if ends_line(text) {
        placed.with_break()
    } else {
        placed
    }
}

/// The style of a highlighted span under inline content of the given style:
/// the span's colour, and its font attributes on top of the inherited ones.
pub open spec fn span_style(span: SpanModel, inherited: DomStyle) -> DomStyle {
    DomStyle {
        fg: DomColor(Some(color_index(span.red, span.green, span.blue))),
        bold: inherited.bold || span.bold,
        italic: inherited.italic || span.italic,
        underline: inherited.underline || span.underline,
        ..inherited
    }
}

/// The parent with one highlighted span appended.
pub open spec fn with_span(parent: BoxModel, span: SpanModel) -> BoxModel {
    let text = parent.new_text(line_of(span.text));
    let placed = parent.with_inline(text.styled(span_style(span, text.style)));
    if ends_line(span.text) {
        placed.with_break()
    } else {
        placed
    }
}

/// The parent with some highlighted spans appended, in order.
pub open spec fn with_spans(parent: BoxModel, spans: Seq<SpanModel>) -> BoxModel
    decreases spans.len(),
{
    if spans.len() == 0 {
        parent
    } else {
        with_span(with_spans(parent, spans.drop_last()), spans.last())
    }
}

/// How many list bullets stand before the child at index `i`.
pub open spec fn bullet_rank(children: Seq<BoxModel>, i: int) -> nat
    decreases i,
{
    if i <= 0 {
        0
    } else {
        bullet_rank(children, i - 1) + if children[i - 1].kind is ListBullet {
            1nat
        } else {
            0nat
        }
    }
}

/// The label of the bullet of the given rank: the glyph of an unordered
/// list, or the number of the item in an ordered one.
pub open spec fn label(start: Option<u64>, rank: nat) -> Seq<char> {
    match start {
        None => seq!['*'],
        Some(n) => decimal(n as nat + rank),
    }
}

/// The child at index `i` of a list that has ended: a bullet has got its
/// label, anything else is as it was.
pub open spec fn labelled_child(children: Seq<BoxModel>, start: Option<u64>, i: int) -> BoxModel {
    let child = children[i];
    if child.kind is ListBullet {
        child.with_inline(child.new_text(label(start, bullet_rank(children, i))))
    } else {
        child
    }
}

/// A list that has ended: each of its bullets has got its label.
pub open spec fn labelled(list: BoxModel, start: Option<u64>) -> BoxModel {
    BoxModel {
        children: Seq::new(
            list.children.len(),
            |i: int| labelled_child(list.children, start, i),
        ),
        ..list
    }
}

/// The text of a task list marker: a box, with a cross in it where the task
/// is checked.
pub open spec fn marker_text(checked: bool) -> Seq<char> {
    if checked {
        "[X]"@
    } else {
        "[ ]"@
    }
}

/// The block that a horizontal rule is drawn as.
pub open spec fn rule_box(style: DomStyle) -> BoxModel {
    let fresh = BoxModel::fresh(KindModel::Block, style);
    fresh.edged(Edges { bottom: one_more(fresh.size.border.bottom), ..fresh.size.border }).styled(
        DomStyle {
            extend: true,
            border_type: BorderType::Thin,
            fg: dark(TermColor::Yellow),
            ..style
        },
    )
}

/// The style of the inline group that a tag opens, over the style it
/// inherits.
pub open spec fn group_style(tag: TagModel, inherited: DomStyle) -> DomStyle {
    match tag {
        TagModel::Emphasis => DomStyle { italic: true, ..inherited },
        TagModel::Strong => DomStyle { bold: true, ..inherited },
        TagModel::Strikethrough => DomStyle { strikethrough: true, ..inherited },
        TagModel::Link(_) => DomStyle { underline: true, fg: dark(TermColor::Blue), ..inherited },
        TagModel::Image(_, _) => DomStyle { italic: true, ..inherited },
        _ => inherited,
    }
}

/// The bullet that stands before a list item under a parent of the given
/// style.
pub open spec fn bullet_box(style: DomStyle) -> BoxModel {
    let fresh = BoxModel::fresh(KindModel::ListBullet, style);
    fresh.edged(Edges { right: one_more(fresh.size.border.right), ..fresh.size.border }).styled(
        DomStyle { fg: light(TermColor::Yellow), ..style },
    )
}

/// The parent with the title and the destination of an image noted in it.
pub open spec fn captioned(parent: BoxModel, dest: Seq<char>, title: Seq<char>) -> BoxModel {
    let caption = parent.new_text(title);
    let titled = parent.with_inline(
        caption.styled(
            DomStyle {
                fg: light(TermColor::Black),
                bg: dark(TermColor::Yellow),
                ..caption.style
            },
        ),
    );
    let address = titled.new_text(dest);
    titled.with_inline(
        address.styled(
            DomStyle {
                fg: dark(TermColor::Blue),
                bg: dark(TermColor::Yellow),
                underline: true,
                ..address.style
            },
        ),
    )
}

/// The parent as it is once a tag has opened its element, before the
/// element's own box is added: a list item has got its bullet, an image its
/// caption.
pub open spec fn prepared(parent: BoxModel, tag: TagModel) -> BoxModel {
    match tag {
        TagModel::Item => parent.with_child(bullet_box(parent.style)),
        TagModel::Image(dest, title) => captioned(parent, dest, title),
        _ => parent,
    }
}

/// Whether a tag opens an element of its own. A table and its parts open
/// none, and a footnote definition opens none while another one is open.
pub open spec fn opens(state: BuildState, tag: TagModel) -> bool {
    match tag {
        TagModel::Table => false,
        TagModel::FootnoteDefinition(_) => state.footnotes is Some,
        _ => true,
    }
}

/// The state in which the element of a tag is built: a link has noted its
/// destination, and the footnotes are away while a definition fills them.
pub open spec fn entered(state: BuildState, tag: TagModel) -> BuildState {
    match tag {
        TagModel::Link(dest) => BuildState { links: with_link(state.links, dest), ..state },
        TagModel::FootnoteDefinition(_) => BuildState { footnotes: None, ..state },
        _ => state,
    }
}

/// The box that the events of an element are built into.
pub open spec fn opened(state: BuildState, parent: BoxModel, tag: TagModel) -> BoxModel {
    let base = prepared(parent, tag);
    match tag {
        TagModel::Paragraph | TagModel::BlockQuote | TagModel::Item => base.new_child(
            KindModel::Block,
        ),
        TagModel::Heading(level) => heading_box(level, base.style),
        TagModel::CodeBlock(_) => {
            let block = base.new_child(KindModel::Block);
            block.styled(
                DomStyle {
                    fg: dark(TermColor::White),
                    bg: dark(TermColor::Black),
                    ..block.style
                },
            )
        },
        TagModel::List(start) => base.new_child(KindModel::List(list_start(start))),
        TagModel::FootnoteDefinition(name) => {
            let notes = state.footnotes->0;
            let text = notes.new_text(name);
            notes.with_inline(
                text.styled(
                    DomStyle { fg: dark(TermColor::Green), underline: true, ..text.style },
                ),
            )
        },
        _ => {
            let group = base.new_inline();
            group.styled(group_style(tag, group.style))
        },
    }
}

/// The box of an element as it is once the element has ended.
pub open spec fn finished(tag: TagModel, child: BoxModel) -> BoxModel {
    let border = child.size.border;
    match tag {
        TagModel::Paragraph | TagModel::List(_) => child.edged(
            Edges { bottom: one_more(border.bottom), ..border },
        ),
        TagModel::BlockQuote => child.edged(Edges { left: one_more(border.left), ..border }).styled(
            DomStyle { border_type: BorderType::Thin, fg: dark(TermColor::Cyan), ..child.style },
        ),
        _ => child,
    }
}

/// The parent once an element has ended whose box has become `child`.
pub open spec fn closed(parent: BoxModel, tag: TagModel, child: BoxModel) -> BoxModel {
    let base = prepared(parent, tag);
    match tag {
        TagModel::Paragraph | TagModel::Heading(_) | TagModel::List(_) | TagModel::Item => base.with_child(
            finished(tag, child),
        ),
        TagModel::BlockQuote | TagModel::CodeBlock(_) => base.with_child(
            finished(tag, child),
        ).with_blank_line(),
        TagModel::FootnoteDefinition(_) => parent,
        _ => base.with_inline(child),
    }
}

/// The state once an element has ended: a footnote definition puts the
/// footnotes back, with what it has added.
pub open spec fn left(after: BuildState, tag: TagModel, child: BoxModel) -> BuildState {
    match tag {
        TagModel::FootnoteDefinition(_) => BuildState { footnotes: Some(child), ..after },
        _ => after,
    }
}

/// Whether an `End` event of this tag ends the element that is open: all do
/// but those of a table.
pub open spec fn ends(tag: TagModel) -> bool {
    !(tag is Table)
}

/// The element that was open once an `End` event of this tag has ended it:
/// the end of a list gives the bullets their labels.
pub open spec fn ended(parent: BoxModel, tag: TagModel) -> BoxModel {
    match tag {
        TagModel::List(start) => labelled(parent, start),
        _ => parent,
    }
}

/// The parent with a run of raw HTML appended.
pub open spec fn with_html(parent: BoxModel, html: Seq<char>) -> BoxModel {
    let text = parent.new_text(html);
    parent.with_inline(text.styled(DomStyle { fg: light(TermColor::Red), ..text.style }))
}

/// The parent with a reference to a footnote appended.
pub open spec fn with_reference(parent: BoxModel, name: Seq<char>) -> BoxModel {
    let text = parent.new_text(name);
    parent.with_inline(
        text.styled(DomStyle { fg: dark(TermColor::Green), underline: true, ..text.style }),
    )
}

/// The parent with what an event adds that neither opens nor ends an
/// element.
pub open spec fn taken(parent: BoxModel, event: EventModel) -> BoxModel {
    match event {
        EventModel::Text(text) => with_chunk(parent, text),
        EventModel::Code(text) => with_chunk(parent, text),
        EventModel::Highlighted(spans) => with_spans(parent, spans),
        EventModel::Rule => parent.with_child(rule_box(parent.style)),
        EventModel::Html(html) => with_html(parent, html),
        EventModel::SoftBreak => parent.with_break(),
        EventModel::HardBreak => parent.with_break(),
        EventModel::FootnoteReference(name) => with_reference(parent, name),
        EventModel::TaskListMarker(checked) => parent.with_inline(
            parent.new_text(marker_text(checked)),
        ),
        _ => parent,
    }
}

/// What the events from `state.pos` on, up to the end of the element that is
/// open, make of `parent`: the parent with all they add to it, and the state
/// behind the event that ended the element.
///
/// A `Start` event opens an element, whose events are built into a box of
/// its own. An `End` event ends the element that is open, whatever its tag,
/// unless it is one of a table. Where the events run out, the element ends with them. The build
/// goes on behind an inner element only where that has taken events, which
/// it always has.
#[verifier::opaque]
pub open spec fn built(events: Seq<EventModel>, state: BuildState, parent: BoxModel) -> (
    BuildState,
    BoxModel,
)
    decreases events.len() - state.pos,
{
    if state.pos < 0 || state.pos >= events.len() {
        (state, parent)
    } else {
        let next = BuildState { pos: state.pos + 1, ..state };
        match events[state.pos] {
            EventModel::Start(tag) => if opens(next, tag) {
                let (after, child) = built(
                    events,
                    entered(next, tag),
                    opened(next, parent, tag),
                );
                if state.pos < after.pos <= events.len() {
                    built(events, left(after, tag, child), closed(parent, tag, child))
                } else {
                    (left(after, tag, child), closed(parent, tag, child))
                }
            } else {
                built(events, next, parent)
            },
            EventModel::End(tag) => if ends(tag) {
                (next, ended(parent, tag))
            } else {
                built(events, next, parent)
            },
            event => built(events, next, taken(parent, event)),
        }
    }
}

/// What an element makes of its parent: the element's box is opened, the
/// events up to its end are built into it, and it is closed.
pub open spec fn element(
    events: Seq<EventModel>,
    state: BuildState,
    parent: BoxModel,
    tag: TagModel,
) -> (BuildState, BoxModel) {
    let (after, child) = built(events, entered(state, tag), opened(state, parent, tag));
    (left(after, tag, child), closed(parent, tag, child))
}

/// The collection of links with one more destination noted on a line of its
/// own.
pub open spec fn with_link(links: Option<BoxModel>, dest: Seq<char>) -> Option<BoxModel> {
    match links {
        None => None,
        Some(list) => {
            let text = list.new_text(dest);
            Some(
                list.with_inline(
                    text.styled(
                        DomStyle { fg: dark(TermColor::Blue), underline: true, ..text.style },
                    ),
                ).with_break(),
            )
        },
    }
}

/// The box tree of a document of the given events for a terminal of the
/// given width: a root block of that width with what the events build, then
/// the links, then the footnotes.
pub open spec fn document(events: Seq<EventModel>, width: XY) -> BoxModel {
    let empty = BoxModel::fresh(KindModel::Block, DomStyle::initial());
    let root = BoxModel {
        size: BoxSize {
            content: crate::dombox::Rect { w: width, ..BoxSize::empty().content },
            ..BoxSize::empty()
        },
        ..empty
    };
    let (after, body) = built(
        events,
        BuildState { pos: 0, links: Some(empty), footnotes: Some(empty) },
        root,
    );
    let linked = match after.links {
        Some(links) => body.with_child(links),
        None => body,
    };
    match after.footnotes {
        Some(notes) => linked.with_child(notes),
        None => linked,
    }
}

/// A build that has run out of events changes nothing.
pub proof fn lemma_built_done(events: Seq<EventModel>, state: BuildState, parent: BoxModel)
    requires
        state.pos >= events.len(),
    ensures
        built(events, state, parent) == (state, parent),
{
    reveal_with_fuel(built, 1);
}

/// The first step of a build: what the next event does, and the rest of the
/// build from there unless the event ended the element.
pub proof fn lemma_built_unfold(events: Seq<EventModel>, state: BuildState, parent: BoxModel)
    requires
        0 <= state.pos < events.len(),
    ensures
        ({
            let next = BuildState { pos: state.pos + 1, ..state };
            let whole = built(events, state, parent);
            match events[state.pos] {
                EventModel::Start(tag) => if opens(next, tag) {
                    let (after, grown) = element(events, next, parent, tag);
                    state.pos < after.pos <= events.len() ==> whole == built(events, after, grown)
                } else {
                    whole == built(events, next, parent)
                },
                EventModel::End(tag) => if ends(tag) {
                    whole == (next, ended(parent, tag))
                } else {
                    whole == built(events, next, parent)
                },
                event => whole == built(events, next, taken(parent, event)),
            }
        }),
{
    reveal_with_fuel(built, 1);
}

/// A build never goes back in the events: it ends at or behind the place
/// where it began, and within the events. So an inner element that has been
/// opened by an event always ends behind that event, and the build of the
/// element around it goes on from there.
pub proof fn lemma_built_advances(events: Seq<EventModel>, state: BuildState, parent: BoxModel)
    requires
        0 <= state.pos <= events.len(),
    ensures
        state.pos <= built(events, state, parent).0.pos <= events.len(),
    decreases events.len() - state.pos,
{
    reveal_with_fuel(built, 1);
    if state.pos < events.len() {
        let next = BuildState { pos: state.pos + 1, ..state };
        match events[state.pos] {
            EventModel::Start(tag) => {
                if opens(next, tag) {
                    lemma_built_advances(events, entered(next, tag), opened(next, parent, tag));
                    let (after, child) = built(
                        events,
                        entered(next, tag),
                        opened(next, parent, tag),
                    );
                    lemma_built_advances(
                        events,
                        left(after, tag, child),
                        closed(parent, tag, child),
                    );
                } else {
                    lemma_built_advances(events, next, parent);
                }
            },
            EventModel::End(tag) => {
                if !ends(tag) {
                    lemma_built_advances(events, next, parent);
                }
            },
            event => {
                lemma_built_advances(events, next, taken(parent, event));
            },
        }
    }
}

/// When a list ends, the bullet that has `k` bullets before it in the list
/// gets the label `n + k` in decimal where the list is ordered and starts
/// at `n`, and the glyph `*` where the list is not ordered. So the bullets
/// of an ordered list are numbered `n`, `n + 1`, and so on, in the order of
/// the document. Nothing else in the list changes.
pub proof fn lemma_list_numbering(list: BoxModel, start: Option<u64>, i: int)
    requires
        0 <= i < list.children.len(),
    ensures
        ended(list, TagModel::List(start)).children.len() == list.children.len(),
        list.children[i].kind is ListBullet ==> ended(list, TagModel::List(start)).children[i]
            == list.children[i].with_inline(
            list.children[i].new_text(
                match start {
                    Some(n) => decimal(n as nat + bullet_rank(list.children, i)),
                    None => seq!['*'],
                },
            ),
        ),
        !(list.children[i].kind is ListBullet) ==> ended(list, TagModel::List(start)).children[i]
            == list.children[i],
        bullet_rank(list.children, 0) == 0,
        bullet_rank(list.children, i + 1) == bullet_rank(list.children, i) + if list.children[i].kind is ListBullet {
            1nat
        } else {
            0nat
        },
{
}

/// The value of a side collection.
pub open spec fn side_model(side: Option<DomBox>) -> Option<BoxModel> {
    match side {
        Some(b) => Some(b@),
        None => None,
    }
}

/// A build in progress: the events of a document, the place of the next one,
/// and the collections of links and of footnotes.
pub struct Ctx<'a> {
    pub events: &'a Vec<Event>,
    pub pos: usize,
    pub links: Option<DomBox>,
    pub footnotes: Option<DomBox>,
}

impl<'a> View for Ctx<'a> {
    type V = BuildState;

    open spec fn view(&self) -> BuildState {
        BuildState {
            pos: self.pos as int,
            links: side_model(self.links),
            footnotes: side_model(self.footnotes),
        }
    }
}

/// Appends a run of text: the text without the newline that ends it, then a
/// forced end of line if there was one.
pub fn add_chunk(parent: &mut DomBox, text: String)
    ensures
        final(parent)@ == with_chunk(old(parent)@, text@),
{
    broadcast use group_models;

    let mut text = text;
    let n = text.as_str().unicode_len();
    let add_break = n > 0 && text.as_str().get_char(n - 1) == '\n';
    if add_break {
        let _ = split_at_in_place(&mut text, n - 1);
    }
    let _ = parent.add_text(text);
    if add_break {
        let _ = parent.add_break();
    }
}

/// Appends one highlighted span: its text in its colour, with its font
/// attributes on top of the inherited ones.
pub fn add_span(parent: &mut DomBox, span: &Span)
    ensures
        final(parent)@ == with_span(old(parent)@, span@),
{
    broadcast use group_models;

    let mut text = span.text.clone();
    let n = text.as_str().unicode_len();
    let add_break = n > 0 && text.as_str().get_char(n - 1) == '\n';
    if add_break {
        let _ = split_at_in_place(&mut text, n - 1);
    }
    {
        let child = parent.add_text(text);
        child.style.fg = DomColor::from_color_lo(span.red, span.green, span.blue);
        child.style.bold = child.style.bold || span.bold;
        child.style.italic = child.style.italic || span.italic;
        child.style.underline = child.style.underline || span.underline;
    }
    if add_break {
        let _ = parent.add_break();
    }
}

/// Appends a block that holds one empty line.
pub fn add_blank_line(parent: &mut DomBox)
    ensures
        final(parent)@ == old(parent)@.with_blank_line(),
{
    broadcast use group_models;

    let newline = parent.add_block();
    let _ = newline.add_text(String::new());
}

/// Notes the title and the destination of an image.
pub fn add_caption(parent: &mut DomBox, dest: &String, title: &String)
    ensures
        final(parent)@ == captioned(old(parent)@, dest@, title@),
{
    broadcast use group_models;

    {
        let child = parent.add_text(title.clone());
        child.style.fg = DomColor::from_light(TermColor::Black);
        child.style.bg = DomColor::from_dark(TermColor::Yellow);
    }
    {
        let child = parent.add_text(dest.clone());
        child.style.fg = DomColor::from_dark(TermColor::Blue);
        child.style.bg = DomColor::from_dark(TermColor::Yellow);
        child.style.underline = true;
    }
}

/// Appends what an event adds that neither opens nor ends an element.
pub fn take(parent: &mut DomBox, event: &Event)
    ensures
        final(parent)@ == taken(old(parent)@, event@),
{
    broadcast use group_models;

    match event {
        Event::Text(text) => {
            add_chunk(parent, text.clone());
        },
        Event::Code(text) => {
            add_chunk(parent, text.clone());
        },
        Event::Highlighted(spans) => {
            add_spans(parent, spans);
        },
        Event::Rule => {
            let child = parent.add_block();
            child.style.extend = true;
            child.size.border.bottom = child.size.border.bottom + XY::new(1);
            child.style.border_type = BorderType::Thin;
            child.style.fg = DomColor::from_dark(TermColor::Yellow);
        },
        Event::Html(html) => {
            let child = parent.add_text(html.clone());
            child.style.fg = DomColor::from_light(TermColor::Red);
        },
        Event::SoftBreak => {
            let _ = parent.add_break();
        },
        Event::HardBreak => {
            let _ = parent.add_break();
        },
        Event::FootnoteReference(name) => {
            let child = parent.add_text(name.clone());
            child.style.fg = DomColor::from_dark(TermColor::Green);
            child.style.underline = true;
        },
        Event::TaskListMarker(checked) => {
            proof {
                reveal_strlit("[X]");
                reveal_strlit("[ ]");
            }
            let marker = if *checked {
                "[X]"
            } else {
                "[ ]"
            };
            let _ = parent.add_text(marker.to_owned());
        },
        _ => {},
    }
}

/// Appends highlighted spans, in order.
pub fn add_spans(parent: &mut DomBox, spans: &Vec<Span>)
    ensures
        final(parent)@ == with_spans(old(parent)@, span_models(spans@)),
{
    let ghost all = span_models(spans@);
    let mut i: usize = 0;
    while i < spans.len()
        invariant
            i <= spans.len(),
            all == span_models(spans@),
            parent@ == with_spans(old(parent)@, all.take(i as int)),
        decreases spans.len() - i,
    {
        add_span(parent, &spans[i]);
        proof {
            assert(all.take(i + 1).drop_last() =~= all.take(i as int));
            assert(all.take(i + 1).last() == spans@[i as int]@);
        }
        i = i + 1;
    }
    proof {
        assert(all.take(i as int) =~= all);
    }
}

/// Gives each bullet of a list that has ended its label: the number of its
/// item, counted from `start`, or `*` where the list is not ordered.
pub fn label_bullets(list: &mut DomBox, start: Option<u64>)
    ensures
        final(list)@ == labelled(old(list)@, start),
{
    broadcast use group_models;

    let ghost before = list@.children;
    let mut rank: usize = 0;
    let mut i: usize = 0;
    while i < list.children.len()
        invariant
            i <= list.children.len(),
            rank <= i,
            list.kind == old(list).kind,
            list.size == old(list).size,
            list.style == old(list).style,
            list.children@.len() == old(list).children@.len(),
            before == old(list)@.children,
            rank == bullet_rank(before, i as int),
            forall|j: int| 0 <= j < i ==> (#[trigger] list.children@[j])@ == labelled_child(before, start, j),
            forall|j: int|
                i <= j < list.children@.len() ==> (#[trigger] list.children@[j])@ == before[j],
        decreases list.children.len() - i,
    {
        let is_bullet = match list.children[i].kind {
            BoxKind::ListBullet => true,
            _ => false,
        };
        if is_bullet {
            let text = match start {
                None => {
                    proof {
                        reveal_strlit("*");
                    }
                    let glyph = "*".to_owned();
                    assert(glyph@ =~= seq!['*']);
                    glyph
                },
                Some(n) => decimal_string(n as u128 + rank as u128),
            };
            let _ = list.children[i].add_text(text);
            rank = rank + 1;
        }
        i = i + 1;
    }
    assert(list@.children =~= labelled(old(list)@, start).children);
}

impl<'a> Ctx<'a> {
    /// A build of the given events that has not begun.
    pub fn new(events: &'a Vec<Event>) -> (ctx: Ctx<'a>)
        ensures
            ctx.events == events,
            ctx@ == (BuildState { pos: 0, links: None, footnotes: None }),
    {
        Ctx { events, pos: 0, links: None, footnotes: None }
    }

    /// Builds the box tree of the document for a terminal of the given width.
    pub fn build(&mut self, width: XY) -> (root: DomBox)
        ensures
            root@ == document(event_models(old(self).events@), width),
            final(self).events == old(self).events,
    {
        broadcast use group_models;

        self.pos = 0;
        self.links = Some(DomBox::new_block());
        self.footnotes = Some(DomBox::new_block());
        let mut root = DomBox::new_root(width);
        self.build_dom(&mut root);
        if let Some(links) = self.links.take() {
            root.swallow(links);
        }
        if let Some(footnotes) = self.footnotes.take() {
            root.swallow(footnotes);
        }
        root
    }

    /// Notes the destination of a link in the collection of links.
    fn note_link(&mut self, dest: String)
        ensures
            final(self).events == old(self).events,
            final(self)@ == (BuildState { links: with_link(old(self)@.links, dest@), ..old(self)@ }),
    {
        broadcast use group_models;

        if let Some(mut links) = self.links.take() {
            {
                let child = links.add_text(dest);
                child.style.fg = DomColor::from_dark(TermColor::Blue);
                child.style.underline = true;
            }
            {
                let _ = links.add_break();
            }
            self.links = Some(links);
        }
    }

    /// Builds into `parent` what the events from the next one on add to it,
    /// up to the end of the element that is open.
    pub fn build_dom(&mut self, parent: &mut DomBox)
        requires
            old(self).pos <= old(self).events@.len(),
        ensures
            final(self).events == old(self).events,
            old(self).pos <= final(self).pos <= final(self).events@.len(),
            (final(self)@, final(parent)@) == built(
                event_models(old(self).events@),
                old(self)@,
                old(parent)@,
            ),
        decreases old(self).events@.len() - old(self).pos, 0int,
    {
        let events = self.events;
        let ghost all = event_models(events@);
        let ghost goal = built(all, self@, parent@);
        while self.pos < events.len()
            invariant
                self.events == events,
                events == old(self).events,
                all == event_models(events@),
                old(self).pos <= self.pos <= events@.len(),
                goal == built(all, old(self)@, old(parent)@),
                built(all, self@, parent@) == goal,
            decreases events@.len() - self.pos,
        {
            proof {
                lemma_built_unfold(all, self@, parent@);
            }
            let i = self.pos;
            self.pos = i + 1;
            match &events[i] {
                Event::Start(tag) => {
                    self.start(tag, parent);
                },
                Event::End(tag) => {
                    match tag {
                        Tag::Table => {},
                        Tag::List(start) => {
                            label_bullets(parent, *start);
                            return ;
                        },
                        _ => {
                            return ;
                        },
                    }
                },
                event => {
                    take(parent, event);
                },
            }
        }
        proof {
            lemma_built_done(all, self@, parent@);
        }
    }

    /// Builds into `parent` the element that `tag` opens. The `Start` event
    /// has been taken; the events up to the end of the element follow.
    fn start(&mut self, tag: &Tag, parent: &mut DomBox)
        requires
            old(self).pos <= old(self).events@.len(),
        ensures
            final(self).events == old(self).events,
            old(self).pos <= final(self).pos <= final(self).events@.len(),
            (final(self)@, final(parent)@) == if opens(old(self)@, tag@) {
                element(event_models(old(self).events@), old(self)@, old(parent)@, tag@)
            } else {
                (old(self)@, old(parent)@)
            },
        decreases old(self).events@.len() - old(self).pos, 2int,
    {
        match tag {
            Tag::Paragraph => self.start_paragraph(parent),
            Tag::Heading(level) => self.start_heading(*level, parent),
            Tag::Table => {},
            Tag::BlockQuote => self.start_quote(parent),
            Tag::CodeBlock(_) => self.start_code(tag, parent),
            Tag::List(start) => self.start_list(*start, parent),
            Tag::Item => self.start_item(parent),
            Tag::Emphasis => self.start_emphasis(parent),
            Tag::Strong => self.start_strong(parent),
            Tag::Strikethrough => self.start_strikethrough(parent),
            Tag::Link(dest) => self.start_link(dest, parent),
            Tag::Image(dest, title) => self.start_image(dest, title, parent),
            Tag::FootnoteDefinition(name) => self.start_footnote(name, parent),
        }
    }

    /// Builds a paragraph: a block, with an empty row below it.
    fn start_paragraph(&mut self, parent: &mut DomBox)
        requires
            old(self).pos <= old(self).events@.len(),
        ensures
            final(self).events == old(self).events,
            old(self).pos <= final(self).pos <= final(self).events@.len(),
            (final(self)@, final(parent)@) == element(
                event_models(old(self).events@),
                old(self)@,
                old(parent)@,
                TagModel::Paragraph,
            ),
        decreases old(self).events@.len() - old(self).pos, 1int,
    {
        broadcast use group_models;

        let child = parent.add_block();
        self.build_dom(child);
        child.size.border.bottom = child.size.border.bottom + XY::new(1);
    }

    /// Builds a heading of the given level, with its borders and colour.
    fn start_heading(&mut self, level: u8, parent: &mut DomBox)
        requires
            old(self).pos <= old(self).events@.len(),
        ensures
            final(self).events == old(self).events,
            old(self).pos <= final(self).pos <= final(self).events@.len(),
            (final(self)@, final(parent)@) == element(
                event_models(old(self).events@),
                old(self)@,
                old(parent)@,
                TagModel::Heading(level),
            ),
        decreases old(self).events@.len() - old(self).pos, 1int,
    {
        broadcast use group_models;

        let child = parent.add_header(level);
        child.size.border.bottom = child.size.border.bottom + XY::new(1);
        if level == 1 {
            child.size.border.top = child.size.border.top + XY::new(1);
            child.size.border.left = child.size.border.left + XY::new(1);
            child.size.border.right = child.size.border.right + XY::new(1);
            child.style.border_type = BorderType::Thin;
        } else if level == 2 {
            child.style.border_type = BorderType::Bold;
        } else if level == 3 {
            child.style.border_type = BorderType::Double;
        } else if level == 4 {
            child.style.border_type = BorderType::Thin;
        } else if level == 5 {
            child.style.border_type = BorderType::Dash;
        }
        child.style.fg = DomColor::from_dark(TermColor::Purple);
        self.build_dom(child);
    }

    /// Builds a block quotation: a block with a line along its left side,
    /// and an empty line behind it.
    fn start_quote(&mut self, parent: &mut DomBox)
        requires
            old(self).pos <= old(self).events@.len(),
        ensures
            final(self).events == old(self).events,
            old(self).pos <= final(self).pos <= final(self).events@.len(),
            (final(self)@, final(parent)@) == element(
                event_models(old(self).events@),
                old(self)@,
                old(parent)@,
                TagModel::BlockQuote,
            ),
        decreases old(self).events@.len() - old(self).pos, 1int,
    {
        broadcast use group_models;

        {
            let child = parent.add_block();
            self.build_dom(child);
            child.size.border.left = child.size.border.left + XY::new(1);
            child.style.border_type = BorderType::Thin;
            child.style.fg = DomColor::from_dark(TermColor::Cyan);
        }
        add_blank_line(parent);
    }

    /// Builds a code block: a block in its own colours, and an empty line
    /// behind it.
    fn start_code(&mut self, tag: &Tag, parent: &mut DomBox)
        requires
            old(self).pos <= old(self).events@.len(),
            tag is CodeBlock,
        ensures
            final(self).events == old(self).events,
            old(self).pos <= final(self).pos <= final(self).events@.len(),
            (final(self)@, final(parent)@) == element(
                event_models(old(self).events@),
                old(self)@,
                old(parent)@,
                tag@,
            ),
        decreases old(self).events@.len() - old(self).pos, 1int,
    {
        broadcast use group_models;

        {
            let child = parent.add_block();
            child.style.fg = DomColor::from_dark(TermColor::White);
            child.style.bg = DomColor::from_dark(TermColor::Black);
            self.build_dom(child);
        }
        add_blank_line(parent);
    }

    /// Builds a list, with an empty row below it.
    fn start_list(&mut self, start: Option<u64>, parent: &mut DomBox)
        requires
            old(self).pos <= old(self).events@.len(),
        ensures
            final(self).events == old(self).events,
            old(self).pos <= final(self).pos <= final(self).events@.len(),
            (final(self)@, final(parent)@) == element(
                event_models(old(self).events@),
                old(self)@,
                old(parent)@,
                TagModel::List(start),
            ),
        decreases old(self).events@.len() - old(self).pos, 1int,
    {
        broadcast use group_models;

        let first = match start {
            None => None,
            Some(n) => Some(
                if n > u16::MAX as u64 {
                    XY::new(u16::MAX)
                } else {
                    XY::new(n as u16)
                },
            ),
        };
        let child = parent.add_list(first);
        self.build_dom(child);
        child.size.border.bottom = child.size.border.bottom + XY::new(1);
    }

    /// Builds a list item: a bullet, and beside it the block of the item.
    fn start_item(&mut self, parent: &mut DomBox)
        requires
            old(self).pos <= old(self).events@.len(),
        ensures
            final(self).events == old(self).events,
            old(self).pos <= final(self).pos <= final(self).events@.len(),
            (final(self)@, final(parent)@) == element(
                event_models(old(self).events@),
                old(self)@,
                old(parent)@,
                TagModel::Item,
            ),
        decreases old(self).events@.len() - old(self).pos, 1int,
    {
        broadcast use group_models;

        {
            let bullet = parent.add_bullet();
            bullet.style.fg = DomColor::from_light(TermColor::Yellow);
            bullet.size.border.right = bullet.size.border.right + XY::new(1);
        }
        let child = parent.add_block();
        self.build_dom(child);
    }

    /// Builds emphasised inline content.
    fn start_emphasis(&mut self, parent: &mut DomBox)
        requires
            old(self).pos <= old(self).events@.len(),
        ensures
            final(self).events == old(self).events,
            old(self).pos <= final(self).pos <= final(self).events@.len(),
            (final(self)@, final(parent)@) == element(
                event_models(old(self).events@),
                old(self)@,
                old(parent)@,
                TagModel::Emphasis,
            ),
        decreases old(self).events@.len() - old(self).pos, 1int,
    {
        broadcast use group_models;

        let child = parent.add_inline();
        child.style.italic = true;
        self.build_dom(child);
    }

    /// Builds strongly emphasised inline content.
    fn start_strong(&mut self, parent: &mut DomBox)
        requires
            old(self).pos <= old(self).events@.len(),
        ensures
            final(self).events == old(self).events,
            old(self).pos <= final(self).pos <= final(self).events@.len(),
            (final(self)@, final(parent)@) == element(
                event_models(old(self).events@),
                old(self)@,
                old(parent)@,
                TagModel::Strong,
            ),
        decreases old(self).events@.len() - old(self).pos, 1int,
    {
        broadcast use group_models;

        let child = parent.add_inline();
        child.style.bold = true;
        self.build_dom(child);
    }

    /// Builds struck-through inline content.
    fn start_strikethrough(&mut self, parent: &mut DomBox)
        requires
            old(self).pos <= old(self).events@.len(),
        ensures
            final(self).events == old(self).events,
            old(self).pos <= final(self).pos <= final(self).events@.len(),
            (final(self)@, final(parent)@) == element(
                event_models(old(self).events@),
                old(self)@,
                old(parent)@,
                TagModel::Strikethrough,
            ),
        decreases old(self).events@.len() - old(self).pos, 1int,
    {
        broadcast use group_models;

        let child = parent.add_inline();
        child.style.strikethrough = true;
        self.build_dom(child);
    }

    /// Builds a link: its destination is noted, its content underlined.
    fn start_link(&mut self, dest: &String, parent: &mut DomBox)
        requires
            old(self).pos <= old(self).events@.len(),
        ensures
            final(self).events == old(self).events,
            old(self).pos <= final(self).pos <= final(self).events@.len(),
            (final(self)@, final(parent)@) == element(
                event_models(old(self).events@),
                old(self)@,
                old(parent)@,
                TagModel::Link(dest@),
            ),
        decreases old(self).events@.len() - old(self).pos, 1int,
    {
        broadcast use group_models;

        self.note_link(dest.clone());
        let child = parent.add_inline();
        child.style.underline = true;
        child.style.fg = DomColor::from_dark(TermColor::Blue);
        self.build_dom(child);
    }

    /// Builds an image: its title and destination, and its description in
    /// italics.
    fn start_image(&mut self, dest: &String, title: &String, parent: &mut DomBox)
        requires
            old(self).pos <= old(self).events@.len(),
        ensures
            final(self).events == old(self).events,
            old(self).pos <= final(self).pos <= final(self).events@.len(),
            (final(self)@, final(parent)@) == element(
                event_models(old(self).events@),
                old(self)@,
                old(parent)@,
                TagModel::Image(dest@, title@),
            ),
        decreases old(self).events@.len() - old(self).pos, 1int,
    {
        broadcast use group_models;

        add_caption(parent, dest, title);
        let child = parent.add_inline();
        child.style.italic = true;
        self.build_dom(child);
    }

    /// Builds a footnote definition into the collection of footnotes, unless
    /// another one is being built.
    fn start_footnote(&mut self, name: &String, parent: &mut DomBox)
        requires
            old(self).pos <= old(self).events@.len(),
        ensures
            final(self).events == old(self).events,
            old(self).pos <= final(self).pos <= final(self).events@.len(),
            (final(self)@, final(parent)@) == if opens(
                old(self)@,
                TagModel::FootnoteDefinition(name@),
            ) {
                element(
                    event_models(old(self).events@),
                    old(self)@,
                    old(parent)@,
                    TagModel::FootnoteDefinition(name@),
                )
            } else {
                (old(self)@, old(parent)@)
            },
        decreases old(self).events@.len() - old(self).pos, 1int,
    {
        broadcast use group_models;

        if let Some(mut footnotes) = self.footnotes.take() {
            {
                let child = footnotes.add_text(name.clone());
                child.style.fg = DomColor::from_dark(TermColor::Green);
                child.style.underline = true;
            }
            self.build_dom(&mut footnotes);
            self.footnotes = Some(footnotes);
        }
    }
}

/// What a document of the given events is rendered as for a terminal of the
/// given width: the text of its laid-out tree, or why the tree cannot be
/// laid out.
pub open spec fn rendering(events: Seq<EventModel>, width: XY, kind: OutputKind) -> Result<
    Seq<char>,
    LayoutError,
> {
    match layout_of(document(events, width)) {
        Ok(tree) => Ok(written(page(tree), kind)),
        Err(e) => Err(e),
    }
}

/// Whether a result is what the events are rendered as.
pub open spec fn renders(
    res: Result<String, LayoutError>,
    events: Seq<EventModel>,
    width: XY,
    kind: OutputKind,
) -> bool {
    match rendering(events, width, kind) {
        Ok(text) => res is Ok && res->Ok_0@ == text,
        Err(e) => res == Err::<String, LayoutError>(e),
    }
}

/// Renders a document of the given events for a terminal of the given
/// width: builds its tree, lays it out, and writes out its rows.
pub fn render_events(events: &Vec<Event>, width: XY, kind: OutputKind) -> (res: Result<
    String,
    LayoutError,
>)
    ensures
        renders(res, event_models(events@), width, kind),
{
    let mut ctx = Ctx::new(events);
    let mut root = ctx.build(width);
    match root.try_layout() {
        Ok(()) => Ok(root.render(kind)),
        Err(e) => Err(e),
    }
}

/// Renders a document of the given events for a terminal of the given
/// width, with the code of its fenced code blocks highlighted.
///
/// What the highlighter makes of a run of code is not known here. Whatever
/// it is, the result is the rendering of events that stand for the given
/// ones.
pub fn push_ansi(events: Vec<Event>, width: XY, kind: OutputKind) -> (res: Result<
    String,
    LayoutError,
>)
    ensures
        exists|shown: Seq<EventModel>|
            highlighted(shown, event_models(events@)) && #[trigger] renders(
                res,
                shown,
                width,
                kind,
            ),
{
    let mut events = events;
    let highlighter = Highlighter::new();
    highlighter.highlight(&mut events);
    let res = render_events(&events, width, kind);
    assert(renders(res, event_models(events@), width, kind));
    res
}

/// Renders a Markdown text for a terminal of the given width, with the code
/// of its fenced code blocks highlighted.
///
/// The text is read as the events that the parser makes of it. What the
/// highlighter makes of a run of code is not known here. Whatever it is, the
/// result is the rendering of events that stand for those of the text.
pub fn render_ansi(text: &str, width: u16, kind: OutputKind) -> (res: Result<String, LayoutError>)
    ensures
        exists|shown: Seq<EventModel>|
            highlighted(shown, markdown_events(text@)) && #[trigger] renders(
                res,
                shown,
                XY(width),
                kind,
            ),
{
    push_ansi(parse(text), XY::new(width), kind)
}

} // verus!
