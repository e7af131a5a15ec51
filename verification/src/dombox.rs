//! The box tree: what a document is built into, laid out as and rendered from.

pub use crate::style::{BorderType, DomColor, DomStyle, TermColor, TermStyle, TextAlign};
pub use crate::text::split_at_in_place;
pub use crate::xy::XY;
use vstd::prelude::*;

verus! {

/// Coordinates and size of a rectangle.
#[derive(Debug, Copy, Clone, PartialEq, Eq, Structural)]
pub struct Rect {
    pub x: XY,
    pub y: XY,
    pub w: XY,
    pub h: XY,
}

impl Default for Rect {
    fn default() -> (r: Rect)
        ensures
            r == BoxSize::empty().content,
    {
        Rect { x: XY(0), y: XY(0), w: XY(0), h: XY(0) }
    }
}

/// Thicknesses of the four borders of a box.
#[derive(Debug, Copy, Clone, PartialEq, Eq, Structural)]
pub struct Edges {
    pub top: XY,
    pub bottom: XY,
    pub left: XY,
    pub right: XY,
}

impl Default for Edges {
    fn default() -> (e: Edges)
        ensures
            e == BoxSize::empty().border,
    {
        Edges { top: XY(0), bottom: XY(0), left: XY(0), right: XY(0) }
    }
}

/// A bounding box: the content rectangle and the borders around it.
#[derive(Debug, Copy, Clone, PartialEq, Eq, Structural)]
pub struct BoxSize {
    pub content: Rect,
    pub border: Edges,
}

impl BoxSize {
    /// The size of a box before layout: nothing, nowhere.
    pub open spec fn empty() -> BoxSize {
        BoxSize {
            content: Rect { x: XY(0), y: XY(0), w: XY(0), h: XY(0) },
            border: Edges { top: XY(0), bottom: XY(0), left: XY(0), right: XY(0) },
        }
    }

    /// The columns that the box takes with its borders.
    pub open spec fn outer_width(self) -> XY {
        self.content.w.plus(self.border.left).plus(self.border.right)
    }

    /// The rows that the box takes with its borders.
    pub open spec fn outer_height(self) -> XY {
        self.content.h.plus(self.border.top).plus(self.border.bottom)
    }

    /// The columns that the box takes with its borders.
    pub fn total_width(&self) -> (w: XY)
        ensures
            w == self.outer_width(),
    {
        self.content.w + self.border.left + self.border.right
    }

    /// The rows that the box takes with its borders.
    pub fn total_height(&self) -> (h: XY)
        ensures
            h == self.outer_height(),
    {
        self.content.h + self.border.top + self.border.bottom
    }
}

impl Default for BoxSize {
    fn default() -> (s: BoxSize)
        ensures
            s == BoxSize::empty(),
    {
        BoxSize {
            content: Rect { x: XY(0), y: XY(0), w: XY(0), h: XY(0) },
            border: Edges { top: XY(0), bottom: XY(0), left: XY(0), right: XY(0) },
        }
    }
}

/// Which type of box a layout element is.
#[derive(Debug, Clone)]
pub enum BoxKind {
    /// Some text (an inline element)
    Text(String),
    /// A forced end of line
    Break,
    /// A rectangular container for inline elements: one line
    InlineContainer,
    /// An inline element
    Inline,
    /// A simple rectangular block
    Block,
    /// A title with a specific weight
    Header(u8),
    /// A list, with the start number if it is an ordered one
    List(Option<XY>),
    /// The marker of a list item
    ListBullet,
    /// The container for a table
    Table,
    /// A table column
    TableColumn,
    /// A table cell
    TableItem,
    /// An image
    Image,
}

/// The kind of a box as a value: the text is its sequence of characters.
#[verifier::ext_equal]
pub enum KindModel {
    Text(Seq<char>),
    Break,
    InlineContainer,
    Inline,
    Block,
    Header(u8),
    List(Option<XY>),
    ListBullet,
    Table,
    TableColumn,
    TableItem,
    Image,
}

impl View for BoxKind {
    type V = KindModel;

    open spec fn view(&self) -> KindModel {
        match *self {
            BoxKind::Text(s) => KindModel::Text(s@),
            BoxKind::Break => KindModel::Break,
            BoxKind::InlineContainer => KindModel::InlineContainer,
            BoxKind::Inline => KindModel::Inline,
            BoxKind::Block => KindModel::Block,
            BoxKind::Header(level) => KindModel::Header(level),
            BoxKind::List(start) => KindModel::List(start),
            BoxKind::ListBullet => KindModel::ListBullet,
            BoxKind::Table => KindModel::Table,
            BoxKind::TableColumn => KindModel::TableColumn,
            BoxKind::TableItem => KindModel::TableItem,
            BoxKind::Image => KindModel::Image,
        }
    }
}

impl BoxKind {
    /// A copy of this kind, text included.
    pub fn duplicate(&self) -> (k: BoxKind)
        ensures
            k@ == self@,
    {
        match self {
            BoxKind::Text(s) => BoxKind::Text(s.clone()),
            BoxKind::Break => BoxKind::Break,
            BoxKind::InlineContainer => BoxKind::InlineContainer,
            BoxKind::Inline => BoxKind::Inline,
            BoxKind::Block => BoxKind::Block,
            BoxKind::Header(level) => BoxKind::Header(*level),
            BoxKind::List(start) => BoxKind::List(*start),
            BoxKind::ListBullet => BoxKind::ListBullet,
            BoxKind::Table => BoxKind::Table,
            BoxKind::TableColumn => BoxKind::TableColumn,
            BoxKind::TableItem => BoxKind::TableItem,
            BoxKind::Image => BoxKind::Image,
        }
    }
}

/// The main layout element.
#[derive(Debug)]
pub struct DomBox {
    pub kind: BoxKind,
    pub size: BoxSize,
    pub style: DomStyle,
    pub children: Vec<DomBox>,
}

/// A box as a value: its kind, size and style, and its children in
/// rendering order.
#[verifier::ext_equal]
pub struct BoxModel {
    pub kind: KindModel,
    pub size: BoxSize,
    pub style: DomStyle,
    pub children: Seq<BoxModel>,
}

/// The value of a box.
pub open spec fn box_model(b: DomBox) -> BoxModel
    decreases b,
{
    BoxModel {
        kind: b.kind@,
        size: b.size,
        style: b.style,
        children: Seq::new(
            b.children@.len(),
            |i: int|
                if 0 <= i < b.children@.len() {
                    box_model(b.children@[i])
                } else {
                    arbitrary()
                },
        ),
    }
}

impl View for DomBox {
    type V = BoxModel;

    open spec fn view(&self) -> BoxModel {
        box_model(*self)
    }
}

/// The values of a sequence of boxes.
pub open spec fn models(boxes: Seq<DomBox>) -> Seq<BoxModel> {
    Seq::new(boxes.len(), |i: int| boxes[i]@)
}

/// The value of a box holds the values of its children.
pub broadcast proof fn lemma_view_children(b: DomBox)
    ensures
        #[trigger] b@.children == models(b.children@),
{
    assert(b@.children =~= models(b.children@));
}

/// The values of a sequence of boxes are the values of its boxes, one for
/// one.
pub broadcast proof fn lemma_models_index(boxes: Seq<DomBox>, i: int)
    requires
        0 <= i < boxes.len(),
    ensures
        #[trigger] models(boxes)[i] == boxes[i]@,
{
}

/// There are as many values as boxes.
pub broadcast proof fn lemma_models_len(boxes: Seq<DomBox>)
    ensures
        #[trigger] models(boxes).len() == boxes.len(),
{
}

/// Two values are the same box exactly when they are equal.
pub broadcast proof fn lemma_same_is_equal(a: BoxModel, b: BoxModel)
    ensures
        #[trigger] a.same(b) <==> a == b,
{
}

pub broadcast group group_models {
    lemma_same_is_equal,
    lemma_view_children,
    lemma_models_index,
    lemma_models_len,
}

impl BoxModel {
    /// Whether two values are the same box: the same kind, size and style,
    /// and the same children in the same order.
    pub open spec fn same(self, other: BoxModel) -> bool {
        &&& self.kind =~= other.kind
        &&& self.size == other.size
        &&& self.style == other.style
        &&& self.children =~= other.children
    }

    /// A box of the given kind and style that was not laid out and holds
    /// nothing.
    pub open spec fn fresh(kind: KindModel, style: DomStyle) -> BoxModel {
        BoxModel { kind, size: BoxSize::empty(), style, children: Seq::empty() }
    }

    /// This box with one more child at the end.
    pub open spec fn with_child(self, child: BoxModel) -> BoxModel {
        BoxModel { children: self.children.push(child), ..self }
    }

    /// This box with another box in the place of its last child.
    pub open spec fn with_last(self, child: BoxModel) -> BoxModel {
        BoxModel { children: self.children.update(self.children.len() - 1, child), ..self }
    }

    /// Whether inline content goes into this box itself.
    pub open spec fn holds_inline(self) -> bool {
        self.kind is Inline || self.kind is InlineContainer
    }

    /// Whether the last child is a line that inline content can go on with.
    pub open spec fn ends_with_line(self) -> bool {
        self.children.len() > 0 && self.children.last().kind is InlineContainer
    }

    /// The box that inline content added to this box goes into: the box
    /// itself where it holds inline content, else its last child where that
    /// is a line, else a new line.
    pub open spec fn inline_container(self) -> BoxModel {
        if self.holds_inline() {
            self
        } else if self.ends_with_line() {
            self.children.last()
        } else {
            BoxModel::fresh(KindModel::InlineContainer, self.style)
        }
    }

    /// This box once its inline container has become `line`.
    pub open spec fn with_inline_container(self, line: BoxModel) -> BoxModel {
        if self.holds_inline() {
            line
        } else if self.ends_with_line() {
            self.with_last(line)
        } else {
            self.with_child(line)
        }
    }

    /// This box with one more piece of inline content.
    pub open spec fn with_inline(self, child: BoxModel) -> BoxModel {
        self.with_inline_container(self.inline_container().with_child(child))
    }
}

impl DomBox {
    /// The root of a document that is `width` cells wide.
    pub fn new_root(width: XY) -> (root: DomBox)
        ensures
            root@.same((BoxModel {
                size: BoxSize {
                    content: Rect { w: width, ..BoxSize::empty().content },
                    ..BoxSize::empty()
                },
                ..BoxModel::fresh(KindModel::Block, DomStyle::initial())
            })),
    {
        let mut dombox = DomBox::new_block();
        dombox.size.content.w = width;
        dombox
    }

    /// An empty block in the initial style.
    pub fn new_block() -> (block: DomBox)
        ensures
            block@.same(BoxModel::fresh(KindModel::Block, DomStyle::initial())),
    {
        broadcast use group_models;

        let block = DomBox {
            size: BoxSize::default(),
            kind: BoxKind::Block,
            style: DomStyle::default(),
            children: Vec::new(),
        };
        block
    }

    /// A box of the given kind that takes its style from this one.
    fn new_child(&self, kind: BoxKind) -> (child: DomBox)
        ensures
            child@.same(BoxModel::fresh(kind@, self.style)),
    {
        broadcast use group_models;

        let child = DomBox {
            size: BoxSize::default(),
            kind,
            style: self.style,
            children: Vec::new(),
        };
        child
    }

    /// Appends `child` and hands it back for further changes.
    fn push_child(&mut self, child: DomBox) -> (r: &mut DomBox)
        ensures
            *r == child,
            final(self)@.same(old(self)@.with_child(final(r)@)),
    {
        broadcast use group_models;

        self.children.push(child);
        let n = self.children.len();
        &mut self.children[n - 1]
    }

    /// Takes an existing box as the last child.
    pub fn swallow(&mut self, existing: DomBox)
        ensures
            final(self)@.same(old(self)@.with_child(existing@)),
    {
        broadcast use group_models;

        self.children.push(existing);

    }

    /// The box that inline content added to this box goes into. A new line is
    /// appended where there is none to go on with.
    pub fn get_inline_container(&mut self) -> (line: &mut DomBox)
        ensures
            line@.same(old(self)@.inline_container()),
            final(self)@.same(old(self)@.with_inline_container(final(line)@)),
    {
        broadcast use group_models;

        match self.kind {
            BoxKind::Inline | BoxKind::InlineContainer => self,
            _ => {
                let n = self.children.len();
                let reuse = n > 0 && match self.children[n - 1].kind {
                    BoxKind::InlineContainer => true,
                    _ => false,
                };
                if reuse {
                    &mut self.children[n - 1]
                } else {
                    let line = self.new_child(BoxKind::InlineContainer);
                    self.push_child(line)
                }
            },
        }
    }

    /// Appends a piece of text to the inline content.
    pub fn add_text(&mut self, text: String) -> (child: &mut DomBox)
        ensures
            child@.same(BoxModel::fresh(KindModel::Text(text@), old(self)@.inline_container().style)),
            final(self)@.same(old(self)@.with_inline(final(child)@)),
    {
        let inline_container = self.get_inline_container();
        let child = inline_container.new_child(BoxKind::Text(text));
        inline_container.push_child(child)
    }

    /// Appends an inline group to the inline content.
    pub fn add_inline(&mut self) -> (child: &mut DomBox)
        ensures
            child@.same(BoxModel::fresh(KindModel::Inline, old(self)@.inline_container().style)),
            final(self)@.same(old(self)@.with_inline(final(child)@)),
    {
        let inline_container = self.get_inline_container();
        let child = inline_container.new_child(BoxKind::Inline);
        inline_container.push_child(child)
    }

    /// Appends a block.
    pub fn add_block(&mut self) -> (child: &mut DomBox)
        ensures
            child@.same(BoxModel::fresh(KindModel::Block, old(self).style)),
            final(self)@.same(old(self)@.with_child(final(child)@)),
    {
        let child = self.new_child(BoxKind::Block);
        self.push_child(child)
    }

    /// Appends a header of the given level.
    pub fn add_header(&mut self, level: u8) -> (child: &mut DomBox)
        ensures
            child@.same(BoxModel::fresh(KindModel::Header(level), old(self).style)),
            final(self)@.same(old(self)@.with_child(final(child)@)),
    {
        let child = self.new_child(BoxKind::Header(level));
        self.push_child(child)
    }

    /// Appends a list: an ordered one where `start` is given.
    pub fn add_list(&mut self, start: Option<XY>) -> (child: &mut DomBox)
        ensures
            child@.same(BoxModel::fresh(KindModel::List(start), old(self).style)),
            final(self)@.same(old(self)@.with_child(final(child)@)),
    {
        let child = self.new_child(BoxKind::List(start));
        self.push_child(child)
    }

    /// Appends the marker of a list item.
    pub fn add_bullet(&mut self) -> (child: &mut DomBox)
        ensures
            child@.same(BoxModel::fresh(KindModel::ListBullet, old(self).style)),
            final(self)@.same(old(self)@.with_child(final(child)@)),
    {
        let child = self.new_child(BoxKind::ListBullet);
        self.push_child(child)
    }

    /// Appends a forced end of line.
    pub fn add_break(&mut self) -> (child: &mut DomBox)
        ensures
            child@.same(BoxModel::fresh(KindModel::Break, old(self).style)),
            final(self)@.same(old(self)@.with_child(final(child)@)),
    {
        let child = self.new_child(BoxKind::Break);
        self.push_child(child)
    }
}

} // verus!
