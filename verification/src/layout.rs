//! Laying out the box tree: every box gets its place and size under the width
//! of the root, and what does not fit on a line is split off to the next.

use crate::dombox::{
    group_models, BoxKind, BoxModel, BoxSize, DomBox, Edges, KindModel, Rect, XY,
};
use crate::text::{cut_at, decimal, findsplit, measure, split_at_in_place, text_cells};
use vstd::prelude::*;

verus! {

/// The bounding box of the container that is being filled, and the place in
/// it where the next box goes.
#[derive(Debug, Copy, Clone, PartialEq, Eq, Structural)]
pub struct BoxCursor {
    pub container: BoxSize,
    pub x: XY,
    pub y: XY,
}

impl BoxCursor {
    /// The columns of the container from the cursor to its right edge.
    pub open spec fn room(self) -> XY {
        self.container.content.w.minus(self.x.minus(self.container.content.x))
    }

    /// The cursor that a box starts its own children with: at the origin of
    /// its content, with the box as the container.
    pub open spec fn inside(size: BoxSize) -> BoxCursor {
        BoxCursor { container: size, x: size.content.x, y: size.content.y }
    }

    /// The cursor once a box of the given size has taken a whole row of the
    /// container: back at the left edge, below the box.
    pub open spec fn below(self, size: BoxSize) -> BoxCursor {
        BoxCursor { x: self.container.content.x, y: self.y.plus(size.outer_height()), ..self }
    }

    /// The cursor once a box of the given size has been set beside it: to the
    /// right of the box, on the same row.
    pub open spec fn beside(self, size: BoxSize) -> BoxCursor {
        BoxCursor { x: self.x.plus(size.outer_width()), ..self }
    }
}

/// The name of a kind of box.
#[derive(Debug, Copy, Clone, PartialEq, Eq, Structural)]
pub enum KindName {
    Text,
    Break,
    InlineContainer,
    Inline,
    Block,
    Header,
    List,
    ListBullet,
    Table,
    TableColumn,
    TableItem,
    Image,
}

impl KindModel {
    /// The name of this kind.
    pub open spec fn name(self) -> KindName {
        match self {
            KindModel::Text(_) => KindName::Text,
            KindModel::Break => KindName::Break,
            KindModel::InlineContainer => KindName::InlineContainer,
            KindModel::Inline => KindName::Inline,
            KindModel::Block => KindName::Block,
            KindModel::Header(_) => KindName::Header,
            KindModel::List(_) => KindName::List,
            KindModel::ListBullet => KindName::ListBullet,
            KindModel::Table => KindName::Table,
            KindModel::TableColumn => KindName::TableColumn,
            KindModel::TableItem => KindName::TableItem,
            KindModel::Image => KindName::Image,
        }
    }
}

impl BoxKind {
    /// The name of this kind.
    pub fn name(&self) -> (n: KindName)
        ensures
            n == self@.name(),
    {
        match self {
            BoxKind::Text(_) => KindName::Text,
            BoxKind::Break => KindName::Break,
            BoxKind::InlineContainer => KindName::InlineContainer,
            BoxKind::Inline => KindName::Inline,
            BoxKind::Block => KindName::Block,
            BoxKind::Header(_) => KindName::Header,
            BoxKind::List(_) => KindName::List,
            BoxKind::ListBullet => KindName::ListBullet,
            BoxKind::Table => KindName::Table,
            BoxKind::TableColumn => KindName::TableColumn,
            BoxKind::TableItem => KindName::TableItem,
            BoxKind::Image => KindName::Image,
        }
    }
}

/// Why a tree cannot be laid out.
#[derive(Debug, Copy, Clone, PartialEq, Eq, Structural)]
pub enum LayoutError {
    /// A box of this kind could not be placed as a child of a block or of a
    /// list, where nothing else can be tried.
    Rejected(KindName),
    /// A box of this kind could not be placed as the first on its line.
    RejectedFirst(KindName),
    /// A box of this kind stands in a list, which holds bullets and blocks
    /// only.
    NotInList(KindName),
    /// A forced end of line stands where none is taken: at the root.
    StrayBreak,
    /// There is no layout for a box of this kind.
    Unsupported(KindName),
}

/// How the layout of one box ended.
#[derive(Debug)]
pub enum LayoutRes<T> {
    /// Everything fit.
    Normal,
    /// Only a part fit: the box holds that part, and what remains is to be
    /// laid out as the next sibling.
    CutHere(T),
    /// Nothing fit at the cursor's place.
    Reject,
}

/// How the layout of one box ended, as a value.
pub enum Outcome {
    Normal,
    Cut(BoxModel),
    Reject,
}

impl View for LayoutRes<DomBox> {
    type V = Outcome;

    open spec fn view(&self) -> Outcome {
        match *self {
            LayoutRes::Normal => Outcome::Normal,
            LayoutRes::CutHere(rest) => Outcome::Cut(rest@),
            LayoutRes::Reject => Outcome::Reject,
        }
    }
}

/// A box that has been laid out, the cursor behind it, and how it ended.
pub struct Laid {
    pub b: BoxModel,
    pub c: BoxCursor,
    pub out: Outcome,
}

/// The work that laying out a box is, at the most: one for the box, one for
/// each character of its text, and the work of its children.
pub open spec fn weight(b: BoxModel) -> nat
    decreases b,
{
    1 + (match b.kind {
        KindModel::Text(text) => text.len(),
        _ => 0,
    }) + seq_weight(b.children)
}

/// The work of some boxes together.
pub open spec fn seq_weight(boxes: Seq<BoxModel>) -> nat
    decreases boxes,
{
    if boxes.len() == 0 {
        0
    } else {
        weight(boxes[0]) + seq_weight(boxes.drop_first())
    }
}

/// The width of the content of a box with the given borders that is offered
/// `offered` columns: what the borders leave of them, and one column where
/// they leave none.
pub open spec fn inner_width(offered: XY, border: Edges) -> XY {
    if offered.0 > border.left.plus(border.right).0 {
        offered.minus(border.left).minus(border.right)
    } else {
        XY(1)
    }
}

impl BoxModel {
    /// This box with another content rectangle.
    pub open spec fn placed(self, content: Rect) -> BoxModel {
        BoxModel { size: BoxSize { content, ..self.size }, ..self }
    }

    /// This box with other children.
    pub open spec fn holding(self, children: Seq<BoxModel>) -> BoxModel {
        BoxModel { children, ..self }
    }

    /// The origin of the content of this box when it is set at the cursor.
    pub open spec fn origin(self, c: BoxCursor) -> Rect {
        Rect {
            x: c.x.plus(self.size.border.left),
            y: c.y.plus(self.size.border.top),
            ..self.size.content
        }
    }

    /// A block or a list as its layout begins: set at the cursor, as wide as
    /// the room that is left there allows, and empty of height.
    pub open spec fn open_block(self, c: BoxCursor) -> BoxModel {
        self.placed(
            Rect { w: inner_width(c.room(), self.size.border), h: XY(0), ..self.origin(c) },
        )
    }

    /// A line as its layout begins: set at the cursor, as wide as the
    /// container allows, and one row high.
    pub open spec fn open_line(self, c: BoxCursor) -> BoxModel {
        self.placed(
            Rect {
                w: inner_width(c.container.content.w, self.size.border),
                h: XY(1),
                ..self.origin(c)
            },
        )
    }

    /// A piece of inline content as its layout begins: set at the cursor,
    /// one row high, with all the room that is left on the line.
    pub open spec fn open_inline(self, c: BoxCursor) -> BoxModel {
        self.placed(
            Rect {
                w: c.room().minus(self.size.border.left.plus(self.size.border.right)),
                h: XY(1),
                ..self.origin(c)
            },
        )
    }

    /// This box as wide as its content is.
    pub open spec fn widened(self, w: XY) -> BoxModel {
        self.placed(Rect { w, ..self.size.content })
    }

    /// The sibling that goes on where this box was cut: a box of the same
    /// kind, size and style that holds what remains.
    pub open spec fn remainder(self, rest: Seq<BoxModel>) -> BoxModel {
        self.holding(rest)
    }
}

/// The state of the layout of the children of a block or a list: the
/// children that are laid out, those that are not yet, the cursor, and the
/// height and the greatest width of what is laid out.
pub struct Flow {
    pub done: Seq<BoxModel>,
    pub todo: Seq<BoxModel>,
    pub sub: BoxCursor,
    pub h: XY,
    pub widest: XY,
}

impl Flow {
    /// The flow of a box whose children are all to be laid out.
    pub open spec fn start(b: BoxModel) -> Flow {
        Flow {
            done: Seq::empty(),
            todo: b.children,
            sub: BoxCursor::inside(b.size),
            h: XY(0),
            widest: XY(0),
        }
    }

    /// The flow once its next child has been laid out. Where the child was
    /// cut, what remains of it is the next to be laid out. The child counts
    /// into the height where `counted`.
    pub open spec fn after(self, l: Laid, counted: bool) -> Flow {
        let size = l.b.size;
        Flow {
            done: self.done.push(l.b),
            todo: match l.out {
                Outcome::Cut(rest) => seq![rest] + self.todo.drop_first(),
                _ => self.todo.drop_first(),
            },
            sub: l.c,
            h: if counted {
                self.h.plus(size.outer_height())
            } else {
                self.h
            },
            widest: if size.outer_width().0 > self.widest.0 {
                size.outer_width()
            } else {
                self.widest
            },
        }
    }

    /// The flow without its next child.
    pub open spec fn skipped(self) -> Flow {
        Flow { todo: self.todo.drop_first(), ..self }
    }
}

/// The state of the layout of a line, or of an inline group on it: the
/// children that are laid out, those that are not yet, and the cursor.
pub struct Line {
    pub done: Seq<BoxModel>,
    pub todo: Seq<BoxModel>,
    pub sub: BoxCursor,
}

/// How the layout of a line ended: the children that stay on it, the cursor
/// behind them, and the outcome for the box.
pub struct LineEnd {
    pub kept: Seq<BoxModel>,
    pub sub: BoxCursor,
    pub out: Outcome,
}

impl Line {
    /// The line of a box whose children are all to be laid out.
    pub open spec fn start(b: BoxModel) -> Line {
        Line { done: Seq::empty(), todo: b.children, sub: BoxCursor::inside(b.size) }
    }

    /// The end of a line at a forced end of line: the line is cut there. The
    /// break itself is dropped, and what follows it remains.
    pub open spec fn broken(self, b: BoxModel) -> LineEnd {
        LineEnd {
            kept: self.done,
            sub: self.sub,
            out: Outcome::Cut(b.remainder(self.todo.drop_first())),
        }
    }

    /// The line once its next child has been laid out and fit.
    pub open spec fn after(self, l: Laid) -> Line {
        Line { done: self.done.push(l.b), todo: self.todo.drop_first(), sub: l.c }
    }

    /// The end of a line at a child that was cut: the line is cut behind it,
    /// and what remains starts with what remains of the child.
    pub open spec fn cut(self, b: BoxModel, l: Laid, rest: BoxModel) -> LineEnd {
        LineEnd {
            kept: self.done.push(l.b),
            sub: l.c,
            out: Outcome::Cut(b.remainder(seq![rest] + self.todo.drop_first())),
        }
    }

    /// The end of a line at a child that does not fit, which is not the
    /// first: the line is cut before it.
    pub open spec fn cut_before(self, b: BoxModel, l: Laid) -> LineEnd {
        LineEnd {
            kept: self.done,
            sub: l.c,
            out: Outcome::Cut(b.remainder(seq![l.b] + self.todo.drop_first())),
        }
    }

    /// The end of a line whose first child does not fit: the box does not
    /// fit either, and keeps all its children.
    pub open spec fn rejected(self, l: Laid) -> LineEnd {
        LineEnd { kept: seq![l.b] + self.todo.drop_first(), sub: l.c, out: Outcome::Reject }
    }

    /// The end of a line that all children fit on.
    pub open spec fn filled(self) -> LineEnd {
        LineEnd { kept: self.done, sub: self.sub, out: Outcome::Normal }
    }
}

/// The character offset at which a text that does not fit into `room`
/// columns is split: between two grapheme clusters, behind the first
/// character or later, and within the text.
pub open spec fn split_point(text: Seq<char>, room: XY) -> int {
    let at = cut_at(text, room.0 as nat) as int;
    if at < 1 {
        1
    } else if at <= text.len() {
        at
    } else {
        text.len() as int
    }
}

/// A piece of text laid out at the cursor.
///
/// Where no column is left, the text is rejected. A text without characters
/// takes no column. Where the text is shown in no more columns than are
/// left, it takes as many. Else it is split behind
/// the last grapheme cluster that fits, and behind the first cluster where
/// not even that one fits: the box keeps what stands before, and what stands
/// behind is a text box of its own, the next sibling.
pub open spec fn laid_text(b: BoxModel, c: BoxCursor, text: Seq<char>) -> Laid {
    let open = b.open_inline(c);
    let room = open.size.content.w;
    if room.0 == 0 {
        Laid { b: open, c: c, out: Outcome::Reject }
    } else if text.len() == 0 {
        Laid { b: open.widened(XY(0)), c: c, out: Outcome::Normal }
    } else if text_cells(text) <= room.0 {
        let fit = open.widened(XY(text_cells(text) as u16));
        Laid { b: fit, c: BoxCursor { x: c.x.plus(fit.size.content.w), ..c }, out: Outcome::Normal }
    } else {
        let at = split_point(text, room);
        Laid {
            b: BoxModel { kind: KindModel::Text(text.take(at)), ..open },
            c: BoxCursor { x: c.x.plus(room), ..c },
            out: Outcome::Cut(
                BoxModel { kind: KindModel::Text(text.skip(at)), children: Seq::empty(), ..open },
            ),
        }
    }
}

/// A block, a header or a list bullet once its children are laid out: it is
/// as high as they are together, and as wide as the widest of them unless it
/// extends to all the room it had. A bullet leaves the cursor beside it, any
/// other block below it.
pub open spec fn close_block(open: BoxModel, c: BoxCursor, flow: Flow) -> Laid {
    let content = Rect {
        h: flow.h,
        w: if open.style.extend {
            open.size.content.w
        } else {
            flow.widest
        },
        ..open.size.content
    };
    let b = open.placed(content).holding(flow.done);
    Laid {
        b,
        c: if open.kind is ListBullet {
            c.beside(b.size)
        } else {
            c.below(b.size)
        },
        out: Outcome::Normal,
    }
}

/// A list once its children are laid out: it is as high as its blocks are
/// together, and the cursor has moved down by as much.
pub open spec fn close_list(open: BoxModel, c: BoxCursor, flow: Flow) -> Laid {
    let b = open.placed(Rect { h: flow.h, ..open.size.content }).holding(flow.done);
    Laid { b, c: BoxCursor { y: c.y.plus(b.size.outer_height()), ..c }, out: Outcome::Normal }
}

/// A line or an inline group once the layout of its children has ended: it
/// holds the children that stay, and is as wide as the cursor has moved.
pub open spec fn close_line(open: BoxModel, end: LineEnd) -> BoxModel {
    open.widened(end.sub.x.minus(open.size.content.x)).holding(end.kept)
}

/// The layout of a block, a header or a list bullet, given that of its
/// children.
pub open spec fn block_result(open: BoxModel, c: BoxCursor, flow: Result<Flow, LayoutError>) -> Result<
    Laid,
    LayoutError,
> {
    match flow {
        Ok(flow) => Ok(close_block(open, c, flow)),
        Err(e) => Err(e),
    }
}

/// The layout of a list, given that of its children.
pub open spec fn list_result(open: BoxModel, c: BoxCursor, flow: Result<Flow, LayoutError>) -> Result<
    Laid,
    LayoutError,
> {
    match flow {
        Ok(flow) => Ok(close_list(open, c, flow)),
        Err(e) => Err(e),
    }
}

/// The layout of a line, given that of its children: the line takes a row
/// of its container.
pub open spec fn line_result(open: BoxModel, c: BoxCursor, end: Result<LineEnd, LayoutError>) -> Result<
    Laid,
    LayoutError,
> {
    match end {
        Ok(end) => {
            let closed = close_line(open, end);
            Ok(
                Laid {
                    b: closed,
                    c: BoxCursor { y: c.y.plus(closed.size.outer_height()), ..c },
                    out: end.out,
                },
            )
        },
        Err(e) => Err(e),
    }
}

/// The layout of an inline group, given that of its children: the group
/// takes its width of the line.
pub open spec fn group_result(open: BoxModel, c: BoxCursor, end: Result<LineEnd, LayoutError>) -> Result<
    Laid,
    LayoutError,
> {
    match end {
        Ok(end) => {
            let closed = close_line(open, end);
            Ok(
                Laid {
                    b: closed,
                    c: BoxCursor { x: c.x.plus(closed.size.content.w), ..c },
                    out: end.out,
                },
            )
        },
        Err(e) => Err(e),
    }
}

/// The layout of a box at a cursor.
///
/// A block, a header and a list bullet lay out their children one below the
/// other, a list its bullets beside its blocks, a line and an inline group
/// their children one beside the other. A table, its parts and an image have
/// no layout, and a forced end of line has none of its own.
#[verifier::opaque]
pub open spec fn laid(b: BoxModel, c: BoxCursor) -> Result<Laid, LayoutError>
    decreases weight(b), 0int,
{
    match b.kind {
        KindModel::Block | KindModel::ListBullet | KindModel::Header(_) => block_result(
            b.open_block(c),
            c,
            flowed(Flow::start(b.open_block(c)), false),
        ),
        KindModel::List(_) => list_result(
            b.open_block(c),
            c,
            flowed(Flow::start(b.open_block(c)), true),
        ),
        KindModel::InlineContainer => line_result(
            b.open_line(c),
            c,
            lined(b.open_line(c), Line::start(b.open_line(c)), false),
        ),
        KindModel::Inline => group_result(
            b.open_inline(c),
            c,
            lined(b.open_inline(c), Line::start(b.open_inline(c)), true),
        ),
        KindModel::Text(text) => Ok(laid_text(b, c, text)),
        KindModel::Break => Err(LayoutError::StrayBreak),
        _ => Err(LayoutError::Unsupported(b.kind.name())),
    }
}

/// Whether a child of the given kind is laid out by its block or list. A
/// block drops a forced end of line; a list takes bullets and blocks only.
pub open spec fn flows(kind: KindModel, in_list: bool) -> Result<bool, LayoutError> {
    if in_list {
        if kind is ListBullet || kind is Block {
            Ok(true)
        } else {
            Err(LayoutError::NotInList(kind.name()))
        }
    } else {
        Ok(!(kind is Break))
    }
}

/// The layout of the children of a block, or of a list where `in_list`, from
/// the given state on.
///
/// Each child is laid out at the cursor that the one before it has left.
/// What remains of a child that was cut is laid out next; it is less work
/// than the child was, and the layout would stop at one that is not. The
/// bullets of a list do not count into its height. A child that is rejected
/// fails the layout.
#[verifier::opaque]
pub open spec fn flowed(flow: Flow, in_list: bool) -> Result<Flow, LayoutError>
    decreases seq_weight(flow.todo), 1int,
{
    if flow.todo.len() == 0 {
        Ok(flow)
    } else {
        let child = flow.todo[0];
        match flows(child.kind, in_list) {
            Err(e) => Err(e),
            Ok(false) => {
                proof {
                    assert(weight(child) >= 1);
                }
                flowed(flow.skipped(), in_list)
            },
            Ok(true) => match laid(child, flow.sub) {
                Err(e) => Err(e),
                Ok(l) => if l.out is Reject {
                    Err(LayoutError::Rejected(child.kind.name()))
                } else {
                    let next = flow.after(l, !(in_list && child.kind is ListBullet));
                    if seq_weight(next.todo) < seq_weight(flow.todo) {
                        flowed(next, in_list)
                    } else {
                        Ok(next)
                    }
                },
            },
        }
    }
}

/// The layout of the children of the line or inline group `b`, from the
/// given state on.
///
/// Each child is laid out at the cursor that the one before it has left. The
/// line ends at a forced end of line, behind a child that was cut, and
/// before a child that is rejected. Where the first child is rejected, the
/// box is rejected with it if it `may_reject`, else the layout fails.
#[verifier::opaque]
pub open spec fn lined(b: BoxModel, line: Line, may_reject: bool) -> Result<LineEnd, LayoutError>
    decreases seq_weight(line.todo), 1int,
{
    if line.todo.len() == 0 {
        Ok(line.filled())
    } else {
        let child = line.todo[0];
        if child.kind is Break {
            Ok(line.broken(b))
        } else {
            match laid(child, line.sub) {
                Err(e) => Err(e),
                Ok(l) => match l.out {
                    Outcome::Normal => {
                        proof {
                            assert(weight(child) >= 1);
                        }
                        lined(b, line.after(l), may_reject)
                    },
                    Outcome::Cut(rest) => Ok(line.cut(b, l, rest)),
                    Outcome::Reject => if line.done.len() > 0 {
                        Ok(line.cut_before(b, l))
                    } else if may_reject {
                        Ok(line.rejected(l))
                    } else {
                        Err(LayoutError::RejectedFirst(child.kind.name()))
                    },
                },
            }
        }
    }
}

/// The cursor that the layout of a root starts with: at the origin, with the
/// root itself as the container.
pub open spec fn root_cursor(root: BoxModel) -> BoxCursor {
    BoxCursor { container: root.size, x: XY(0), y: XY(0) }
}

/// The layout of a tree: the root as it is laid out at the origin, in the
/// width that it has. What remains of a root that was cut is dropped.
pub open spec fn layout_of(root: BoxModel) -> Result<BoxModel, LayoutError> {
    match laid(root, root_cursor(root)) {
        Ok(l) => Ok(l.b),
        Err(e) => Err(e),
    }
}

/// The layout of a box, by its kind.
pub proof fn lemma_laid_unfold(b: BoxModel, c: BoxCursor)
    ensures
        laid(b, c) == (match b.kind {
            KindModel::Block | KindModel::ListBullet | KindModel::Header(_) => block_result(
                b.open_block(c),
                c,
                flowed(Flow::start(b.open_block(c)), false),
            ),
            KindModel::List(_) => list_result(
                b.open_block(c),
                c,
                flowed(Flow::start(b.open_block(c)), true),
            ),
            KindModel::InlineContainer => line_result(
                b.open_line(c),
                c,
                lined(b.open_line(c), Line::start(b.open_line(c)), false),
            ),
            KindModel::Inline => group_result(
                b.open_inline(c),
                c,
                lined(b.open_inline(c), Line::start(b.open_inline(c)), true),
            ),
            KindModel::Text(text) => Ok(laid_text(b, c, text)),
            KindModel::Break => Err(LayoutError::StrayBreak),
            _ => Err(LayoutError::Unsupported(b.kind.name())),
        }),
{
    reveal_with_fuel(laid, 1);
    reveal_with_fuel(flowed, 1);
    reveal_with_fuel(lined, 1);
}

/// The layout of the children of a block or a list, by its next child.
pub proof fn lemma_flowed_unfold(flow: Flow, in_list: bool)
    ensures
        flow.todo.len() == 0 ==> flowed(flow, in_list) == Ok::<Flow, LayoutError>(flow),
        flow.todo.len() > 0 ==> (match flows(flow.todo[0].kind, in_list) {
            Err(e) => flowed(flow, in_list) == Err::<Flow, LayoutError>(e),
            Ok(false) => flowed(flow, in_list) == flowed(flow.skipped(), in_list),
            Ok(true) => match laid(flow.todo[0], flow.sub) {
                Err(e) => flowed(flow, in_list) == Err::<Flow, LayoutError>(e),
                Ok(l) => if l.out is Reject {
                    flowed(flow, in_list) == Err::<Flow, LayoutError>(
                        LayoutError::Rejected(flow.todo[0].kind.name()),
                    )
                } else {
                    let next = flow.after(l, !(in_list && flow.todo[0].kind is ListBullet));
                    flowed(flow, in_list) == if seq_weight(next.todo) < seq_weight(flow.todo) {
                        flowed(next, in_list)
                    } else {
                        Ok(next)
                    }
                },
            },
        }),
{
    reveal_with_fuel(laid, 1);
    reveal_with_fuel(flowed, 1);
    reveal_with_fuel(lined, 1);
}

/// The layout of the children of a line or an inline group, by its next
/// child.
pub proof fn lemma_lined_unfold(b: BoxModel, line: Line, may_reject: bool)
    ensures
        line.todo.len() == 0 ==> lined(b, line, may_reject) == Ok::<LineEnd, LayoutError>(
            line.filled(),
        ),
        line.todo.len() > 0 && line.todo[0].kind is Break ==> lined(b, line, may_reject) == Ok::<
            LineEnd,
            LayoutError,
        >(line.broken(b)),
        line.todo.len() > 0 && !(line.todo[0].kind is Break) ==> lined(b, line, may_reject) == (
        match laid(line.todo[0], line.sub) {
            Err(e) => Err(e),
            Ok(l) => match l.out {
                Outcome::Normal => lined(b, line.after(l), may_reject),
                Outcome::Cut(rest) => Ok(line.cut(b, l, rest)),
                Outcome::Reject => if line.done.len() > 0 {
                    Ok(line.cut_before(b, l))
                } else if may_reject {
                    Ok(line.rejected(l))
                } else {
                    Err(LayoutError::RejectedFirst(line.todo[0].kind.name()))
                },
            },
        }),
{
    reveal_with_fuel(laid, 1);
    reveal_with_fuel(flowed, 1);
    reveal_with_fuel(lined, 1);
}

/// The work of a box and of the boxes behind it is the sum of the two.
pub proof fn lemma_seq_weight_cons(first: BoxModel, others: Seq<BoxModel>)
    ensures
        seq_weight(seq![first] + others) == weight(first) + seq_weight(others),
{
    let all = seq![first] + others;
    assert(all[0] == first);
    assert(all.drop_first() =~= others);
}

/// The work of some boxes is that of the first of them and that of the
/// others.
pub proof fn lemma_seq_weight_split(boxes: Seq<BoxModel>, i: int)
    requires
        0 <= i <= boxes.len(),
    ensures
        seq_weight(boxes) == seq_weight(boxes.take(i)) + seq_weight(boxes.skip(i)),
    decreases i,
{
    if i == 0 {
        assert(boxes.take(0) =~= Seq::<BoxModel>::empty());
        assert(boxes.skip(0) =~= boxes);
    } else {
        lemma_seq_weight_split(boxes.drop_first(), i - 1);
        assert(boxes.take(i)[0] == boxes[0]);
        assert(boxes.take(i).drop_first() =~= boxes.drop_first().take(i - 1));
        assert(boxes.skip(i) =~= boxes.drop_first().skip(i - 1));
    }
}

/// A text box that is split keeps its text: what the box keeps and what
/// remains are, one after the other, the text that the box had.
pub proof fn lemma_split_keeps_text(b: BoxModel, c: BoxCursor, text: Seq<char>)
    requires
        b.kind == KindModel::Text(text),
        laid_text(b, c, text).out is Cut,
    ensures
        ({
            let l = laid_text(b, c, text);
            l.b.kind->Text_0 + l.out->Cut_0.kind->Text_0 == text
        }),
{
    let at = split_point(text, b.open_inline(c).size.content.w);
    assert(text.take(at) + text.skip(at) =~= text);
}

/// What the layout of a box promises beside its result: a box that is
/// rejected has not grown, and what remains of a box that is cut is less
/// than the box was.
pub open spec fn lighter(before: BoxModel, after: BoxModel, out: Outcome) -> bool {
    match out {
        Outcome::Normal => true,
        Outcome::Cut(rest) => weight(rest) < weight(before),
        Outcome::Reject => weight(after) <= weight(before),
    }
}

/// What the layout of a line promises beside its result: what remains of a
/// line that is cut is less than what was still to be laid out, or no more
/// where something has been laid out already; and a line is rejected only
/// with its first child, and has not grown then.
pub open spec fn line_lighter(line: Line, end: LineEnd) -> bool {
    match end.out {
        Outcome::Normal => true,
        Outcome::Cut(rest) => if line.done.len() > 0 {
            seq_weight(rest.children) <= seq_weight(line.todo)
        } else {
            seq_weight(rest.children) < seq_weight(line.todo)
        },
        Outcome::Reject => line.done.len() == 0 && seq_weight(end.kept) <= seq_weight(line.todo),
    }
}

/// What remains of a box that is cut is less work than the box was, and a
/// box that is rejected has not grown. So the layout of the children of a
/// block always goes on with what remains of a child that was cut.
pub proof fn lemma_laid_lighter(b: BoxModel, c: BoxCursor)
    requires
        laid(b, c) is Ok,
    ensures
        lighter(b, laid(b, c)->Ok_0.b, laid(b, c)->Ok_0.out),
    decreases weight(b), 0int,
{
    lemma_laid_unfold(b, c);
    match b.kind {
        KindModel::InlineContainer => {
            let open = b.open_line(c);
            lemma_lined_lighter(open, Line::start(open), false);
            lemma_closed_lighter(b, open, lined(open, Line::start(open), false)->Ok_0);
        },
        KindModel::Inline => {
            let open = b.open_inline(c);
            lemma_lined_lighter(open, Line::start(open), true);
            lemma_closed_lighter(b, open, lined(open, Line::start(open), true)->Ok_0);
        },
        _ => {},
    }
}

/// A line that has become lighter in its children has become lighter as a
/// box.
proof fn lemma_closed_lighter(b: BoxModel, open: BoxModel, end: LineEnd)
    requires
        !(b.kind is Text),
        open.kind == b.kind,
        open.children == b.children,
        line_lighter(Line::start(open), end),
        end.out matches Outcome::Cut(rest) ==> rest.kind == b.kind,
    ensures
        lighter(b, close_line(open, end), end.out),
{
    let closed = close_line(open, end);
    assert(weight(b) == 1 + seq_weight(b.children));
    assert(closed.children == end.kept);
    assert(weight(closed) == 1 + seq_weight(end.kept));
    match end.out {
        Outcome::Cut(rest) => {
            assert(weight(rest) == 1 + seq_weight(rest.children));
        },
        _ => {},
    }
}

/// What remains of a line that is cut is less work than the line was.
pub proof fn lemma_lined_lighter(b: BoxModel, line: Line, may_reject: bool)
    requires
        lined(b, line, may_reject) is Ok,
    ensures
        line_lighter(line, lined(b, line, may_reject)->Ok_0),
        lined(b, line, may_reject)->Ok_0.out matches Outcome::Cut(rest) ==> rest.kind == b.kind,
    decreases seq_weight(line.todo), 1int,
{
    lemma_lined_unfold(b, line, may_reject);
    if line.todo.len() > 0 {
        let child = line.todo[0];
        let others = line.todo.drop_first();
        assert(weight(child) >= 1);
        if !(child.kind is Break) {
            match laid(child, line.sub) {
                Err(_) => {},
                Ok(l) => {
                    lemma_laid_lighter(child, line.sub);
                    match l.out {
                        Outcome::Normal => {
                            lemma_lined_lighter(b, line.after(l), may_reject);
                        },
                        Outcome::Cut(rest) => {
                            lemma_seq_weight_cons(rest, others);
                        },
                        Outcome::Reject => {
                            lemma_seq_weight_cons(l.b, others);
                        },
                    }
                },
            }
        }
    }
}

/// The layout of the children of a block or a list leaves none of them
/// out: it ends only when every child, and what remains of every child that
/// was cut, has been laid out.
pub proof fn lemma_flowed_ends(flow: Flow, in_list: bool)
    requires
        flowed(flow, in_list) is Ok,
    ensures
        flowed(flow, in_list)->Ok_0.todo.len() == 0,
    decreases seq_weight(flow.todo), 1int,
{
    lemma_flowed_unfold(flow, in_list);
    if flow.todo.len() > 0 {
        let child = flow.todo[0];
        assert(weight(child) >= 1);
        match flows(child.kind, in_list) {
            Err(_) => {},
            Ok(false) => {
                lemma_flowed_ends(flow.skipped(), in_list);
            },
            Ok(true) => {
                match laid(child, flow.sub) {
                    Err(_) => {},
                    Ok(l) => {
                        if !(l.out is Reject) {
                            lemma_laid_lighter(child, flow.sub);
                            let next = flow.after(l, !(in_list && child.kind is ListBullet));
                            if l.out is Cut {
                                lemma_seq_weight_cons(l.out->Cut_0, flow.todo.drop_first());
                            }
                            lemma_flowed_ends(next, in_list);
                        }
                    },
                }
            },
        }
    }
}

/// Whether a step of the layout of a box came out as its model says.
pub open spec fn agrees(
    model: Result<Laid, LayoutError>,
    res: Result<LayoutRes<DomBox>, LayoutError>,
    b: BoxModel,
    c: BoxCursor,
) -> bool {
    match model {
        Ok(l) => res is Ok && res->Ok_0@ == l.out && b == l.b && c == l.c,
        Err(e) => res == Err::<LayoutRes<DomBox>, LayoutError>(e),
    }
}

/// A text followed by a lead and a coordinate in decimal.
pub open spec fn noted(text: Seq<char>, lead: Seq<char>, n: XY) -> Seq<char> {
    text + lead + decimal(n.0 as nat)
}

/// Appends a lead and a coordinate in decimal.
fn note(text: &mut String, lead: &str, n: XY)
    ensures
        final(text)@ == noted(old(text)@, lead@, n),
{
    text.append(lead);
    text.append(n.to_text().as_str());
}

impl BoxCursor {
    /// The columns of the container from the cursor to its right edge.
    pub fn columns_left(&self) -> (w: XY)
        ensures
            w == self.room(),
    {
        self.container.content.w - (self.x - self.container.content.x)
    }

    /// The cursor written out: its place, then the content rectangle of its
    /// container, then the borders of the container.
    pub open spec fn described(self) -> Seq<char> {
        let content = self.container.content;
        let border = self.container.border;
        let place = noted(noted(Seq::empty(), "["@, self.x), " "@, self.y);
        let origin = noted(noted(place, "] ["@, content.x), " "@, content.y);
        let extent = noted(noted(origin, " +"@, content.w), " +"@, content.h);
        let before = noted(noted(extent, "] [+"@, border.top), " +"@, border.left);
        noted(noted(before, " -"@, border.bottom), " -"@, border.right) + "]"@
    }

    /// The cursor written out, as `[x y] [x y +w +h] [+top +left -bottom
    /// -right]`.
    pub fn describe(&self) -> (text: String)
        ensures
            text@ == self.described(),
    {
        let mut text = String::new();
        note(&mut text, "[", self.x);
        note(&mut text, " ", self.y);
        note(&mut text, "] [", self.container.content.x);
        note(&mut text, " ", self.container.content.y);
        note(&mut text, " +", self.container.content.w);
        note(&mut text, " +", self.container.content.h);
        note(&mut text, "] [+", self.container.border.top);
        note(&mut text, " +", self.container.border.left);
        note(&mut text, " -", self.container.border.bottom);
        note(&mut text, " -", self.container.border.right);
        text.append("]");
        text
    }
}

/// The width of the content of a box with the given borders that is offered
/// `offered` columns.
pub fn content_width(offered: XY, border: &Edges) -> (w: XY)
    ensures
        w == inner_width(offered, *border),
{
    if offered.cells() > (border.left + border.right).cells() {
        offered - border.left - border.right
    } else {
        XY::new(1)
    }
}

impl DomBox {
    /// Lays out the tree at the origin, in the width that the root has.
    pub fn layout(&mut self)
        requires
            layout_of(old(self)@) is Ok,
        ensures
            Ok::<BoxModel, LayoutError>(final(self)@) == layout_of(old(self)@),
    {
        let mut cursor = BoxCursor { x: XY::new(0), y: XY::new(0), container: self.size };
        let _ = self.layout_generic(&mut cursor);
    }

    /// Lays out the tree at the origin, in the width that the root has, or
    /// says why it cannot be laid out. A tree that cannot be is left in no
    /// particular state.
    pub fn try_layout(&mut self) -> (res: Result<(), LayoutError>)
        ensures
            match layout_of(old(self)@) {
                Ok(root) => res is Ok && final(self)@ == root,
                Err(e) => res == Err::<(), LayoutError>(e),
            },
    {
        let mut cursor = BoxCursor { x: XY::new(0), y: XY::new(0), container: self.size };
        match self.layout_generic(&mut cursor) {
            Ok(_) => Ok(()),
            Err(e) => Err(e),
        }
    }

    /// Lays out this box at the cursor, and moves the cursor behind it.
    fn layout_generic(&mut self, cursor: &mut BoxCursor) -> (res: Result<
        LayoutRes<DomBox>,
        LayoutError,
    >)
        ensures
            agrees(laid(old(self)@, *old(cursor)), res, final(self)@, *final(cursor)),
            res is Ok ==> lighter(old(self)@, final(self)@, res->Ok_0@),
        decreases weight(old(self)@), 3int,
    {
        proof {
            lemma_laid_unfold(self@, *cursor);
        }
        match self.kind {
            BoxKind::Block | BoxKind::ListBullet | BoxKind::Header(_) => self.layout_block(cursor),
            BoxKind::InlineContainer => self.layout_inline_container(cursor),
            BoxKind::List(_) => self.layout_list(cursor),
            BoxKind::Text(_) | BoxKind::Inline => self.layout_inline(cursor),
            BoxKind::Break => Err(LayoutError::StrayBreak),
            _ => Err(LayoutError::Unsupported(self.kind.name())),
        }
    }

    /// Sets this box at the cursor: the origin of its content lies behind
    /// its left and top borders.
    fn set_origin(&mut self, cursor: &BoxCursor)
        ensures
            final(self)@ == old(self)@.placed(old(self)@.origin(*cursor)),
            final(self).kind == old(self).kind,
            final(self).children == old(self).children,
    {
        self.size.content.x = cursor.x + self.size.border.left;
        self.size.content.y = cursor.y + self.size.border.top;
    }

    /// Lays out a block, a header or a list bullet.
    fn layout_block(&mut self, cursor: &mut BoxCursor) -> (res: Result<
        LayoutRes<DomBox>,
        LayoutError,
    >)
        requires
            old(self)@.kind is Block || old(self)@.kind is ListBullet || old(self)@.kind is Header,
        ensures
            agrees(
                block_result(
                    old(self)@.open_block(*old(cursor)),
                    *old(cursor),
                    flowed(Flow::start(old(self)@.open_block(*old(cursor))), false),
                ),
                res,
                final(self)@,
                *final(cursor),
            ),
            res is Ok ==> res->Ok_0@ is Normal,
        decreases weight(old(self)@), 2int,
    {
        self.set_origin(cursor);
        self.size.content.h = XY::new(0);
        self.size.content.w = content_width(cursor.columns_left(), &self.size.border);
        let (height, widest) = match self.flow_children(false) {
            Ok(flow) => flow,
            Err(e) => {
                return Err(e);
            },
        };
        self.size.content.h = height;
        if !self.style.extend {
            self.size.content.w = widest;
        }
        if let BoxKind::ListBullet = self.kind {
            cursor.x = cursor.x + self.size.total_width();
        } else {
            cursor.x = cursor.container.content.x;
            cursor.y = cursor.y + self.size.total_height();
        }
        Ok(LayoutRes::Normal)
    }

    /// Lays out a list.
    fn layout_list(&mut self, cursor: &mut BoxCursor) -> (res: Result<
        LayoutRes<DomBox>,
        LayoutError,
    >)
        requires
            old(self)@.kind is List,
        ensures
            agrees(
                list_result(
                    old(self)@.open_block(*old(cursor)),
                    *old(cursor),
                    flowed(Flow::start(old(self)@.open_block(*old(cursor))), true),
                ),
                res,
                final(self)@,
                *final(cursor),
            ),
            res is Ok ==> res->Ok_0@ is Normal,
        decreases weight(old(self)@), 2int,
    {
        self.set_origin(cursor);
        self.size.content.h = XY::new(0);
        self.size.content.w = content_width(cursor.columns_left(), &self.size.border);
        let (height, _) = match self.flow_children(true) {
            Ok(flow) => flow,
            Err(e) => {
                return Err(e);
            },
        };
        self.size.content.h = height;
        cursor.y = cursor.y + self.size.total_height();
        Ok(LayoutRes::Normal)
    }

    /// Lays out the children of a block, or of a list where `in_list`, and
    /// gives the height and the greatest width of what is laid out.
    fn flow_children(&mut self, in_list: bool) -> (res: Result<(XY, XY), LayoutError>)
        ensures
            match flowed(Flow::start(old(self)@), in_list) {
                Ok(flow) => res == Ok::<(XY, XY), LayoutError>((flow.h, flow.widest))
                    && final(self)@ == old(self)@.holding(flow.done),
                Err(e) => res == Err::<(XY, XY), LayoutError>(e),
            },
        decreases weight(old(self)@), 1int,
    {
        broadcast use group_models;

        let mut sub = BoxCursor {
            x: self.size.content.x,
            y: self.size.content.y,
            container: self.size,
        };
        let mut height = XY::new(0);
        let mut widest = XY::new(0);
        let mut i: usize = 0;
        let ghost goal = flowed(Flow::start(self@), in_list);
        proof {
            assert(self@.children.take(0) =~= Seq::<BoxModel>::empty());
            assert(self@.children.skip(0) =~= self@.children);
        }
        while i < self.children.len()
            invariant
                i <= self.children.len(),
                self.kind == old(self).kind,
                self.size == old(self).size,
                self.style == old(self).style,
                goal == flowed(Flow::start(old(self)@), in_list),
                flowed(
                    Flow {
                        done: self@.children.take(i as int),
                        todo: self@.children.skip(i as int),
                        sub,
                        h: height,
                        widest,
                    },
                    in_list,
                ) == goal,
                seq_weight(self@.children.skip(i as int)) < weight(old(self)@),
            decreases seq_weight(self@.children.skip(i as int)),
        {
            let ghost flow = Flow {
                done: self@.children.take(i as int),
                todo: self@.children.skip(i as int),
                sub,
                h: height,
                widest,
            };
            proof {
                lemma_flowed_unfold(flow, in_list);
                assert(flow.todo[0] == self.children@[i as int]@);
                assert(weight(flow.todo[0]) >= 1);
            }
            let name = self.children[i].kind.name();
            let is_break = match self.children[i].kind {
                BoxKind::Break => true,
                _ => false,
            };
            let is_bullet = match self.children[i].kind {
                BoxKind::ListBullet => true,
                _ => false,
            };
            let is_block = match self.children[i].kind {
                BoxKind::Block => true,
                _ => false,
            };
            if in_list && !(is_bullet || is_block) {
                return Err(LayoutError::NotInList(name));
            }
            if !in_list && is_break {
                let _ = self.children.remove(i);
                proof {
                    assert(self@.children.take(i as int) =~= flow.done);
                    assert(self@.children.skip(i as int) =~= flow.todo.drop_first());
                }
                continue ;
            }
            let ghost child = self.children@[i as int]@;
            let res = match self.children[i].layout_generic(&mut sub) {
                Ok(res) => res,
                Err(e) => {
                    return Err(e);
                },
            };
            let ghost l = laid(child, flow.sub)->Ok_0;
            match res {
                LayoutRes::Normal => {},
                LayoutRes::CutHere(next) => {
                    proof {
                        lemma_seq_weight_cons(next@, flow.todo.drop_first());
                    }
                    self.children.insert(i + 1, next);
                },
                LayoutRes::Reject => {
                    return Err(LayoutError::Rejected(name));
                },
            }
            if !(in_list && is_bullet) {
                height = height + self.children[i].size.total_height();
            }
            let width = self.children[i].size.total_width();
            if width.cells() > widest.cells() {
                widest = width;
            }
            i = i + 1;
            proof {
                let next = flow.after(l, !(in_list && child.kind is ListBullet));
                assert(self@.children.take(i as int) =~= next.done);
                assert(self@.children.skip(i as int) =~= next.todo);
            }
        }
        proof {
            assert(self@.children.take(i as int) =~= self@.children);
            lemma_flowed_unfold(
                Flow {
                    done: self@.children.take(i as int),
                    todo: self@.children.skip(i as int),
                    sub,
                    h: height,
                    widest,
                },
                in_list,
            );
        }
        Ok((height, widest))
    }

    /// Lays out a line: one row of inline content.
    fn layout_inline_container(&mut self, cursor: &mut BoxCursor) -> (res: Result<
        LayoutRes<DomBox>,
        LayoutError,
    >)
        requires
            old(self)@.kind is InlineContainer,
        ensures
            agrees(
                line_result(
                    old(self)@.open_line(*old(cursor)),
                    *old(cursor),
                    lined(
                        old(self)@.open_line(*old(cursor)),
                        Line::start(old(self)@.open_line(*old(cursor))),
                        false,
                    ),
                ),
                res,
                final(self)@,
                *final(cursor),
            ),
            res is Ok ==> lighter(old(self)@, final(self)@, res->Ok_0@),
        decreases weight(old(self)@), 2int,
    {
        self.set_origin(cursor);
        self.size.content.w = content_width(cursor.container.content.w, &self.size.border);
        self.size.content.h = XY::new(1);
        let res = match self.inline_children_loop(false) {
            Ok(res) => res,
            Err(e) => {
                return Err(e);
            },
        };
        cursor.y = cursor.y + self.size.total_height();
        Ok(res)
    }

    /// Lays out a piece of inline content: a text or an inline group. Where
    /// it is split, what is handed back is to be inserted right behind it.
    fn layout_inline(&mut self, cursor: &mut BoxCursor) -> (res: Result<
        LayoutRes<DomBox>,
        LayoutError,
    >)
        requires
            old(self)@.kind is Text || old(self)@.kind is Inline,
        ensures
            agrees(
                match old(self)@.kind {
                    KindModel::Text(text) => Ok(laid_text(old(self)@, *old(cursor), text)),
                    _ => group_result(
                        old(self)@.open_inline(*old(cursor)),
                        *old(cursor),
                        lined(
                            old(self)@.open_inline(*old(cursor)),
                            Line::start(old(self)@.open_inline(*old(cursor))),
                            true,
                        ),
                    ),
                },
                res,
                final(self)@,
                *final(cursor),
            ),
            res is Ok ==> lighter(old(self)@, final(self)@, res->Ok_0@),
        decreases weight(old(self)@), 2int,
    {
        self.set_origin(cursor);
        self.size.content.h = XY::new(1);
        self.size.content.w = cursor.columns_left() - (self.size.border.left
            + self.size.border.right);
        let is_text = match self.kind {
            BoxKind::Text(_) => true,
            _ => false,
        };
        let res = if is_text {
            self.fit_text()
        } else {
            match self.inline_children_loop(true) {
                Ok(res) => res,
                Err(e) => {
                    return Err(e);
                },
            }
        };
        cursor.x = cursor.x + self.size.content.w;
        Ok(res)
    }

    /// Fits the text of a text box into the width that the box has: the box
    /// takes the width of its text, or keeps the part of it that fits.
    fn fit_text(&mut self) -> (res: LayoutRes<DomBox>)
        requires
            old(self)@.kind is Text,
        ensures
            ({
                let text = old(self)@.kind->Text_0;
                let room = old(self).size.content.w;
                if room.0 == 0 {
                    res@ is Reject && final(self)@ == old(self)@
                } else if text.len() == 0 {
                    res@ is Normal && final(self)@ == old(self)@.widened(XY(0))
                } else if text_cells(text) <= room.0 {
                    res@ is Normal && final(self)@ == old(self)@.widened(
                        XY(text_cells(text) as u16),
                    )
                } else {
                    let at = split_point(text, room);
                    &&& final(self)@ == (BoxModel {
                        kind: KindModel::Text(text.take(at)),
                        ..old(self)@
                    })
                    &&& res@ == Outcome::Cut(
                        BoxModel {
                            kind: KindModel::Text(text.skip(at)),
                            children: Seq::empty(),
                            ..old(self)@
                        },
                    )
                }
            }),
            lighter(old(self)@, final(self)@, res@),
    {
        broadcast use group_models;

        let room = self.size.content.w;
        if room.cells() == 0 {
            return LayoutRes::Reject;
        }
        let size = self.size;
        let style = self.style;
        match &mut self.kind {
            BoxKind::Text(text) => {
                match measure(text.as_str(), room.cells()) {
                    Some(width) => {
                        self.size.content.w = XY::new(width);
                        LayoutRes::Normal
                    },
                    None => {
                        let pos = findsplit(text.as_str(), room.cells());
                        let remains = split_at_in_place(text, pos);
                        let rest = DomBox {
                            kind: BoxKind::Text(remains),
                            size,
                            style,
                            children: Vec::new(),
                        };
                        assert(rest@.children =~= Seq::<BoxModel>::empty());
                        assert(seq_weight(rest@.children) == 0);
                        LayoutRes::CutHere(rest)
                    },
                }
            },
            _ => LayoutRes::Normal,
        }
    }

    /// The sibling that goes on where this box is cut: a box of the same
    /// kind, size and style that takes the children from index `at` on.
    fn cut_off(&mut self, at: usize) -> (rest: DomBox)
        requires
            at <= old(self).children@.len(),
        ensures
            final(self)@ == old(self)@.holding(old(self)@.children.take(at as int)),
            rest@ == old(self)@.remainder(old(self)@.children.skip(at as int)),
    {
        broadcast use group_models;

        let children = self.children.split_off(at);
        let rest = DomBox { kind: self.kind.duplicate(), size: self.size, style: self.style, children };
        assert(self@.children =~= old(self)@.children.take(at as int));
        assert(rest@.children =~= old(self)@.children.skip(at as int));
        rest
    }

    /// Takes the width that the cursor has moved across the content.
    fn take_width(&mut self, sub: &BoxCursor)
        ensures
            final(self)@ == old(self)@.widened(sub.x.minus(old(self).size.content.x)),
    {
        self.size.content.w = sub.x - self.size.content.x;
    }

    /// Lays out the children of a line or an inline group, one beside the
    /// other, as far as they fit.
    fn inline_children_loop(&mut self, dorej: bool) -> (res: Result<LayoutRes<DomBox>, LayoutError>)
        ensures
            match lined(old(self)@, Line::start(old(self)@), dorej) {
                Ok(end) => res is Ok && res->Ok_0@ == end.out && final(self)@ == close_line(
                    old(self)@,
                    end,
                ),
                Err(e) => res == Err::<LayoutRes<DomBox>, LayoutError>(e),
            },
            res is Ok ==> lighter(old(self)@, final(self)@, res->Ok_0@),
        decreases weight(old(self)@), 1int,
    {
        broadcast use group_models;

        let mut sub = BoxCursor {
            x: self.size.content.x,
            y: self.size.content.y,
            container: self.size,
        };
        let mut i: usize = 0;
        let ghost goal = lined(old(self)@, Line::start(old(self)@), dorej);
        proof {
            assert(self@.children.take(0) =~= Seq::<BoxModel>::empty());
            assert(self@.children.skip(0) =~= self@.children);
        }
        while i < self.children.len()
            invariant
                i <= self.children.len(),
                self.kind == old(self).kind,
                self.size == old(self).size,
                self.style == old(self).style,
                self.children@.len() == old(self).children@.len(),
                goal == lined(old(self)@, Line::start(old(self)@), dorej),
                lined(
                    old(self)@,
                    Line {
                        done: self@.children.take(i as int),
                        todo: self@.children.skip(i as int),
                        sub,
                    },
                    dorej,
                ) == goal,
                self@.children.skip(i as int) == old(self)@.children.skip(i as int),
            decreases self.children.len() - i,
        {
            let ghost line = Line {
                done: self@.children.take(i as int),
                todo: self@.children.skip(i as int),
                sub,
            };
            let ghost before = self@;
            proof {
                lemma_lined_unfold(old(self)@, line, dorej);
                assert(line.todo[0] == self.children@[i as int]@);
                lemma_seq_weight_split(old(self)@.children, i as int);
                lemma_seq_weight_split(before.children, i as int);
                lemma_seq_weight_cons(line.todo[0], line.todo.drop_first());
                assert(line.todo =~= seq![line.todo[0]] + line.todo.drop_first());
            }
            let is_break = match self.children[i].kind {
                BoxKind::Break => true,
                _ => false,
            };
            if is_break {
                let _ = self.children.remove(i);
                proof {
                    assert(self@.children.take(i as int) =~= line.done);
                    assert(self@.children.skip(i as int) =~= line.todo.drop_first());
                }
                let rest = self.cut_off(i);
                self.take_width(&sub);
                return Ok(LayoutRes::CutHere(rest));
            }
            let name = self.children[i].kind.name();
            let ghost child = self.children@[i as int]@;
            let res = match self.children[i].layout_generic(&mut sub) {
                Ok(res) => res,
                Err(e) => {
                    return Err(e);
                },
            };
            let ghost l = laid(child, line.sub)->Ok_0;
            proof {
                assert(self@.children.take(i as int) =~= line.done);
                assert(self@.children.skip(i as int) =~= seq![l.b] + line.todo.drop_first());
                lemma_seq_weight_cons(l.b, line.todo.drop_first());
            }
            match res {
                LayoutRes::Normal => {
                    proof {
                        assert(self@.children.take(i + 1) =~= line.done.push(l.b));
                        assert(self@.children.skip(i + 1) =~= line.todo.drop_first());
                        assert(old(self)@.children.skip(i + 1) =~= old(self)@.children.skip(
                            i as int,
                        ).drop_first());
                    }
                },
                LayoutRes::CutHere(next) => {
                    proof {
                        lemma_seq_weight_cons(next@, line.todo.drop_first());
                    }
                    self.children.insert(i + 1, next);
                    proof {
                        assert(self@.children.take(i + 1) =~= line.done.push(l.b));
                        assert(self@.children.skip(i + 1) =~= seq![next@]
                            + line.todo.drop_first());
                    }
                    let rest = self.cut_off(i + 1);
                    self.take_width(&sub);
                    return Ok(LayoutRes::CutHere(rest));
                },
                LayoutRes::Reject => {
                    if i == 0 {
                        if dorej {
                            proof {
                                assert(self@.children =~= seq![l.b] + line.todo.drop_first());
                                assert(old(self)@.children =~= line.todo);
                            }
                            self.take_width(&sub);
                            return Ok(LayoutRes::Reject);
                        } else {
                            return Err(LayoutError::RejectedFirst(name));
                        }
                    } else {
                        proof {
                            let ahead = old(self)@.children.take(i as int);
                            assert(weight(ahead[0]) >= 1);
                            assert(seq_weight(ahead) >= 1);
                        }
                        let rest = self.cut_off(i);
                        self.take_width(&sub);
                        return Ok(LayoutRes::CutHere(rest));
                    }
                },
            }
            i = i + 1;
        }
        proof {
            assert(self@.children.take(i as int) =~= self@.children);
            lemma_lined_unfold(
                old(self)@,
                Line {
                    done: self@.children.take(i as int),
                    todo: self@.children.skip(i as int),
                    sub,
                },
                dorej,
            );
        }
        self.take_width(&sub);
        Ok(LayoutRes::Normal)
    }
}

} // verus!
