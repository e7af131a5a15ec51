//! What holds of every tree that has been laid out.

use crate::dombox::{BoxModel, KindModel, XY};
use crate::layout::{
    close_block, close_line, close_list, flowed, flows, laid, laid_text, layout_of,
    lemma_flowed_unfold, lemma_laid_unfold, lemma_lined_unfold, lined, root_cursor, seq_weight,
    weight, BoxCursor, Flow, Line, LineEnd, Outcome,
};
use vstd::prelude::*;

verus! {

/// Whether no forced end of line stands in the tree.
pub open spec fn break_free(b: BoxModel) -> bool
    decreases b,
{
    &&& !(b.kind is Break)
    &&& forall|i: int| 0 <= i < b.children.len() ==> break_free(#[trigger] b.children[i])
}

/// Whether no forced end of line stands below a text box. The layout does
/// not look at what a text box holds, so a break there would stay.
pub open spec fn text_clean(b: BoxModel) -> bool
    decreases b,
{
    if b.kind is Text {
        forall|i: int| 0 <= i < b.children.len() ==> break_free(#[trigger] b.children[i])
    } else {
        forall|i: int| 0 <= i < b.children.len() ==> text_clean(#[trigger] b.children[i])
    }
}

/// Whether all of some boxes are free of breaks.
pub open spec fn all_break_free(boxes: Seq<BoxModel>) -> bool {
    forall|i: int| 0 <= i < boxes.len() ==> break_free(#[trigger] boxes[i])
}

/// Whether all of some boxes are free of breaks below their text boxes.
pub open spec fn all_text_clean(boxes: Seq<BoxModel>) -> bool {
    forall|i: int| 0 <= i < boxes.len() ==> text_clean(#[trigger] boxes[i])
}

/// A tree without breaks has none below its text boxes.
pub proof fn lemma_break_free_is_clean(b: BoxModel)
    requires
        break_free(b),
    ensures
        text_clean(b),
    decreases b,
{
    if !(b.kind is Text) {
        assert forall|i: int| 0 <= i < b.children.len() implies text_clean(
            #[trigger] b.children[i],
        ) by {
            lemma_break_free_is_clean(b.children[i]);
        }
    }
}

/// Boxes without breaks have none below their text boxes.
pub proof fn lemma_all_break_free_is_clean(boxes: Seq<BoxModel>)
    requires
        all_break_free(boxes),
    ensures
        all_text_clean(boxes),
{
    assert forall|i: int| 0 <= i < boxes.len() implies text_clean(#[trigger] boxes[i]) by {
        lemma_break_free_is_clean(boxes[i]);
    }
}

/// What the layout of a box makes of its breaks: a box that is not rejected
/// is left without any, and neither the box nor what remains of it has one
/// below a text box.
pub open spec fn cleaned(l: crate::layout::Laid) -> bool {
    &&& text_clean(l.b)
    &&& l.out matches Outcome::Cut(rest) ==> text_clean(rest)
    &&& !(l.out is Reject) ==> break_free(l.b)
}

/// The layout of a box takes the breaks out of it.
pub proof fn lemma_laid_clean(b: BoxModel, c: BoxCursor)
    requires
        text_clean(b),
        laid(b, c) is Ok,
    ensures
        cleaned(laid(b, c)->Ok_0),
        !(b.kind is Text || b.kind is Inline) ==> !(laid(b, c)->Ok_0.out is Reject),
    decreases weight(b), 0int,
{
    lemma_laid_unfold(b, c);
    match b.kind {
        KindModel::Block | KindModel::ListBullet | KindModel::Header(_) => {
            let open = b.open_block(c);
            assert(all_text_clean(Flow::start(open).todo));
            lemma_flowed_clean(Flow::start(open), false);
            let flow = flowed(Flow::start(open), false)->Ok_0;
            let l = close_block(open, c, flow);
            assert(l.b.children == flow.done);
            assert(break_free(l.b));
            lemma_break_free_is_clean(l.b);
        },
        KindModel::List(_) => {
            let open = b.open_block(c);
            assert(all_text_clean(Flow::start(open).todo));
            lemma_flowed_clean(Flow::start(open), true);
            let flow = flowed(Flow::start(open), true)->Ok_0;
            let l = close_list(open, c, flow);
            assert(l.b.children == flow.done);
            assert(break_free(l.b));
            lemma_break_free_is_clean(l.b);
        },
        KindModel::InlineContainer => {
            let open = b.open_line(c);
            assert(all_text_clean(Line::start(open).todo));
            lemma_lined_clean(open, Line::start(open), false);
            let end = lined(open, Line::start(open), false)->Ok_0;
            assert(close_line(open, end).children == end.kept);
        },
        KindModel::Inline => {
            let open = b.open_inline(c);
            assert(all_text_clean(Line::start(open).todo));
            lemma_lined_clean(open, Line::start(open), true);
            let end = lined(open, Line::start(open), true)->Ok_0;
            assert(close_line(open, end).children == end.kept);
        },
        KindModel::Text(text) => {
            let l = laid_text(b, c, text);
            assert(l.b.children == b.children);
        },
        _ => {},
    }
}

/// The layout of the children of a block or a list takes the breaks out of
/// them.
pub proof fn lemma_flowed_clean(flow: Flow, in_list: bool)
    requires
        all_break_free(flow.done),
        all_text_clean(flow.todo),
        flowed(flow, in_list) is Ok,
    ensures
        all_break_free(flowed(flow, in_list)->Ok_0.done),
    decreases seq_weight(flow.todo), 1int,
{
    lemma_flowed_unfold(flow, in_list);
    if flow.todo.len() > 0 {
        let child = flow.todo[0];
        assert(weight(child) >= 1);
        assert(text_clean(child));
        assert(all_text_clean(flow.todo.drop_first())) by {
            assert forall|i: int| 0 <= i < flow.todo.drop_first().len() implies text_clean(
                #[trigger] flow.todo.drop_first()[i],
            ) by {
                assert(flow.todo.drop_first()[i] == flow.todo[i + 1]);
            }
        }
        match flows(child.kind, in_list) {
            Err(_) => {},
            Ok(false) => {
                lemma_flowed_clean(flow.skipped(), in_list);
            },
            Ok(true) => {
                match laid(child, flow.sub) {
                    Err(_) => {},
                    Ok(l) => {
                        if !(l.out is Reject) {
                            lemma_laid_clean(child, flow.sub);
                            let next = flow.after(l, !(in_list && child.kind is ListBullet));
                            assert(all_break_free(next.done)) by {
                                assert forall|i: int| 0 <= i < next.done.len() implies break_free(
                                    #[trigger] next.done[i],
                                ) by {
                                    if i < flow.done.len() {
                                        assert(next.done[i] == flow.done[i]);
                                    }
                                }
                            }
                            assert(all_text_clean(next.todo)) by {
                                assert forall|i: int| 0 <= i < next.todo.len() implies text_clean(
                                    #[trigger] next.todo[i],
                                ) by {
                                    if l.out is Cut {
                                        if i > 0 {
                                            assert(next.todo[i] == flow.todo.drop_first()[i - 1]);
                                        }
                                    } else {
                                        assert(next.todo[i] == flow.todo.drop_first()[i]);
                                    }
                                }
                            }
                            if seq_weight(next.todo) < seq_weight(flow.todo) {
                                lemma_flowed_clean(next, in_list);
                            }
                        }
                    },
                }
            },
        }
    }
}

/// What the layout of a line makes of its breaks.
pub open spec fn line_cleaned(end: LineEnd) -> bool {
    &&& all_text_clean(end.kept)
    &&& end.out matches Outcome::Cut(rest) ==> text_clean(rest)
    &&& !(end.out is Reject) ==> all_break_free(end.kept)
}

/// The layout of the children of a line or an inline group takes the breaks
/// out of those that stay on the line.
pub proof fn lemma_lined_clean(b: BoxModel, line: Line, may_reject: bool)
    requires
        !(b.kind is Text),
        all_break_free(line.done),
        all_text_clean(line.todo),
        lined(b, line, may_reject) is Ok,
    ensures
        line_cleaned(lined(b, line, may_reject)->Ok_0),
        !may_reject ==> !(lined(b, line, may_reject)->Ok_0.out is Reject),
    decreases seq_weight(line.todo), 1int,
{
    lemma_lined_unfold(b, line, may_reject);
    lemma_all_break_free_is_clean(line.done);
    if line.todo.len() > 0 {
        let child = line.todo[0];
        let others = line.todo.drop_first();
        assert(weight(child) >= 1);
        assert(text_clean(child));
        assert(all_text_clean(others)) by {
            assert forall|i: int| 0 <= i < others.len() implies text_clean(#[trigger] others[i]) by {
                assert(others[i] == line.todo[i + 1]);
            }
        }
        if child.kind is Break {
            assert(b.remainder(others).children == others);
        } else {
            match laid(child, line.sub) {
                Err(_) => {},
                Ok(l) => {
                    lemma_laid_clean(child, line.sub);
                    match l.out {
                        Outcome::Normal => {
                            let next = line.after(l);
                            assert(all_break_free(next.done)) by {
                                assert forall|i: int| 0 <= i < next.done.len() implies break_free(
                                    #[trigger] next.done[i],
                                ) by {
                                    if i < line.done.len() {
                                        assert(next.done[i] == line.done[i]);
                                    }
                                }
                            }
                            lemma_lined_clean(b, next, may_reject);
                        },
                        Outcome::Cut(rest) => {
                            let end = line.cut(b, l, rest);
                            assert(all_break_free(end.kept)) by {
                                assert forall|i: int| 0 <= i < end.kept.len() implies break_free(
                                    #[trigger] end.kept[i],
                                ) by {
                                    if i < line.done.len() {
                                        assert(end.kept[i] == line.done[i]);
                                    }
                                }
                            }
                            lemma_all_break_free_is_clean(end.kept);
                            let moved = seq![rest] + others;
                            assert(all_text_clean(moved)) by {
                                assert forall|i: int| 0 <= i < moved.len() implies text_clean(
                                    #[trigger] moved[i],
                                ) by {
                                    if i > 0 {
                                        assert(moved[i] == others[i - 1]);
                                    }
                                }
                            }
                            assert(b.remainder(moved).children == moved);
                        },
                        Outcome::Reject => {
                            let moved = seq![l.b] + others;
                            assert(all_text_clean(moved)) by {
                                assert forall|i: int| 0 <= i < moved.len() implies text_clean(
                                    #[trigger] moved[i],
                                ) by {
                                    if i > 0 {
                                        assert(moved[i] == others[i - 1]);
                                    }
                                }
                            }
                            assert(b.remainder(moved).children == moved);
                        },
                    }
                },
            }
        }
    }
}

/// A tree that has been laid out holds no forced end of line any more,
/// given that none stood below a text box before and that the root is not a
/// piece of inline content, which the layout might reject as a whole.
pub proof fn lemma_layout_leaves_no_break(root: BoxModel)
    requires
        text_clean(root),
        !(root.kind is Text || root.kind is Inline),
        layout_of(root) is Ok,
    ensures
        break_free(layout_of(root)->Ok_0),
{
    lemma_laid_clean(root, root_cursor(root));
}

/// The columns that the left and the right border of a box take together.
pub open spec fn side_borders(b: BoxModel) -> XY {
    b.size.border.left.plus(b.size.border.right)
}

/// The width that a box is offered at a cursor: a line is offered the width
/// of its container, any other box the room that is left at the cursor.
pub open spec fn offered(b: BoxModel, c: BoxCursor) -> XY {
    if b.kind is InlineContainer {
        c.container.content.w
    } else {
        c.room()
    }
}

/// Whether the cursor stands within the width of its container.
pub open spec fn within(c: BoxCursor) -> bool {
    c.x.minus(c.container.content.x).0 <= c.container.content.w.0
}

/// Whether the layout of a box at a cursor never runs out of width: the box
/// and every box below it is offered more than its own side borders take,
/// where it is laid out. A piece of inline content may be offered just as
/// much as they take, and then has no width.
pub open spec fn roomy(b: BoxModel, c: BoxCursor) -> bool
    decreases weight(b), 0int,
{
    match b.kind {
        KindModel::Block | KindModel::ListBullet | KindModel::Header(_) => c.room().0
            > side_borders(b).0 && roomy_flow(Flow::start(b.open_block(c)), false),
        KindModel::List(_) => c.room().0 > side_borders(b).0 && roomy_flow(
            Flow::start(b.open_block(c)),
            true,
        ),
        KindModel::InlineContainer => c.container.content.w.0 > side_borders(b).0 && roomy_line(
            b.open_line(c),
            Line::start(b.open_line(c)),
            false,
        ),
        KindModel::Inline => c.room().0 >= side_borders(b).0 && roomy_line(
            b.open_inline(c),
            Line::start(b.open_inline(c)),
            true,
        ),
        KindModel::Text(_) => c.room().0 >= side_borders(b).0,
        _ => true,
    }
}

/// Whether the layout of the children of a block or a list never runs out of
/// width, from the given state on.
pub open spec fn roomy_flow(flow: Flow, in_list: bool) -> bool
    decreases seq_weight(flow.todo), 1int,
{
    if flow.todo.len() == 0 {
        true
    } else {
        let child = flow.todo[0];
        match flows(child.kind, in_list) {
            Err(_) => true,
            Ok(false) => {
                proof {
                    assert(weight(child) >= 1);
                }
                roomy_flow(flow.skipped(), in_list)
            },
            Ok(true) => roomy(child, flow.sub) && match laid(child, flow.sub) {
                Err(_) => true,
                Ok(l) => {
                    let next = flow.after(l, !(in_list && child.kind is ListBullet));
                    l.out is Reject || !(seq_weight(next.todo) < seq_weight(flow.todo))
                        || roomy_flow(next, in_list)
                },
            },
        }
    }
}

/// Whether the layout of the children of a line or an inline group never
/// runs out of width, from the given state on.
pub open spec fn roomy_line(b: BoxModel, line: Line, may_reject: bool) -> bool
    decreases seq_weight(line.todo), 1int,
{
    if line.todo.len() == 0 {
        true
    } else {
        let child = line.todo[0];
        if child.kind is Break {
            true
        } else {
            roomy(child, line.sub) && match laid(child, line.sub) {
                Err(_) => true,
                Ok(l) => {
                    proof {
                        assert(weight(child) >= 1);
                    }
                    l.out is Normal ==> roomy_line(b, line.after(l), may_reject)
                },
            }
        }
    }
}

/// What the layout of a box keeps to where it never runs out of width: the
/// box is no wider, borders included, than what it was offered, and the
/// cursor stays in its container, within the width of it.
pub open spec fn kept_width(b: BoxModel, c: BoxCursor, l: crate::layout::Laid) -> bool {
    &&& l.b.size.outer_width().0 <= offered(b, c).0
    &&& l.c.container == c.container
    &&& within(c) ==> within(l.c)
}

/// Where the layout of a box never runs out of width, the box is no wider
/// than what it was offered.
pub proof fn lemma_laid_contained(b: BoxModel, c: BoxCursor)
    requires
        laid(b, c) is Ok,
        roomy(b, c),
    ensures
        kept_width(b, c, laid(b, c)->Ok_0),
    decreases weight(b), 0int,
{
    lemma_laid_unfold(b, c);
    match b.kind {
        KindModel::Block | KindModel::ListBullet | KindModel::Header(_) => {
            let open = b.open_block(c);
            lemma_flowed_contained(Flow::start(open), false);
        },
        KindModel::List(_) => {
            let open = b.open_block(c);
            lemma_flowed_contained(Flow::start(open), true);
        },
        KindModel::InlineContainer => {
            let open = b.open_line(c);
            lemma_lined_contained(open, Line::start(open), false);
        },
        KindModel::Inline => {
            let open = b.open_inline(c);
            lemma_lined_contained(open, Line::start(open), true);
        },
        _ => {},
    }
}

/// Where the layout of the children of a block or a list never runs out of
/// width, none of them is wider than their container.
pub proof fn lemma_flowed_contained(flow: Flow, in_list: bool)
    requires
        flowed(flow, in_list) is Ok,
        roomy_flow(flow, in_list),
        flow.widest.0 <= flow.sub.container.content.w.0,
    ensures
        flowed(flow, in_list)->Ok_0.widest.0 <= flow.sub.container.content.w.0,
    decreases seq_weight(flow.todo), 1int,
{
    lemma_flowed_unfold(flow, in_list);
    if flow.todo.len() > 0 {
        let child = flow.todo[0];
        assert(weight(child) >= 1);
        match flows(child.kind, in_list) {
            Err(_) => {},
            Ok(false) => {
                lemma_flowed_contained(flow.skipped(), in_list);
            },
            Ok(true) => {
                match laid(child, flow.sub) {
                    Err(_) => {},
                    Ok(l) => {
                        if !(l.out is Reject) {
                            lemma_laid_contained(child, flow.sub);
                            let next = flow.after(l, !(in_list && child.kind is ListBullet));
                            if seq_weight(next.todo) < seq_weight(flow.todo) {
                                lemma_flowed_contained(next, in_list);
                            }
                        }
                    },
                }
            },
        }
    }
}

/// Where the layout of the children of a line or an inline group never runs
/// out of width, the cursor never leaves the width of the line.
pub proof fn lemma_lined_contained(b: BoxModel, line: Line, may_reject: bool)
    requires
        lined(b, line, may_reject) is Ok,
        roomy_line(b, line, may_reject),
        within(line.sub),
    ensures
        within(lined(b, line, may_reject)->Ok_0.sub),
        lined(b, line, may_reject)->Ok_0.sub.container == line.sub.container,
    decreases seq_weight(line.todo), 1int,
{
    lemma_lined_unfold(b, line, may_reject);
    if line.todo.len() > 0 {
        let child = line.todo[0];
        assert(weight(child) >= 1);
        if !(child.kind is Break) {
            match laid(child, line.sub) {
                Err(_) => {},
                Ok(l) => {
                    lemma_laid_contained(child, line.sub);
                    if l.out is Normal {
                        lemma_lined_contained(b, line.after(l), may_reject);
                    }
                },
            }
        }
    }
}

/// Where the layout of a tree never runs out of width, every box of the tree
/// is no wider, borders included, than what its parent offered it where it
/// was laid out: the layout of each box keeps to what the box is offered,
/// and so the root keeps to its own width.
pub proof fn lemma_width_contained(root: BoxModel)
    requires
        layout_of(root) is Ok,
        roomy(root, root_cursor(root)),
    ensures
        layout_of(root)->Ok_0.size.outer_width().0 <= if root.kind is InlineContainer {
            root.size.content.w.0
        } else {
            root.size.content.w.minus(XY(0).minus(root.size.content.x)).0
        },
{
    lemma_laid_contained(root, root_cursor(root));
}

/// Whether every line in the tree is one row high. What a text box holds is
/// not looked at.
pub open spec fn lines_flat(b: BoxModel) -> bool
    decreases b,
{
    &&& b.kind is InlineContainer ==> b.size.content.h == XY(1)
    &&& b.kind is Text || forall|i: int|
        0 <= i < b.children.len() ==> lines_flat(#[trigger] b.children[i])
}

/// Whether every line in some trees is one row high.
pub open spec fn all_lines_flat(boxes: Seq<BoxModel>) -> bool {
    forall|i: int| 0 <= i < boxes.len() ==> lines_flat(#[trigger] boxes[i])
}

/// The layout of a box that is not rejected leaves every line in it one row
/// high, and only a piece of inline content is ever rejected.
pub proof fn lemma_laid_flat(b: BoxModel, c: BoxCursor)
    requires
        laid(b, c) is Ok,
    ensures
        !(laid(b, c)->Ok_0.out is Reject) ==> lines_flat(laid(b, c)->Ok_0.b),
        !(b.kind is Text || b.kind is Inline) ==> !(laid(b, c)->Ok_0.out is Reject),
    decreases weight(b), 0int,
{
    lemma_laid_unfold(b, c);
    match b.kind {
        KindModel::Block | KindModel::ListBullet | KindModel::Header(_) => {
            let open = b.open_block(c);
            lemma_flowed_flat(Flow::start(open), false);
            let flow = flowed(Flow::start(open), false)->Ok_0;
            assert(close_block(open, c, flow).b.children == flow.done);
        },
        KindModel::List(_) => {
            let open = b.open_block(c);
            lemma_flowed_flat(Flow::start(open), true);
            let flow = flowed(Flow::start(open), true)->Ok_0;
            assert(close_list(open, c, flow).b.children == flow.done);
        },
        KindModel::InlineContainer => {
            let open = b.open_line(c);
            lemma_lined_flat(open, Line::start(open), false);
            let end = lined(open, Line::start(open), false)->Ok_0;
            assert(close_line(open, end).children == end.kept);
        },
        KindModel::Inline => {
            let open = b.open_inline(c);
            lemma_lined_flat(open, Line::start(open), true);
            let end = lined(open, Line::start(open), true)->Ok_0;
            assert(close_line(open, end).children == end.kept);
        },
        _ => {},
    }
}

/// The layout of the children of a block or a list leaves every line in
/// them one row high.
pub proof fn lemma_flowed_flat(flow: Flow, in_list: bool)
    requires
        all_lines_flat(flow.done),
        flowed(flow, in_list) is Ok,
    ensures
        all_lines_flat(flowed(flow, in_list)->Ok_0.done),
    decreases seq_weight(flow.todo), 1int,
{
    lemma_flowed_unfold(flow, in_list);
    if flow.todo.len() > 0 {
        let child = flow.todo[0];
        assert(weight(child) >= 1);
        match flows(child.kind, in_list) {
            Err(_) => {},
            Ok(false) => {
                lemma_flowed_flat(flow.skipped(), in_list);
            },
            Ok(true) => {
                match laid(child, flow.sub) {
                    Err(_) => {},
                    Ok(l) => {
                        if !(l.out is Reject) {
                            lemma_laid_flat(child, flow.sub);
                            let next = flow.after(l, !(in_list && child.kind is ListBullet));
                            assert(all_lines_flat(next.done)) by {
                                assert forall|i: int| 0 <= i < next.done.len() implies lines_flat(
                                    #[trigger] next.done[i],
                                ) by {
                                    if i < flow.done.len() {
                                        assert(next.done[i] == flow.done[i]);
                                    }
                                }
                            }
                            if seq_weight(next.todo) < seq_weight(flow.todo) {
                                lemma_flowed_flat(next, in_list);
                            }
                        }
                    },
                }
            },
        }
    }
}

/// The layout of the children of a line or an inline group leaves every
/// line in those that stay one row high, unless the box is rejected.
pub proof fn lemma_lined_flat(b: BoxModel, line: Line, may_reject: bool)
    requires
        all_lines_flat(line.done),
        lined(b, line, may_reject) is Ok,
    ensures
        !(lined(b, line, may_reject)->Ok_0.out is Reject) ==> all_lines_flat(
            lined(b, line, may_reject)->Ok_0.kept,
        ),
        !may_reject ==> !(lined(b, line, may_reject)->Ok_0.out is Reject),
    decreases seq_weight(line.todo), 1int,
{
    lemma_lined_unfold(b, line, may_reject);
    if line.todo.len() > 0 {
        let child = line.todo[0];
        assert(weight(child) >= 1);
        if !(child.kind is Break) {
            match laid(child, line.sub) {
                Err(_) => {},
                Ok(l) => {
                    lemma_laid_flat(child, line.sub);
                    let kept = line.done.push(l.b);
                    if !(l.out is Reject) {
                        assert(all_lines_flat(kept)) by {
                            assert forall|i: int| 0 <= i < kept.len() implies lines_flat(
                                #[trigger] kept[i],
                            ) by {
                                if i < line.done.len() {
                                    assert(kept[i] == line.done[i]);
                                }
                            }
                        }
                    }
                    if l.out is Normal {
                        lemma_lined_flat(b, line.after(l), may_reject);
                    }
                },
            }
        }
    }
}

/// In a tree that has been laid out every line is exactly one row high,
/// given that the root is not a piece of inline content, which the layout
/// might reject as a whole.
pub proof fn lemma_layout_keeps_lines_flat(root: BoxModel)
    requires
        !(root.kind is Text || root.kind is Inline),
        layout_of(root) is Ok,
    ensures
        lines_flat(layout_of(root)->Ok_0),
{
    lemma_laid_flat(root, root_cursor(root));
}

/// Whether no forced end of line stands in the part of the tree that the
/// layout and the renderer look at: the box itself and, unless it is a text
/// box, its children and what they hold.
pub open spec fn swept(b: BoxModel) -> bool
    decreases b,
{
    &&& !(b.kind is Break)
    &&& b.kind is Text || forall|i: int| 0 <= i < b.children.len() ==> swept(#[trigger] b.children[i])
}

/// Whether all of some boxes are free of breaks where they are looked at.
pub open spec fn all_swept(boxes: Seq<BoxModel>) -> bool {
    forall|i: int| 0 <= i < boxes.len() ==> swept(#[trigger] boxes[i])
}

/// Boxes that are free of breaks, and one more that is.
proof fn lemma_all_swept_push(boxes: Seq<BoxModel>, b: BoxModel)
    requires
        all_swept(boxes),
        swept(b),
    ensures
        all_swept(boxes.push(b)),
{
    let all = boxes.push(b);
    assert forall|i: int| 0 <= i < all.len() implies swept(#[trigger] all[i]) by {
        if i < boxes.len() {
            assert(all[i] == boxes[i]);
        }
    }
}

/// The layout of a box that is not rejected takes the breaks out of all
/// that it looks at.
pub proof fn lemma_laid_swept(b: BoxModel, c: BoxCursor)
    requires
        laid(b, c) is Ok,
    ensures
        !(laid(b, c)->Ok_0.out is Reject) ==> swept(laid(b, c)->Ok_0.b),
        !(b.kind is Text || b.kind is Inline) ==> !(laid(b, c)->Ok_0.out is Reject),
    decreases weight(b), 0int,
{
    lemma_laid_unfold(b, c);
    match b.kind {
        KindModel::Block | KindModel::ListBullet | KindModel::Header(_) => {
            let open = b.open_block(c);
            lemma_flowed_swept(Flow::start(open), false);
            let flow = flowed(Flow::start(open), false)->Ok_0;
            assert(close_block(open, c, flow).b.children == flow.done);
        },
        KindModel::List(_) => {
            let open = b.open_block(c);
            lemma_flowed_swept(Flow::start(open), true);
            let flow = flowed(Flow::start(open), true)->Ok_0;
            assert(close_list(open, c, flow).b.children == flow.done);
        },
        KindModel::InlineContainer => {
            let open = b.open_line(c);
            lemma_lined_swept(open, Line::start(open), false);
            let end = lined(open, Line::start(open), false)->Ok_0;
            assert(close_line(open, end).children == end.kept);
        },
        KindModel::Inline => {
            let open = b.open_inline(c);
            lemma_lined_swept(open, Line::start(open), true);
            let end = lined(open, Line::start(open), true)->Ok_0;
            assert(close_line(open, end).children == end.kept);
        },
        _ => {},
    }
}

/// The layout of the children of a block or a list takes the breaks out of
/// all that it looks at.
pub proof fn lemma_flowed_swept(flow: Flow, in_list: bool)
    requires
        all_swept(flow.done),
        flowed(flow, in_list) is Ok,
    ensures
        all_swept(flowed(flow, in_list)->Ok_0.done),
    decreases seq_weight(flow.todo), 1int,
{
    lemma_flowed_unfold(flow, in_list);
    if flow.todo.len() > 0 {
        let child = flow.todo[0];
        assert(weight(child) >= 1);
        match flows(child.kind, in_list) {
            Err(_) => {},
            Ok(false) => {
                lemma_flowed_swept(flow.skipped(), in_list);
            },
            Ok(true) => {
                match laid(child, flow.sub) {
                    Err(_) => {},
                    Ok(l) => {
                        if !(l.out is Reject) {
                            lemma_laid_swept(child, flow.sub);
                            let next = flow.after(l, !(in_list && child.kind is ListBullet));
                            lemma_all_swept_push(flow.done, l.b);
                            if seq_weight(next.todo) < seq_weight(flow.todo) {
                                lemma_flowed_swept(next, in_list);
                            }
                        }
                    },
                }
            },
        }
    }
}

/// The layout of the children of a line or an inline group takes the breaks
/// out of those that stay, unless the box is rejected.
pub proof fn lemma_lined_swept(b: BoxModel, line: Line, may_reject: bool)
    requires
        all_swept(line.done),
        lined(b, line, may_reject) is Ok,
    ensures
        !(lined(b, line, may_reject)->Ok_0.out is Reject) ==> all_swept(
            lined(b, line, may_reject)->Ok_0.kept,
        ),
        !may_reject ==> !(lined(b, line, may_reject)->Ok_0.out is Reject),
    decreases seq_weight(line.todo), 1int,
{
    lemma_lined_unfold(b, line, may_reject);
    if line.todo.len() > 0 {
        let child = line.todo[0];
        assert(weight(child) >= 1);
        if !(child.kind is Break) {
            match laid(child, line.sub) {
                Err(_) => {},
                Ok(l) => {
                    lemma_laid_swept(child, line.sub);
                    if !(l.out is Reject) {
                        lemma_all_swept_push(line.done, l.b);
                    }
                    if l.out is Normal {
                        lemma_lined_swept(b, line.after(l), may_reject);
                    }
                },
            }
        }
    }
}

/// In a tree that has been laid out no forced end of line is left in any
/// box that is reached without passing a text box, whatever the tree held
/// before, given that the root is not a piece of inline content, which the
/// layout might reject as a whole.
pub proof fn lemma_layout_sweeps_breaks(root: BoxModel)
    requires
        !(root.kind is Text || root.kind is Inline),
        layout_of(root) is Ok,
    ensures
        swept(layout_of(root)->Ok_0),
{
    lemma_laid_swept(root, root_cursor(root));
}

/// Whether a box lays out its children one below the other or beside each
/// other in rows: a block, a header, a list bullet or a list.
pub open spec fn stacks(b: BoxModel) -> bool {
    b.kind is Block || b.kind is Header || b.kind is ListBullet || b.kind is List
}

/// Whether none of some boxes is wider, borders included, than `w`.
pub open spec fn all_under(boxes: Seq<BoxModel>, w: XY) -> bool {
    forall|i: int| 0 <= i < boxes.len() ==> (#[trigger] boxes[i]).size.outer_width().0 <= w.0
}

/// Whether every box in the tree holds its children in its width: no child
/// of a block, a header, a list bullet or a list is wider, borders included,
/// than the content of its parent, at every depth. What a text box holds is
/// not looked at.
pub open spec fn holds_children(b: BoxModel) -> bool
    decreases b,
{
    &&& stacks(b) ==> all_under(b.children, b.size.content.w)
    &&& b.kind is Text || forall|i: int|
        0 <= i < b.children.len() ==> holds_children(#[trigger] b.children[i])
}

/// Whether every box in some trees holds its children in its width.
pub open spec fn all_hold(boxes: Seq<BoxModel>) -> bool {
    forall|i: int| 0 <= i < boxes.len() ==> holds_children(#[trigger] boxes[i])
}

/// Boxes that hold their children and are no wider than `w`, and one more
/// such box.
proof fn lemma_all_hold_push(boxes: Seq<BoxModel>, b: BoxModel, before: XY, w: XY)
    requires
        all_hold(boxes),
        all_under(boxes, before),
        before.0 <= w.0,
        holds_children(b),
        b.size.outer_width().0 <= w.0,
    ensures
        all_hold(boxes.push(b)),
        all_under(boxes.push(b), w),
{
    let all = boxes.push(b);
    assert forall|i: int| 0 <= i < all.len() implies holds_children(#[trigger] all[i])
        && all[i].size.outer_width().0 <= w.0 by {
        if i < boxes.len() {
            assert(all[i] == boxes[i]);
        }
    }
}

/// Where the layout of a box never runs out of width and the box is not
/// rejected, every box in it holds its children in its width.
pub proof fn lemma_laid_held(b: BoxModel, c: BoxCursor)
    requires
        laid(b, c) is Ok,
        roomy(b, c),
    ensures
        !(laid(b, c)->Ok_0.out is Reject) ==> holds_children(laid(b, c)->Ok_0.b),
    decreases weight(b), 0int,
{
    lemma_laid_unfold(b, c);
    match b.kind {
        KindModel::Block | KindModel::ListBullet | KindModel::Header(_) => {
            let open = b.open_block(c);
            lemma_flowed_held(Flow::start(open), false);
            let flow = flowed(Flow::start(open), false)->Ok_0;
            let l = close_block(open, c, flow);
            assert(l.b.children == flow.done);
        },
        KindModel::List(_) => {
            let open = b.open_block(c);
            lemma_flowed_held(Flow::start(open), true);
            let flow = flowed(Flow::start(open), true)->Ok_0;
            let l = close_list(open, c, flow);
            assert(l.b.children == flow.done);
        },
        KindModel::InlineContainer => {
            let open = b.open_line(c);
            lemma_lined_held(open, Line::start(open), false);
            let end = lined(open, Line::start(open), false)->Ok_0;
            assert(close_line(open, end).children == end.kept);
        },
        KindModel::Inline => {
            let open = b.open_inline(c);
            lemma_lined_held(open, Line::start(open), true);
            let end = lined(open, Line::start(open), true)->Ok_0;
            assert(close_line(open, end).children == end.kept);
        },
        _ => {},
    }
}

/// Where the layout of the children of a block or a list never runs out of
/// width, each of them holds its own children in its width, and none is
/// wider than the widest so far, which is no wider than their container.
pub proof fn lemma_flowed_held(flow: Flow, in_list: bool)
    requires
        flowed(flow, in_list) is Ok,
        roomy_flow(flow, in_list),
        flow.widest.0 <= flow.sub.container.content.w.0,
        all_hold(flow.done),
        all_under(flow.done, flow.widest),
    ensures
        all_hold(flowed(flow, in_list)->Ok_0.done),
        all_under(flowed(flow, in_list)->Ok_0.done, flowed(flow, in_list)->Ok_0.widest),
        flowed(flow, in_list)->Ok_0.widest.0 <= flow.sub.container.content.w.0,
    decreases seq_weight(flow.todo), 1int,
{
    lemma_flowed_unfold(flow, in_list);
    if flow.todo.len() > 0 {
        let child = flow.todo[0];
        assert(weight(child) >= 1);
        match flows(child.kind, in_list) {
            Err(_) => {},
            Ok(false) => {
                lemma_flowed_held(flow.skipped(), in_list);
            },
            Ok(true) => {
                match laid(child, flow.sub) {
                    Err(_) => {},
                    Ok(l) => {
                        if !(l.out is Reject) {
                            lemma_laid_contained(child, flow.sub);
                            lemma_laid_held(child, flow.sub);
                            let next = flow.after(l, !(in_list && child.kind is ListBullet));
                            lemma_all_hold_push(flow.done, l.b, flow.widest, next.widest);
                            if seq_weight(next.todo) < seq_weight(flow.todo) {
                                lemma_flowed_held(next, in_list);
                            }
                        }
                    },
                }
            },
        }
    }
}

/// Where the layout of the children of a line or an inline group never runs
/// out of width, each of those that stay holds its own children in its
/// width, unless the box is rejected.
pub proof fn lemma_lined_held(b: BoxModel, line: Line, may_reject: bool)
    requires
        lined(b, line, may_reject) is Ok,
        roomy_line(b, line, may_reject),
        all_hold(line.done),
    ensures
        !(lined(b, line, may_reject)->Ok_0.out is Reject) ==> all_hold(
            lined(b, line, may_reject)->Ok_0.kept,
        ),
    decreases seq_weight(line.todo), 1int,
{
    lemma_lined_unfold(b, line, may_reject);
    if line.todo.len() > 0 {
        let child = line.todo[0];
        assert(weight(child) >= 1);
        if !(child.kind is Break) {
            match laid(child, line.sub) {
                Err(_) => {},
                Ok(l) => {
                    lemma_laid_held(child, line.sub);
                    if !(l.out is Reject) {
                        let kept = line.done.push(l.b);
                        assert forall|i: int| 0 <= i < kept.len() implies holds_children(
                            #[trigger] kept[i],
                        ) by {
                            if i < line.done.len() {
                                assert(kept[i] == line.done[i]);
                            }
                        }
                    }
                    if l.out is Normal {
                        lemma_lined_held(b, line.after(l), may_reject);
                    }
                },
            }
        }
    }
}

/// Where the layout of a tree never runs out of width, every box of the
/// laid-out tree that stands in a block, a header, a list bullet or a list
/// is, borders included, no wider than the content of that parent, at every
/// depth. A box on a line keeps to what the line offered it where it was
/// laid out.
pub proof fn lemma_layout_holds_children(root: BoxModel)
    requires
        !(root.kind is Text || root.kind is Inline),
        layout_of(root) is Ok,
        roomy(root, root_cursor(root)),
    ensures
        holds_children(layout_of(root)->Ok_0),
{
    lemma_laid_swept(root, root_cursor(root));
    lemma_laid_held(root, root_cursor(root));
}

/// A box is laid out where the cursor stands: the origin of its content
/// lies behind its left and top borders, and its borders are as they were.
pub proof fn lemma_laid_at_cursor(b: BoxModel, c: BoxCursor)
    requires
        laid(b, c) is Ok,
    ensures
        laid(b, c)->Ok_0.b.size.content.x == c.x.plus(b.size.border.left),
        laid(b, c)->Ok_0.b.size.content.y == c.y.plus(b.size.border.top),
        laid(b, c)->Ok_0.b.size.border == b.size.border,
        laid(b, c)->Ok_0.b.kind is Text <==> b.kind is Text,
        !(b.kind is Text) ==> laid(b, c)->Ok_0.b.kind == b.kind,
        laid(b, c)->Ok_0.b.style == b.style,
{
    lemma_laid_unfold(b, c);
}

/// A list bullet leaves the cursor beside it, on its row; a block, a header
/// and a list leave it below them, and all but the list at the left edge of
/// the container; a line leaves it one row and its borders further down.
pub proof fn lemma_cursor_behind(b: BoxModel, c: BoxCursor)
    requires
        laid(b, c) is Ok,
    ensures
        ({
            let l = laid(b, c)->Ok_0;
            match b.kind {
                KindModel::ListBullet => l.c == c.beside(l.b.size),
                KindModel::Block | KindModel::Header(_) => l.c == c.below(l.b.size),
                KindModel::List(_) | KindModel::InlineContainer => l.c == (BoxCursor {
                    y: c.y.plus(l.b.size.outer_height()),
                    ..c
                }),
                _ => l.c == (BoxCursor { x: l.c.x, ..c }),
            }
        }),
        laid(b, c)->Ok_0.b.kind is InlineContainer ==> laid(b, c)->Ok_0.b.size.content.h == XY(1),
{
    lemma_laid_unfold(b, c);
}

} // verus!
