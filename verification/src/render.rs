//! Rendering the laid-out tree, row by row, as styled runs of text.

use crate::dombox::{
    group_models, BorderType, BoxKind, BoxModel, BoxSize, DomBox, KindModel, TermStyle, XY,
};
use crate::layout::{lemma_seq_weight_cons, seq_weight, weight};
use crate::text::{measure, text_cells};
use crate::OutputKind;
use ansi_term::{ANSIString, ANSIStrings, Colour, Style};
use vstd::prelude::*;

verus! {

/// A run of text in one style.
#[derive(Debug, Clone)]
pub struct Run {
    pub style: TermStyle,
    pub text: String,
}

/// A run as a value.
#[verifier::ext_equal]
pub struct RunModel {
    pub style: TermStyle,
    pub text: Seq<char>,
}

impl View for Run {
    type V = RunModel;

    open spec fn view(&self) -> RunModel {
        RunModel { style: self.style, text: self.text@ }
    }
}

/// The values of a sequence of runs.
pub open spec fn run_models(runs: Seq<Run>) -> Seq<RunModel> {
    Seq::new(runs.len(), |i: int| runs[i]@)
}

/// The text of some runs with the escape codes that show their styles, as a
/// terminal takes it.
pub uninterp spec fn ansi_text(runs: Seq<RunModel>) -> Seq<char>;

/// The text of some runs without their styles.
pub open spec fn plain_text(runs: Seq<RunModel>) -> Seq<char>
    decreases runs.len(),
{
    if runs.len() == 0 {
        Seq::empty()
    } else {
        plain_text(runs.drop_last()) + runs.last().text
    }
}

/// The text that some runs are written out as.
pub open spec fn written(runs: Seq<RunModel>, kind: OutputKind) -> Seq<char> {
    match kind {
        OutputKind::Color => ansi_text(runs),
        OutputKind::Plain => plain_text(runs),
    }
}

/// A text of `n` times the same character.
pub open spec fn repeated(c: char, n: nat) -> Seq<char> {
    Seq::new(n, |i: int| c)
}

/// The glyph that a horizontal border is drawn with.
pub open spec fn line_glyph(border: BorderType) -> char {
    match border {
        BorderType::Empty => ' ',
        BorderType::Dash => '╌',
        BorderType::Thin => '─',
        BorderType::Double => '═',
        BorderType::Bold => '━',
    }
}

/// The glyph that a vertical border is drawn with.
pub open spec fn side_glyph(border: BorderType) -> char {
    match border {
        BorderType::Empty => ' ',
        BorderType::Dash => '╎',
        BorderType::Thin => '│',
        BorderType::Double => '║',
        BorderType::Bold => '┃',
    }
}

/// The glyph in a corner of a box.
pub open spec fn corner_glyph(top: bool, left: bool) -> char {
    if top {
        if left {
            '┌'
        } else {
            '┐'
        }
    } else {
        if left {
            '└'
        } else {
            '┘'
        }
    }
}

/// What a box adds to a row: its runs, the column where they start, and the
/// columns they take. A box that takes no column of the row adds a length of
/// zero.
pub struct Strip {
    pub runs: Seq<RunModel>,
    pub start: XY,
    pub len: XY,
}

impl BoxSize {
    /// Whether the row lies in the box, borders included.
    pub open spec fn has_row(self, line: XY) -> bool {
        !(line.0 < self.content.y.minus(self.border.top).0 || line.0 >= self.content.y.plus(
            self.content.h,
        ).plus(self.border.bottom).0)
    }

    /// Whether the row lies in the content of the box.
    pub open spec fn has_content_row(self, line: XY) -> bool {
        !(line.0 < self.content.y.0 || line.0 >= self.content.y.plus(self.content.h).0)
    }

    /// The column where the box starts, borders included.
    pub open spec fn left_edge(self) -> XY {
        self.content.x.minus(self.border.left)
    }

    /// The column behind the content of the box.
    pub open spec fn content_end(self) -> XY {
        self.content.x.plus(self.content.w)
    }
}

impl BoxModel {
    /// A run in the style of this box.
    pub open spec fn run(self, text: Seq<char>) -> RunModel {
        RunModel { style: self.style.term_style(), text }
    }

    /// The text of a border row of this box: corners over the side borders,
    /// and the border line over the content.
    pub open spec fn border_text(self, top: bool) -> Seq<char> {
        repeated(corner_glyph(top, true), self.size.border.left.0 as nat) + repeated(
            line_glyph(self.style.border_type),
            self.size.content.w.0 as nat,
        ) + repeated(corner_glyph(top, false), self.size.border.right.0 as nat)
    }

    /// The run that a side border of this box is on a content row.
    pub open spec fn side_run(self, left: bool) -> RunModel {
        self.run(
            repeated(
                side_glyph(self.style.border_type),
                (if left {
                    self.size.border.left
                } else {
                    self.size.border.right
                }).0 as nat,
            ),
        )
    }

    /// A run of `n` blanks in the style of this box.
    pub open spec fn blanks(self, n: XY) -> RunModel {
        self.run(repeated(' ', n.0 as nat))
    }

    /// The blanks that fill the row from `pos` to the end of the content, if
    /// there is a gap.
    pub open spec fn filler(self, pos: XY) -> Seq<RunModel> {
        if pos.0 < self.size.content_end().0 {
            seq![self.blanks(self.size.content_end().minus(pos))]
        } else {
            Seq::empty()
        }
    }

    /// The strip of a row of this box, given its runs.
    pub open spec fn strip(self, runs: Seq<RunModel>) -> Strip {
        Strip { runs, start: self.size.left_edge(), len: self.size.outer_width() }
    }
}

/// The columns that a text box moves the place in its row by.
pub open spec fn text_advance(text: Seq<char>) -> XY {
    XY(
        if text_cells(text) > u16::MAX {
            u16::MAX
        } else {
            text_cells(text) as u16
        },
    )
}

/// The row of a box once the strip of a child has been added to it at
/// `pos`: a gap before the child is filled with blanks, and the place moves
/// behind the child. A child that takes no column leaves the place as it is.
pub open spec fn joined(owner: BoxModel, pos: XY, child: Strip) -> (Seq<RunModel>, XY) {
    if child.len.0 == 0 {
        (child.runs, pos)
    } else if child.start.0 > pos.0 {
        (seq![owner.blanks(child.start.minus(pos))] + child.runs, child.start.plus(child.len))
    } else {
        (child.runs, child.start.plus(child.len))
    }
}

/// What the box adds to the row `line`.
///
/// Outside its rows it adds nothing. On a row of its top or bottom border it
/// adds the border. On a row of its content it adds its left border, then
/// its text or what its children add, each at its own column, then blanks up
/// to the end of its content, then its right border.
#[verifier::opaque]
pub open spec fn rendered(b: BoxModel, line: XY) -> Strip
    decreases weight(b), 0int,
{
    if !b.size.has_row(line) {
        Strip { runs: Seq::empty(), start: XY(0), len: XY(0) }
    } else if !b.size.has_content_row(line) {
        b.strip(seq![b.run(b.border_text(line.0 < b.size.content.y.0))])
    } else {
        let (middle, pos) = match b.kind {
            KindModel::Text(text) => (seq![b.run(text)], b.size.content.x.plus(text_advance(text))),
            _ => row_of(b, b.children, line, b.size.content.x),
        };
        b.strip(seq![b.side_run(true)] + middle + b.filler(pos) + seq![b.side_run(false)])
    }
}

/// What some children of `owner` add to the row `line` from the column
/// `pos` on, and the column behind them.
#[verifier::opaque]
pub open spec fn row_of(owner: BoxModel, children: Seq<BoxModel>, line: XY, pos: XY) -> (
    Seq<RunModel>,
    XY,
)
    decreases seq_weight(children), 1int,
{
    if children.len() == 0 {
        (Seq::empty(), pos)
    } else {
        let (runs, behind) = joined(owner, pos, rendered(children[0], line));
        proof {
            assert(weight(children[0]) >= 1);
        }
        let (others, end) = row_of(owner, children.drop_first(), line, behind);
        (runs + others, end)
    }
}

/// The run that ends a row.
pub open spec fn newline() -> RunModel {
    RunModel { style: TermStyle::plain(), text: seq!['\n'] }
}

/// The first `count` rows of a tree, each ended by a newline.
pub open spec fn rows(root: BoxModel, count: nat) -> Seq<RunModel>
    decreases count,
{
    if count == 0 {
        Seq::empty()
    } else {
        rows(root, (count - 1) as nat) + rendered(root, XY((count - 1) as u16)).runs + seq![
            newline(),
        ]
    }
}

/// All the rows of a tree: as many as the root is high, borders included.
pub open spec fn page(root: BoxModel) -> Seq<RunModel> {
    rows(root, root.size.outer_height().0 as nat)
}

/// What a box adds to a row, by the place of the row in the box.
pub proof fn lemma_rendered_unfold(b: BoxModel, line: XY)
    ensures
        rendered(b, line) == (if !b.size.has_row(line) {
            Strip { runs: Seq::empty(), start: XY(0), len: XY(0) }
        } else if !b.size.has_content_row(line) {
            b.strip(seq![b.run(b.border_text(line.0 < b.size.content.y.0))])
        } else {
            let (middle, pos) = match b.kind {
                KindModel::Text(text) => (
                    seq![b.run(text)],
                    b.size.content.x.plus(text_advance(text)),
                ),
                _ => row_of(b, b.children, line, b.size.content.x),
            };
            b.strip(seq![b.side_run(true)] + middle + b.filler(pos) + seq![b.side_run(false)])
        }),
{
    reveal_with_fuel(rendered, 1);
    reveal_with_fuel(row_of, 1);
}

/// What some children add to a row, by the first of them.
pub proof fn lemma_row_of_unfold(owner: BoxModel, children: Seq<BoxModel>, line: XY, pos: XY)
    ensures
        row_of(owner, children, line, pos) == (if children.len() == 0 {
            (Seq::<RunModel>::empty(), pos)
        } else {
            let (runs, behind) = joined(owner, pos, rendered(children[0], line));
            let (others, end) = row_of(owner, children.drop_first(), line, behind);
            (runs + others, end)
        }),
{
    reveal_with_fuel(rendered, 1);
    reveal_with_fuel(row_of, 1);
}

/// The text of the runs with the escape codes of their styles.
///
/// Calls the `Display` of ansi_term's `ANSIStrings` on the runs, each
/// painted in its style; between two runs it writes only the codes that
/// change the style of the first into that of the second. The result is
/// named `ansi_text`.
#[verifier::external_body]
fn paint(runs: &Vec<Run>) -> (text: String)
    ensures
        text@ == ansi_text(run_models(runs@)),
{
    let strings: Vec<ANSIString> = runs.iter().map(
        |run|
            Style {
                foreground: run.style.foreground.map(Colour::Fixed),
                background: run.style.background.map(Colour::Fixed),
                is_bold: run.style.is_bold,
                is_underline: run.style.is_underline,
                is_strikethrough: run.style.is_strikethrough,
                is_italic: run.style.is_italic,
                ..Style::default()
            }.paint(run.text.as_str()),
    ).collect();
    ANSIStrings(&strings).to_string()
}

/// Appends a character to a string.
///
/// Calls `String::push`, which std documents to append the character to the
/// end of the string.
#[verifier::external_body]
fn push_char(text: &mut String, c: char)
    ensures
        final(text)@ == old(text)@.push(c),
{
    text.push(c)
}

/// A text of `n` times the character `c`.
pub fn repeat(c: char, n: u16) -> (text: String)
    ensures
        text@ == repeated(c, n as nat),
{
    let mut text = String::new();
    let mut i: u16 = 0;
    while i < n
        invariant
            i <= n,
            text@ == repeated(c, i as nat),
        decreases n - i,
    {
        push_char(&mut text, c);
        i = i + 1;
        assert(text@ =~= repeated(c, i as nat));
    }
    text
}

/// The glyph that a horizontal border is drawn with.
pub fn line_char(border: BorderType) -> (c: char)
    ensures
        c == line_glyph(border),
{
    match border {
        BorderType::Empty => ' ',
        BorderType::Dash => '╌',
        BorderType::Thin => '─',
        BorderType::Double => '═',
        BorderType::Bold => '━',
    }
}

/// The glyph that a vertical border is drawn with.
pub fn side_char(border: BorderType) -> (c: char)
    ensures
        c == side_glyph(border),
{
    match border {
        BorderType::Empty => ' ',
        BorderType::Dash => '╎',
        BorderType::Thin => '│',
        BorderType::Double => '║',
        BorderType::Bold => '┃',
    }
}

/// The glyph in a corner of a box.
pub fn corner_char(top: bool, left: bool) -> (c: char)
    ensures
        c == corner_glyph(top, left),
{
    if top {
        if left {
            '┌'
        } else {
            '┐'
        }
    } else {
        if left {
            '└'
        } else {
            '┘'
        }
    }
}

/// The text of some runs without their styles.
pub fn unstyled(runs: &Vec<Run>) -> (text: String)
    ensures
        text@ == plain_text(run_models(runs@)),
{
    let ghost all = run_models(runs@);
    let mut text = String::new();
    let mut i: usize = 0;
    while i < runs.len()
        invariant
            i <= runs.len(),
            all == run_models(runs@),
            text@ == plain_text(all.take(i as int)),
        decreases runs.len() - i,
    {
        text.append(runs[i].text.as_str());
        proof {
            assert(all.take(i + 1).drop_last() =~= all.take(i as int));
            assert(all.take(i + 1).last() == runs@[i as int]@);
        }
        i = i + 1;
    }
    proof {
        assert(all.take(i as int) =~= all);
    }
    text
}

impl DomBox {
    /// A run in the style of this box.
    fn styled_run(&self, text: String) -> (run: Run)
        ensures
            run@ == self@.run(text@),
    {
        Run { style: self.style.to_ansi(), text }
    }

    /// Appends a row of the top or bottom border of this box.
    fn render_borderline(&self, line: XY, strings: &mut Vec<Run>) -> (at: (XY, XY))
        ensures
            run_models(final(strings)@) == run_models(old(strings)@).push(
                self@.run(self@.border_text(line.0 < self.size.content.y.0)),
            ),
            at == (self.size.left_edge(), self.size.outer_width()),
    {
        let is_top = line.cells() < self.size.content.y.cells();
        let mut s = repeat(corner_char(is_top, true), self.size.border.left.cells());
        s.append(repeat(line_char(self.style.border_type), self.size.content.w.cells()).as_str());
        s.append(repeat(corner_char(is_top, false), self.size.border.right.cells()).as_str());
        let run = self.styled_run(s);
        strings.push(run);
        assert(run_models(strings@) =~= run_models(old(strings)@).push(run@));
        (self.size.content.x - self.size.border.left, self.size.total_width())
    }

    /// Appends the left or the right border of this box on a content row.
    fn render_borderside(&self, is_left: bool, strings: &mut Vec<Run>)
        ensures
            run_models(final(strings)@) == run_models(old(strings)@).push(self@.side_run(is_left)),
    {
        let width = if is_left {
            self.size.border.left
        } else {
            self.size.border.right
        };
        let s = repeat(side_char(self.style.border_type), width.cells());
        let run = self.styled_run(s);
        strings.push(run);
        assert(run_models(strings@) =~= run_models(old(strings)@).push(run@));
    }

    /// Adds `n` times the character `c` in the style of this box: at the
    /// index `insert` where one is given, else at the end.
    fn render_charline(&self, c: char, n: XY, insert: Option<usize>, strings: &mut Vec<Run>)
        requires
            insert matches Some(at) ==> at <= old(strings)@.len(),
        ensures
            run_models(final(strings)@) == (match insert {
                Some(at) => run_models(old(strings)@).insert(
                    at as int,
                    self@.run(repeated(c, n.0 as nat)),
                ),
                None => run_models(old(strings)@).push(self@.run(repeated(c, n.0 as nat))),
            }),
    {
        let s = repeat(c, n.cells());
        let run = self.styled_run(s);
        if let Some(at) = insert {
            strings.insert(at, run);
            assert(run_models(strings@) =~= run_models(old(strings)@).insert(at as int, run@));
        } else {
            strings.push(run);
            assert(run_models(strings@) =~= run_models(old(strings)@).push(run@));
        }
    }

    /// Appends what the children of this box add to the row `line`, and
    /// gives the column behind them.
    fn render_children(&self, line: XY, strings: &mut Vec<Run>) -> (end: XY)
        ensures
            run_models(final(strings)@) == run_models(old(strings)@) + row_of(
                self@,
                self@.children,
                line,
                self.size.content.x,
            ).0,
            end == row_of(self@, self@.children, line, self.size.content.x).1,
        decreases weight(self@), 0int,
    {
        broadcast use group_models;

        let ghost base = run_models(strings@);
        let ghost goal = row_of(self@, self@.children, line, self.size.content.x);
        let mut pos = self.size.content.x;
        let mut i: usize = 0;
        proof {
            assert(self@.children.skip(0) =~= self@.children);
            assert(base + goal.0 =~= run_models(strings@) + goal.0);
        }
        while i < self.children.len()
            invariant
                i <= self.children.len(),
                base == run_models(old(strings)@),
                goal == row_of(self@, self@.children, line, self.size.content.x),
                run_models(strings@) + row_of(self@, self@.children.skip(i as int), line, pos).0
                    == base + goal.0,
                row_of(self@, self@.children.skip(i as int), line, pos).1 == goal.1,
            decreases self.children.len() - i,
        {
            let ghost rest = self@.children.skip(i as int);
            let ghost so_far = run_models(strings@);
            let ghost from = pos;
            proof {
                lemma_row_of_unfold(self@, rest, line, pos);
                assert(rest[0] == self.children@[i as int]@);
                assert(rest.drop_first() =~= self@.children.skip(i + 1));
                crate::layout::lemma_seq_weight_split(self@.children, i as int);
                lemma_seq_weight_cons(rest[0], rest.drop_first());
                assert(rest =~= seq![rest[0]] + rest.drop_first());
            }
            let insert_point = strings.len();
            let (start, len) = self.children[i].render_line(line, strings);
            let ghost child = rendered(rest[0], line);
            assert(run_models(strings@).len() == so_far.len() + child.runs.len());
            if len.cells() != 0 {
                if start.cells() > pos.cells() {
                    self.render_charline(' ', start - pos, Some(insert_point), strings);
                    assert(run_models(strings@) =~= so_far + (seq![self@.blanks(start.minus(pos))]
                        + child.runs));
                }
                pos = start + len;
            }
            proof {
                let (runs, behind) = joined(self@, from, child);
                let (others, end) = row_of(self@, rest.drop_first(), line, behind);
                assert(run_models(strings@) =~= so_far + runs);
                assert(run_models(strings@) + others =~= so_far + (runs + others));
            }
            i = i + 1;
        }
        proof {
            lemma_row_of_unfold(self@, self@.children.skip(i as int), line, pos);
            assert(run_models(strings@) + Seq::<RunModel>::empty() =~= run_models(strings@));
        }
        pos
    }

    /// Appends what this box adds to the row `line`, and gives the column
    /// where that starts and the columns it takes.
    pub fn render_line(&self, line: XY, strings: &mut Vec<Run>) -> (at: (XY, XY))
        ensures
            run_models(final(strings)@) == run_models(old(strings)@) + rendered(self@, line).runs,
            at == (rendered(self@, line).start, rendered(self@, line).len),
        decreases weight(self@), 1int,
    {
        proof {
            lemma_rendered_unfold(self@, line);
        }
        if line.cells() < (self.size.content.y - self.size.border.top).cells() || line.cells() >= (
        self.size.content.y + self.size.content.h + self.size.border.bottom).cells() {
            assert(run_models(strings@) + Seq::<RunModel>::empty() =~= run_models(strings@));
            return (XY::new(0), XY::new(0));
        }
        if line.cells() < self.size.content.y.cells() || line.cells() >= (self.size.content.y
            + self.size.content.h).cells() {
            let at = self.render_borderline(line, strings);
            proof {
                let run = self@.run(self@.border_text(line.0 < self.size.content.y.0));
                assert(run_models(old(strings)@).push(run) =~= run_models(old(strings)@) + seq![
                    run,
                ]);
            }
            return at;
        }
        self.render_borderside(true, strings);
        let ghost sided = run_models(strings@);
        let pos = match &self.kind {
            BoxKind::Text(text) => {
                let run = self.styled_run(text.clone());
                strings.push(run);
                assert(run_models(strings@) =~= sided + seq![run@]);
                let incr = match measure(text.as_str(), u16::MAX) {
                    Some(cells) => XY::new(cells),
                    None => XY::new(u16::MAX),
                };
                self.size.content.x + incr
            },
            _ => self.render_children(line, strings),
        };
        let ghost filled = run_models(strings@);
        let end = self.size.content.x + self.size.content.w;
        if pos.cells() < end.cells() {
            self.render_charline(' ', end - pos, None, strings);
        }
        assert(run_models(strings@) =~= filled + self@.filler(pos));
        self.render_borderside(false, strings);
        proof {
            let left = seq![self@.side_run(true)];
            let right = seq![self@.side_run(false)];
            let middle = match self@.kind {
                KindModel::Text(text) => seq![self@.run(text)],
                _ => row_of(self@, self@.children, line, self.size.content.x).0,
            };
            assert(sided =~= run_models(old(strings)@) + left);
            assert(filled =~= sided + middle);
            assert(run_models(strings@) =~= run_models(old(strings)@) + (left + middle
                + self@.filler(pos) + right));
        }
        (self.size.content.x - self.size.border.left, self.size.total_width())
    }

    /// The runs of all the rows of the tree, top to bottom, each row ended
    /// by a newline.
    pub fn render_runs(&self) -> (runs: Vec<Run>)
        ensures
            run_models(runs@) == page(self@),
    {
        let mut strings: Vec<Run> = Vec::new();
        let total = self.size.total_height().cells();
        let mut line: u16 = 0;
        assert(run_models(strings@) =~= rows(self@, 0));
        while line < total
            invariant
                line <= total,
                run_models(strings@) == rows(self@, line as nat),
            decreases total - line,
        {
            let ghost so_far = run_models(strings@);
            let _ = self.render_line(XY::new(line), &mut strings);
            proof {
                reveal_strlit("\n");
            }
            let end = Run { style: TermStyle::new(), text: "\n".to_owned() };
            assert(end@.text =~= seq!['\n']);
            strings.push(end);
            assert(run_models(strings@) =~= so_far + rendered(self@, XY(line)).runs + seq![
                newline(),
            ]);
            line = line + 1;
        }
        strings
    }

    /// The text of all the rows of the tree as a terminal takes it.
    pub fn render(&self, kind: OutputKind) -> (text: String)
        ensures
            text@ == written(page(self@), kind),
    {
        let runs = self.render_runs();
        match kind {
            OutputKind::Color => paint(&runs),
            OutputKind::Plain => unstyled(&runs),
        }
    }
}

} // verus!
