use md_ansi::ansi_renderer::Ctx;
use md_ansi::dombox::{BoxKind, DomBox, XY};
use md_ansi::event::{Event, Tag};
use md_ansi::dombox::{BoxSize, Edges, Rect};
use md_ansi::layout::{content_width, BoxCursor, KindName, LayoutError};

fn text(s: &str) -> Event {
    Event::Text(s.to_string())
}

fn laid(events: Vec<Event>, width: u16) -> DomBox {
    let mut ctx = Ctx::new(&events);
    let mut root = ctx.build(XY::new(width));
    root.try_layout().unwrap();
    root
}

fn paragraph(s: &str) -> Vec<Event> {
    vec![Event::Start(Tag::Paragraph), text(s), Event::End(Tag::Paragraph)]
}

fn texts(b: &DomBox, out: &mut Vec<String>) {
    if let BoxKind::Text(t) = &b.kind {
        out.push(t.clone());
    }
    for c in &b.children {
        texts(c, out);
    }
}

fn all_texts(b: &DomBox) -> Vec<String> {
    let mut out = Vec::new();
    texts(b, &mut out);
    out
}

fn has_break(b: &DomBox) -> bool {
    matches!(b.kind, BoxKind::Break) || b.children.iter().any(has_break)
}

fn contained(b: &DomBox) -> bool {
    if matches!(b.kind, BoxKind::Text(_)) {
        return true;
    }
    b.children.iter().all(|c| {
        let outer = c.size.content.w.cells() as u32
            + c.size.border.left.cells() as u32
            + c.size.border.right.cells() as u32;
        outer <= b.size.content.w.cells() as u32 && contained(c)
    })
}

fn lines_are_one_row(b: &DomBox) -> bool {
    (!matches!(b.kind, BoxKind::InlineContainer) || b.size.content.h == XY::new(1))
        && b.children.iter().all(lines_are_one_row)
}

#[test]
fn short_paragraph() {
    let root = laid(paragraph("hello"), 20);
    let para = &root.children[0];
    assert_eq!(para.size.content.x, XY::new(0));
    assert_eq!(para.size.content.y, XY::new(0));
    assert_eq!(para.size.content.w, XY::new(5));
    assert_eq!(para.size.content.h, XY::new(1));
    let line = &para.children[0];
    assert_eq!(line.size.content.w, XY::new(5));
    assert_eq!(line.size.content.h, XY::new(1));
    let word = &line.children[0];
    assert_eq!(word.size.content.w, XY::new(5));
    assert_eq!(word.size.content.h, XY::new(1));
    assert_eq!(root.size.content.w, XY::new(5));
    assert_eq!(root.size.content.h, XY::new(2));
    assert_eq!(root.children[1].size.content.y, XY::new(2));
    assert_eq!(root.children[1].size.content.h, XY::new(0));
}

#[test]
fn long_word_is_split_over_rows() {
    let word = "abcdefghijklmnopqrstuvwxyzABCDEFGHIJKLMN";
    let root = laid(paragraph(word), 10);
    let para = &root.children[0];
    assert_eq!(para.children.len(), 4);
    assert_eq!(all_texts(para), vec!["abcdefghij", "klmnopqrst", "uvwxyzABCD", "EFGHIJKLMN"]);
    for (row, line) in para.children.iter().enumerate() {
        assert!(matches!(line.kind, BoxKind::InlineContainer));
        assert_eq!(line.size.content.y, XY::new(row as u16));
        assert_eq!(line.size.content.h, XY::new(1));
        assert_eq!(line.size.content.w, XY::new(10));
        assert_eq!(line.children.len(), 1);
        assert_eq!(line.children[0].size.content.w, XY::new(10));
    }
    assert_eq!(para.size.content.h, XY::new(4));
    assert_eq!(root.size.content.h, XY::new(5));
    assert_eq!(all_texts(para).concat(), word);
}

#[test]
fn split_keeps_grapheme_clusters_whole() {
    let word = "e\u{301}e\u{301}e\u{301}e\u{301}e\u{301}";
    let root = laid(paragraph(word), 2);
    let pieces = all_texts(&root.children[0]);
    assert_eq!(pieces, vec!["e\u{301}e\u{301}", "e\u{301}e\u{301}", "e\u{301}"]);
    assert_eq!(pieces.concat(), word);
    let wide = "漢字かな交";
    let root = laid(paragraph(wide), 5);
    let pieces = all_texts(&root.children[0]);
    assert_eq!(pieces, vec!["漢字", "かな", "交"]);
    assert_eq!(root.children[0].children[0].size.content.w, XY::new(5));
    assert_eq!(root.children[0].children[2].size.content.w, XY::new(2));
}

#[test]
fn a_wide_cluster_is_placed_where_nothing_fits() {
    let root = laid(paragraph("漢字"), 1);
    let pieces = all_texts(&root.children[0]);
    assert_eq!(pieces, vec!["漢", "字", ""]);
    assert_eq!(root.children[0].children.len(), 3);
}

#[test]
fn zero_width_root_still_gets_a_column() {
    let root = laid(paragraph("ab"), 0);
    assert_eq!(all_texts(&root.children[0]), vec!["a", "b"]);
    assert_eq!(root.children[0].size.content.w, XY::new(1));
}

#[test]
fn forced_break_starts_a_new_line() {
    let root = laid(
        vec![Event::Start(Tag::Paragraph), text("one"), Event::HardBreak, text("two"), Event::SoftBreak, text("3"), Event::End(Tag::Paragraph)],
        20,
    );
    let para = &root.children[0];
    assert_eq!(para.children.len(), 3);
    assert_eq!(all_texts(para), vec!["one", "two", "3"]);
    assert_eq!(para.size.content.h, XY::new(3));
    assert_eq!(para.children[1].size.content.y, XY::new(1));
    assert!(!has_break(&root));
}

#[test]
fn break_inside_an_inline_group_cuts_the_group() {
    let root = laid(
        vec![
            Event::Start(Tag::Paragraph),
            text("x"),
            Event::Start(Tag::Emphasis),
            text("a"),
            Event::HardBreak,
            text("b"),
            Event::End(Tag::Emphasis),
            text("y"),
            Event::End(Tag::Paragraph),
        ],
        20,
    );
    let para = &root.children[0];
    assert_eq!(para.children.len(), 2);
    let first = &para.children[0];
    let second = &para.children[1];
    assert_eq!(all_texts(first), vec!["x", "a"]);
    assert_eq!(all_texts(second), vec!["b", "y"]);
    assert!(matches!(second.children[0].kind, BoxKind::Inline));
    assert!(second.children[0].style.italic);
    assert_eq!(first.size.content.w, XY::new(2));
    assert_eq!(second.children[1].size.content.x, XY::new(1));
    assert!(!has_break(&root));
}

#[test]
fn a_group_that_does_not_fit_goes_to_the_next_line() {
    let root = laid(
        vec![
            Event::Start(Tag::Paragraph),
            text("abc"),
            Event::Start(Tag::Strong),
            text("de"),
            Event::End(Tag::Strong),
            Event::End(Tag::Paragraph),
        ],
        3,
    );
    let para = &root.children[0];
    assert_eq!(para.children.len(), 2);
    assert_eq!(all_texts(&para.children[0]), vec!["abc"]);
    assert_eq!(all_texts(&para.children[1]), vec!["de"]);
    assert!(matches!(para.children[1].children[0].kind, BoxKind::Inline));
    assert_eq!(para.children[1].children[0].size.content.x, XY::new(0));
    assert_eq!(para.children[1].children[0].size.content.w, XY::new(2));
}

#[test]
fn bullets_stand_beside_their_items() {
    let mut events = vec![Event::Start(Tag::List(Some(9)))];
    for item in ["nine", "ten"] {
        events.push(Event::Start(Tag::Item));
        events.push(text(item));
        events.push(Event::End(Tag::Item));
    }
    events.push(Event::End(Tag::List(Some(9))));
    let root = laid(events, 20);
    let list = &root.children[0];
    assert_eq!(list.size.content.w, XY::new(20));
    assert_eq!(list.size.content.h, XY::new(2));
    let (b0, i0, b1, i1) = (&list.children[0], &list.children[1], &list.children[2], &list.children[3]);
    assert_eq!((b0.size.content.x, b0.size.content.y, b0.size.content.w), (XY::new(0), XY::new(0), XY::new(1)));
    assert_eq!((i0.size.content.x, i0.size.content.y, i0.size.content.w), (XY::new(2), XY::new(0), XY::new(4)));
    assert_eq!((b1.size.content.x, b1.size.content.y, b1.size.content.w), (XY::new(0), XY::new(1), XY::new(2)));
    assert_eq!((i1.size.content.x, i1.size.content.y, i1.size.content.w), (XY::new(3), XY::new(1), XY::new(3)));
    assert_eq!(root.size.content.h, XY::new(3));
}

#[test]
fn heading_frame() {
    let root = laid(vec![Event::Start(Tag::Heading(1)), text("Title"), Event::End(Tag::Heading(1))], 10);
    let head = &root.children[0];
    assert_eq!(head.size.content.x, XY::new(1));
    assert_eq!(head.size.content.y, XY::new(1));
    assert_eq!(head.size.content.w, XY::new(5));
    assert_eq!(head.size.content.h, XY::new(1));
    assert_eq!(root.size.content.w, XY::new(7));
    assert_eq!(root.size.content.h, XY::new(3));
}

#[test]
fn rule_extends() {
    let root = laid(vec![Event::Rule], 12);
    let rule = &root.children[0];
    assert_eq!(rule.size.content.w, XY::new(12));
    assert_eq!(rule.size.content.h, XY::new(0));
    assert_eq!(root.size.content.w, XY::new(12));
    assert_eq!(root.size.content.h, XY::new(1));
}

fn document() -> Vec<Event> {
    let mut events = vec![Event::Start(Tag::Heading(1)), text("A title"), Event::End(Tag::Heading(1))];
    events.extend(vec![
        Event::Start(Tag::Paragraph),
        text("Some words that will not fit on one line "),
        Event::Start(Tag::Strong),
        text("and some strong ones"),
        Event::SoftBreak,
        text("broken"),
        Event::End(Tag::Strong),
        Event::HardBreak,
        text("more"),
        Event::End(Tag::Paragraph),
        Event::Start(Tag::BlockQuote),
        Event::Start(Tag::Paragraph),
        text("a quotation of some length"),
        Event::End(Tag::Paragraph),
        Event::End(Tag::BlockQuote),
        Event::Start(Tag::List(None)),
        Event::Start(Tag::Item),
        text("first item with a long text"),
        Event::Start(Tag::List(Some(1))),
        Event::Start(Tag::Item),
        text("inner"),
        Event::End(Tag::Item),
        Event::End(Tag::List(Some(1))),
        Event::End(Tag::Item),
        Event::End(Tag::List(None)),
        Event::Start(Tag::CodeBlock(None)),
        text("code line one\n"),
        text("code line two\n"),
        Event::End(Tag::CodeBlock(None)),
        Event::Rule,
    ]);
    events
}

#[test]
fn no_break_is_left() {
    for width in [1u16, 2, 3, 5, 8, 13, 20, 40, 80, 200] {
        let events = document();
        let mut ctx = Ctx::new(&events);
        let mut root = ctx.build(XY::new(width));
        assert!(has_break(&root));
        root.try_layout().unwrap();
        assert!(!has_break(&root), "width {}", width);
        assert!(lines_are_one_row(&root));
    }
}

#[test]
fn boxes_stay_within_their_parents() {
    for width in [12u16, 20, 40, 80, 200] {
        let root = laid(document(), width);
        assert!(contained(&root), "width {}", width);
        assert!(root.size.content.w.cells() <= width);
    }
}

#[test]
fn a_frame_that_takes_all_the_width_overflows() {
    let root = laid(vec![Event::Start(Tag::Heading(1)), text("Title"), Event::End(Tag::Heading(1))], 2);
    let head = &root.children[0];
    assert_eq!(head.size.content.w, XY::new(1));
    assert_eq!(head.size.total_width(), XY::new(3));
    assert_eq!(root.size.content.w, XY::new(3));
}

#[test]
fn text_is_kept_by_layout() {
    for width in [1u16, 4, 7, 30] {
        let events = document();
        let mut ctx = Ctx::new(&events);
        let mut root = ctx.build(XY::new(width));
        let before = all_texts(&root).concat();
        root.try_layout().unwrap();
        assert_eq!(all_texts(&root).concat(), before);
    }
}

#[test]
fn layout_of_a_good_tree() {
    let events = paragraph("hello world");
    let mut ctx = Ctx::new(&events);
    let mut root = ctx.build(XY::new(6));
    root.layout();
    assert_eq!(all_texts(&root), vec!["hello ", "world"]);
    assert_eq!(root.size.content.h, XY::new(3));
}

#[test]
fn a_break_at_the_root_fails() {
    let mut root = DomBox::new_root(XY::new(10));
    root.kind = BoxKind::Break;
    assert_eq!(root.try_layout(), Err(LayoutError::StrayBreak));
}

#[test]
fn kinds_without_layout_fail() {
    let kinds = [
        (BoxKind::Table, KindName::Table),
        (BoxKind::TableColumn, KindName::TableColumn),
        (BoxKind::TableItem, KindName::TableItem),
        (BoxKind::Image, KindName::Image),
    ];
    for (kind, name) in kinds {
        let mut root = DomBox::new_root(XY::new(10));
        let child = root.add_block();
        child.kind = kind;
        assert_eq!(root.try_layout(), Err(LayoutError::Unsupported(name)));
    }
}

#[test]
fn a_list_takes_bullets_and_blocks_only() {
    let mut root = DomBox::new_root(XY::new(10));
    {
        let list = root.add_list(None);
        list.add_bullet();
        list.add_block();
        list.add_header(2);
    }
    assert_eq!(root.try_layout(), Err(LayoutError::NotInList(KindName::Header)));
    let mut root = DomBox::new_root(XY::new(10));
    root.add_list(None).add_break();
    assert_eq!(root.try_layout(), Err(LayoutError::NotInList(KindName::Break)));
    let mut root = DomBox::new_root(XY::new(10));
    root.add_list(None).add_text("x".to_string());
    assert_eq!(root.try_layout(), Err(LayoutError::NotInList(KindName::InlineContainer)));
}

#[test]
fn a_rejected_child_of_a_block_fails() {
    let mut root = DomBox::new_root(XY::new(3));
    {
        let child = root.add_block();
        child.kind = BoxKind::Text("x".to_string());
        child.size.border.left = XY::new(5);
    }
    assert_eq!(root.try_layout(), Err(LayoutError::Rejected(KindName::Text)));
}

#[test]
fn a_rejected_first_piece_of_a_line_fails() {
    let mut root = DomBox::new_root(XY::new(3));
    {
        let word = root.add_text("x".to_string());
        word.size.border.right = XY::new(3);
    }
    assert_eq!(root.try_layout(), Err(LayoutError::RejectedFirst(KindName::Text)));
    let mut root = DomBox::new_root(XY::new(3));
    {
        let group = root.add_inline();
        group.size.border.left = XY::new(4);
        group.add_text("x".to_string());
    }
    assert_eq!(root.try_layout(), Err(LayoutError::RejectedFirst(KindName::Inline)));
}

#[test]
fn a_root_that_is_cut_drops_what_remains() {
    let mut root = DomBox::new_root(XY::new(3));
    root.kind = BoxKind::Text("abcdef".to_string());
    assert_eq!(root.try_layout(), Ok(()));
    assert!(matches!(&root.kind, BoxKind::Text(t) if t == "abc"));
    assert_eq!(root.size.content.w, XY::new(3));
    let mut root = DomBox::new_root(XY::new(0));
    root.kind = BoxKind::Text("abcdef".to_string());
    assert_eq!(root.try_layout(), Ok(()));
    assert!(matches!(&root.kind, BoxKind::Text(t) if t == "abcdef"));
}

#[test]
fn kind_names() {
    assert_eq!(BoxKind::Text("a".to_string()).name(), KindName::Text);
    assert_eq!(BoxKind::Header(3).name(), KindName::Header);
    assert_eq!(BoxKind::List(None).name(), KindName::List);
    assert_eq!(BoxKind::InlineContainer.name(), KindName::InlineContainer);
    assert_eq!(BoxKind::ListBullet.name(), KindName::ListBullet);
}

#[test]
fn cursor_as_text() {
    let container = BoxSize {
        content: Rect { x: XY::new(1), y: XY::new(2), w: XY::new(30), h: XY::new(4) },
        border: Edges { top: XY::new(5), bottom: XY::new(6), left: XY::new(7), right: XY::new(8) },
    };
    let cursor = BoxCursor { container, x: XY::new(9), y: XY::new(10) };
    assert_eq!(cursor.describe(), "[9 10] [1 2 +30 +4] [+5 +7 -6 -8]");
    let origin = BoxCursor { container: BoxSize::default(), x: XY::new(0), y: XY::new(0) };
    assert_eq!(origin.describe(), "[0 0] [0 0 +0 +0] [+0 +0 -0 -0]");
}

#[test]
fn room_at_the_cursor() {
    let container = BoxSize {
        content: Rect { x: XY::new(3), y: XY::new(0), w: XY::new(20), h: XY::new(0) },
        border: Edges::default(),
    };
    let at = |x: u16| BoxCursor { container, x: XY::new(x), y: XY::new(0) };
    assert_eq!(at(3).columns_left(), XY::new(20));
    assert_eq!(at(10).columns_left(), XY::new(13));
    assert_eq!(at(23).columns_left(), XY::new(0));
    assert_eq!(at(40).columns_left(), XY::new(0));
    assert_eq!(at(0).columns_left(), XY::new(20));
}

#[test]
fn content_width_leaves_the_borders() {
    let mut border = Edges::default();
    assert_eq!(content_width(XY::new(10), &border), XY::new(10));
    assert_eq!(content_width(XY::new(0), &border), XY::new(1));
    border.left = XY::new(2);
    border.right = XY::new(3);
    assert_eq!(content_width(XY::new(10), &border), XY::new(5));
    assert_eq!(content_width(XY::new(6), &border), XY::new(1));
    assert_eq!(content_width(XY::new(5), &border), XY::new(1));
    assert_eq!(content_width(XY::new(2), &border), XY::new(1));
}

#[test]
fn an_empty_text_takes_no_column() {
    let root = laid(paragraph(""), 5);
    let word = &root.children[0].children[0].children[0];
    assert!(matches!(&word.kind, BoxKind::Text(t) if t.is_empty()));
    assert_eq!(word.size.content.w, XY::new(0));
    assert_eq!(root.children[0].children.len(), 1);
}
