use md_ansi::ansi_renderer::{render_events, Ctx};
use md_ansi::dombox::{BorderType, BoxKind, DomBox, XY};
use md_ansi::event::{Event, Tag};
use md_ansi::OutputKind;

fn text(s: &str) -> Event {
    Event::Text(s.to_string())
}

fn rows(events: &Vec<Event>, width: u16) -> Vec<String> {
    let out = render_events(events, XY::new(width), OutputKind::Plain).unwrap();
    out.lines().map(|l| l.to_string()).collect()
}

fn texts(b: &DomBox, out: &mut Vec<String>) {
    if let BoxKind::Text(t) = &b.kind {
        out.push(t.clone());
    }
    for c in &b.children {
        texts(c, out);
    }
}

fn count_rejected(result: Result<(), md_ansi::layout::LayoutError>) -> usize {
    match result {
        Err(md_ansi::layout::LayoutError::Rejected(_)) => 1,
        _ => 0,
    }
}

#[test]
fn top_heading_in_a_frame() {
    let events = vec![Event::Start(Tag::Heading(1)), text("Title"), Event::End(Tag::Heading(1))];
    let mut ctx = Ctx::new(&events);
    let mut root = ctx.build(XY::new(10));
    let headers: Vec<&DomBox> =
        root.children.iter().filter(|c| matches!(c.kind, BoxKind::Header(_))).collect();
    assert_eq!(headers.len(), 1);
    assert!(matches!(headers[0].kind, BoxKind::Header(1)));
    assert_eq!(headers[0].style.border_type, BorderType::Thin);
    let mut content = Vec::new();
    texts(headers[0], &mut content);
    assert_eq!(content, vec!["Title"]);
    assert_eq!(headers[0].size.border.bottom, XY::new(1));
    root.try_layout().unwrap();
    let out = root.render(OutputKind::Plain);
    let rows: Vec<&str> = out.lines().collect();
    assert_eq!(rows, vec!["┌─────┐", "│Title│", "└─────┘"]);
    assert_eq!(rows.len(), 3);
}

#[test]
fn long_word_over_four_rows() {
    let word = "0123456789012345678901234567890123456789";
    assert_eq!(word.len(), 40);
    let events = vec![Event::Start(Tag::Paragraph), text(word), Event::End(Tag::Paragraph)];
    let mut ctx = Ctx::new(&events);
    let mut root = ctx.build(XY::new(10));
    let result = root.try_layout();
    assert_eq!(count_rejected(result), 0);
    assert_eq!(result, Ok(()));
    let mut fragments = Vec::new();
    texts(&root, &mut fragments);
    assert_eq!(fragments, vec!["0123456789", "0123456789", "0123456789", "0123456789"]);
    let para = &root.children[0];
    assert_eq!(para.children.len(), 4);
    for (row, line) in para.children.iter().enumerate() {
        assert_eq!(line.size.content.y, XY::new(row as u16));
        assert!(line.children[0].size.content.w <= XY::new(10));
    }
    assert_eq!(
        rows(&events, 10),
        vec!["0123456789", "0123456789", "0123456789", "0123456789", "          "]
    );
}

#[test]
fn ordered_list_rows() {
    let mut events = vec![Event::Start(Tag::List(Some(1)))];
    for item in ["a", "b", "c"] {
        events.push(Event::Start(Tag::Item));
        events.push(text(item));
        events.push(Event::End(Tag::Item));
    }
    events.push(Event::End(Tag::List(Some(1))));
    let rows = rows(&events, 20);
    assert_eq!(rows.len(), 4);
    assert_eq!(rows[0].trim_end(), "1 a");
    assert_eq!(rows[1].trim_end(), "2 b");
    assert_eq!(rows[2].trim_end(), "3 c");
    assert!(rows[0].starts_with("1 ") && rows[1].starts_with("2 ") && rows[2].starts_with("3 "));
    assert_eq!(rows[3].trim_end(), "");
    for row in &rows {
        assert_eq!(row.chars().count(), 20);
    }
}

#[test]
fn hard_break_makes_two_rows() {
    let events = vec![
        Event::Start(Tag::Paragraph),
        text("first half"),
        Event::HardBreak,
        text("second"),
        Event::End(Tag::Paragraph),
    ];
    assert_eq!(rows(&events, 30), vec!["first half", "second    ", "          "]);
}
