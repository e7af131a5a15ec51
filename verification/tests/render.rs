use md_ansi::ansi_renderer::{render_events, Ctx};
use md_ansi::dombox::{BorderType, DomBox, TermStyle, XY};
use md_ansi::event::{Event, Tag};
use md_ansi::layout::LayoutError;
use md_ansi::render::{corner_char, line_char, side_char, unstyled, Run};
use md_ansi::OutputKind;

fn text(s: &str) -> Event {
    Event::Text(s.to_string())
}

fn plain(events: Vec<Event>, width: u16) -> Vec<String> {
    let out = render_events(&events, XY::new(width), OutputKind::Plain).unwrap();
    assert!(out.is_empty() || out.ends_with('\n'));
    out.lines().map(|l| l.to_string()).collect()
}

fn color(events: Vec<Event>, width: u16) -> String {
    render_events(&events, XY::new(width), OutputKind::Color).unwrap()
}

fn heading(level: u8, s: &str) -> Vec<Event> {
    vec![Event::Start(Tag::Heading(level)), text(s), Event::End(Tag::Heading(level))]
}

#[test]
fn glyphs() {
    assert_eq!(line_char(BorderType::Empty), ' ');
    assert_eq!(line_char(BorderType::Dash), '╌');
    assert_eq!(line_char(BorderType::Thin), '─');
    assert_eq!(line_char(BorderType::Double), '═');
    assert_eq!(line_char(BorderType::Bold), '━');
    assert_eq!(side_char(BorderType::Empty), ' ');
    assert_eq!(side_char(BorderType::Dash), '╎');
    assert_eq!(side_char(BorderType::Thin), '│');
    assert_eq!(side_char(BorderType::Double), '║');
    assert_eq!(side_char(BorderType::Bold), '┃');
    assert_eq!(corner_char(true, true), '┌');
    assert_eq!(corner_char(true, false), '┐');
    assert_eq!(corner_char(false, true), '└');
    assert_eq!(corner_char(false, false), '┘');
}

#[test]
fn empty_document_has_no_rows() {
    assert_eq!(render_events(&vec![], XY::new(10), OutputKind::Plain), Ok(String::new()));
    assert_eq!(render_events(&vec![], XY::new(10), OutputKind::Color), Ok(String::new()));
}

#[test]
fn heading_lines() {
    assert_eq!(plain(heading(1, "Title"), 10), vec!["┌─────┐", "│Title│", "└─────┘"]);
    assert_eq!(plain(heading(2, "Two"), 10), vec!["Two", "━━━"]);
    assert_eq!(plain(heading(3, "Three"), 10), vec!["Three", "═════"]);
    assert_eq!(plain(heading(4, "Four"), 10), vec!["Four", "────"]);
    assert_eq!(plain(heading(5, "Five"), 10), vec!["Five", "╌╌╌╌"]);
    assert_eq!(plain(heading(6, "Six"), 10), vec!["Six", "   "]);
}

#[test]
fn paragraph_rows_are_padded() {
    let rows = plain(
        vec![
            Event::Start(Tag::Paragraph),
            text("hello "),
            Event::Start(Tag::Strong),
            text("bold"),
            Event::End(Tag::Strong),
            text(" world and more words"),
            Event::End(Tag::Paragraph),
            Event::Start(Tag::Paragraph),
            text("second"),
            Event::End(Tag::Paragraph),
        ],
        12,
    );
    assert_eq!(
        rows,
        vec!["hello bold w", "orld and mor", "e words     ", "            ", "second      ", "            "]
    );
}

#[test]
fn quote_and_rule() {
    let rows = plain(
        vec![
            Event::Start(Tag::BlockQuote),
            Event::Start(Tag::Paragraph),
            text("quoted"),
            Event::End(Tag::Paragraph),
            Event::End(Tag::BlockQuote),
            Event::Rule,
        ],
        12,
    );
    assert_eq!(rows, vec!["│quoted     ", "│           ", "            ", "────────────"]);
}

#[test]
fn nested_lists() {
    let rows = plain(
        vec![
            Event::Start(Tag::List(None)),
            Event::Start(Tag::Item),
            text("outer"),
            Event::Start(Tag::List(Some(9))),
            Event::Start(Tag::Item),
            text("nine"),
            Event::End(Tag::Item),
            Event::Start(Tag::Item),
            text("ten"),
            Event::End(Tag::Item),
            Event::End(Tag::List(Some(9))),
            Event::End(Tag::Item),
            Event::End(Tag::List(None)),
        ],
        20,
    );
    assert_eq!(
        rows,
        vec![
            "* outer             ",
            "  9 nine            ",
            "  10 ten            ",
            "                    ",
            "                    ",
        ]
    );
}

#[test]
fn wide_text_rows() {
    let rows = plain(vec![Event::Start(Tag::Paragraph), text("漢字かな交じり文"), Event::End(Tag::Paragraph)], 5);
    assert_eq!(rows, vec!["漢字 ", "かな ", "交じ ", "り文 ", "     "]);
}

#[test]
fn colour_codes() {
    let out = color(
        vec![
            Event::Start(Tag::Paragraph),
            text("hello "),
            Event::Start(Tag::Strong),
            text("bold"),
            Event::End(Tag::Strong),
            Event::End(Tag::Paragraph),
        ],
        20,
    );
    assert_eq!(out, "hello \u{1b}[1mbold\u{1b}[0m\n          \n");
    let out = color(heading(2, "Two"), 10);
    assert_eq!(out, "\u{1b}[38;5;5mTwo\u{1b}[0m\n\u{1b}[38;5;5m━━━\u{1b}[0m\n");
}

#[test]
fn colour_and_plain_show_the_same_text() {
    let events = vec![
        Event::Start(Tag::Paragraph),
        Event::Start(Tag::Emphasis),
        text("slanted"),
        Event::End(Tag::Emphasis),
        Event::Start(Tag::Strikethrough),
        text("gone"),
        Event::End(Tag::Strikethrough),
        Event::Start(Tag::Link("d".to_string())),
        text("link"),
        Event::End(Tag::Link("d".to_string())),
        Event::End(Tag::Paragraph),
    ];
    let plain_out = render_events(&events, XY::new(30), OutputKind::Plain).unwrap();
    let colour_out = render_events(&events, XY::new(30), OutputKind::Color).unwrap();
    assert!(!plain_out.contains('\u{1b}'));
    assert!(colour_out.contains("\u{1b}[3m"));
    assert!(colour_out.contains("\u{1b}[9m") || colour_out.contains(";9m") || colour_out.contains("[9;"));
    assert!(colour_out.contains("38;5;4"));
    let mut stripped = String::new();
    let mut rest = colour_out.as_str();
    while let Some(at) = rest.find('\u{1b}') {
        stripped.push_str(&rest[..at]);
        let end = rest[at..].find('m').unwrap();
        rest = &rest[at + end + 1..];
    }
    stripped.push_str(rest);
    assert_eq!(stripped, plain_out);
}

#[test]
fn runs_of_a_row() {
    let events = vec![Event::Start(Tag::Heading(1)), text("Hi"), Event::End(Tag::Heading(1))];
    let mut ctx = Ctx::new(&events);
    let mut root = ctx.build(XY::new(10));
    root.try_layout().unwrap();
    let head_style = root.children[0].style.to_ansi();
    assert_eq!(head_style.foreground, Some(5));
    let mut runs: Vec<Run> = Vec::new();
    let at = root.children[0].render_line(XY::new(0), &mut runs);
    assert_eq!(at, (XY::new(0), XY::new(4)));
    assert_eq!(runs.len(), 1);
    assert_eq!(runs[0].text, "┌──┐");
    assert_eq!(runs[0].style, head_style);
    let mut runs: Vec<Run> = Vec::new();
    let at = root.children[0].render_line(XY::new(1), &mut runs);
    assert_eq!(at, (XY::new(0), XY::new(4)));
    let shown: Vec<&str> = runs.iter().map(|r| r.text.as_str()).collect();
    assert_eq!(shown, vec!["│", "", "", "Hi", "", "", "│"]);
    let mut runs: Vec<Run> = Vec::new();
    let at = root.children[0].render_line(XY::new(3), &mut runs);
    assert_eq!(at, (XY::new(0), XY::new(0)));
    assert!(runs.is_empty());
    let all = root.render_runs();
    let newlines = all.iter().filter(|r| r.text == "\n").count();
    assert_eq!(newlines, 3);
    assert_eq!(all.last().unwrap().style, TermStyle::new());
    assert_eq!(unstyled(&all), "┌──┐\n│Hi│\n└──┘\n");
    assert_eq!(root.render(OutputKind::Plain), "┌──┐\n│Hi│\n└──┘\n");
}

#[test]
fn gaps_between_children_are_filled() {
    let mut root = DomBox::new_root(XY::new(10));
    {
        let list = root.add_list(None);
        let bullet = list.add_bullet();
        bullet.size.border.right = XY::new(3);
        bullet.add_text("*".to_string());
        list.add_block().add_text("item".to_string());
    }
    root.style.extend = true;
    root.try_layout().unwrap();
    assert_eq!(root.render(OutputKind::Plain), "*   item  \n");
    {
        let item = &mut root.children[0].children[1];
        item.size.content.x = XY::new(6);
        item.children[0].size.content.x = XY::new(6);
        item.children[0].children[0].size.content.x = XY::new(6);
    }
    assert_eq!(root.render(OutputKind::Plain), "*     item\n");
}

#[test]
fn a_tree_that_cannot_be_laid_out_is_not_rendered() {
    let events = vec![Event::Start(Tag::List(None)), Event::Start(Tag::Heading(2))];
    assert_eq!(
        render_events(&events, XY::new(10), OutputKind::Plain),
        Err(LayoutError::NotInList(md_ansi::layout::KindName::Header))
    );
}
