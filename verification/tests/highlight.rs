use md_ansi::ansi_renderer::push_ansi;
use md_ansi::dombox::XY;
use md_ansi::event::{Event, Span, Tag};
use md_ansi::highlight::{covers, put_spans, session, whole, Highlighter, THEME};
use md_ansi::OutputKind;

fn text(s: &str) -> Event {
    Event::Text(s.to_string())
}

fn code(token: Option<&str>) -> Vec<Event> {
    let tag = Tag::CodeBlock(token.map(|t| t.to_string()));
    vec![
        text("before\n"),
        Event::Start(tag.clone()),
        text("fn main() {}\n"),
        Event::Code("let x = 1;\n".to_string()),
        Event::End(tag),
        text("after\n"),
    ]
}

fn spans_text(event: &Event) -> Option<String> {
    match event {
        Event::Highlighted(spans) => Some(spans.iter().map(|s| s.text.as_str()).collect()),
        _ => None,
    }
}

#[test]
fn fenced_code_is_cut_into_spans() {
    let mut events = code(Some("rust"));
    Highlighter::new().highlight(&mut events);
    assert_eq!(events.len(), 6);
    assert!(matches!(&events[0], Event::Text(t) if t == "before\n"));
    assert!(matches!(&events[1], Event::Start(Tag::CodeBlock(Some(t))) if t == "rust"));
    assert_eq!(spans_text(&events[2]), Some("fn main() {}\n".to_string()));
    assert_eq!(spans_text(&events[3]), Some("let x = 1;\n".to_string()));
    assert!(matches!(&events[4], Event::End(Tag::CodeBlock(_))));
    assert!(matches!(&events[5], Event::Text(t) if t == "after\n"));
    if let Event::Highlighted(spans) = &events[2] {
        assert!(spans.len() > 1);
        assert!(spans.iter().any(|s| s.text == "fn"));
        let keyword = spans.iter().find(|s| s.text == "fn").unwrap();
        let name = spans.iter().find(|s| s.text == "main").unwrap();
        assert_ne!((keyword.red, keyword.green, keyword.blue), (name.red, name.green, name.blue));
    }
}

#[test]
fn other_code_stays_as_it_is() {
    for token in [None, Some("no-such-language-at-all")] {
        let mut events = code(token);
        Highlighter::new().highlight(&mut events);
        assert_eq!(events.len(), 6);
        assert!(matches!(&events[2], Event::Text(t) if t == "fn main() {}\n"));
        assert!(matches!(&events[3], Event::Code(t) if t == "let x = 1;\n"));
    }
}

#[test]
fn the_theme_has_a_name() {
    assert_eq!(THEME, "base16-eighties.dark");
}

#[test]
fn a_session_ends_with_its_code_block() {
    let mut events = vec![
        Event::Start(Tag::CodeBlock(Some("rust".to_string()))),
        text("fn a() {}\n"),
        Event::End(Tag::CodeBlock(Some("rust".to_string()))),
        text("fn b() {}\n"),
        Event::Start(Tag::CodeBlock(Some("no-such-language-at-all".to_string()))),
        text("fn c() {}\n"),
        Event::End(Tag::CodeBlock(None)),
        Event::Start(Tag::CodeBlock(Some("rust".to_string()))),
        Event::Start(Tag::CodeBlock(None)),
        text("fn d() {}\n"),
    ];
    Highlighter::new().highlight(&mut events);
    assert_eq!(spans_text(&events[1]), Some("fn a() {}\n".to_string()));
    assert!(matches!(&events[3], Event::Text(t) if t == "fn b() {}\n"));
    assert!(matches!(&events[5], Event::Text(t) if t == "fn c() {}\n"));
    assert_eq!(spans_text(&events[9]), Some("fn d() {}\n".to_string()));
}

#[test]
fn push_ansi_highlights() {
    let events = vec![
        Event::Start(Tag::CodeBlock(Some("rust".to_string()))),
        text("fn main() {}\n"),
        text("let x = 1;\n"),
        Event::End(Tag::CodeBlock(Some("rust".to_string()))),
    ];
    let plain = push_ansi(events.clone(), XY::new(30), OutputKind::Plain).unwrap();
    assert_eq!(plain, "fn main() {}\nlet x = 1;  \n            \n");
    let colour = push_ansi(events.clone(), XY::new(30), OutputKind::Color).unwrap();
    assert!(colour.starts_with("\u{1b}[48;5;0;38;5;7m"));
    assert!(colour.contains("fn\u{1b}["));
    assert!(colour.contains("main"));
    let unfenced = vec![
        Event::Start(Tag::CodeBlock(None)),
        text("fn main() {}\n"),
        Event::End(Tag::CodeBlock(None)),
    ];
    let colour = push_ansi(unfenced, XY::new(30), OutputKind::Color).unwrap();
    assert_eq!(colour, "\u{1b}[48;5;0;38;5;7mfn main() {}\u{1b}[0m\n            \n");
}

fn span(s: &str) -> Span {
    Span { red: 1, green: 2, blue: 3, bold: false, italic: true, underline: false, text: s.to_string() }
}

#[test]
fn no_session_without_a_syntax_and_a_theme() {
    assert!(session(None, None).is_none());
}

#[test]
fn spans_that_make_up_the_line() {
    assert!(covers(&vec![span("fn"), span(" "), span("a")], "fn a"));
    assert!(covers(&vec![span("fn a")], "fn a"));
    assert!(covers(&vec![], ""));
    assert!(covers(&vec![span(""), span("")], ""));
    assert!(!covers(&vec![span("fn")], "fn a"));
    assert!(!covers(&vec![span("fn"), span("a")], "fn a"));
    assert!(!covers(&vec![span("a"), span("fn ")], "fn a"));
    assert!(!covers(&vec![], "x"));
    assert!(!covers(&vec![span("x")], ""));
}

#[test]
fn only_whole_answers_are_kept() {
    let kept = whole(Some(vec![span("fn"), span(" a")]), "fn a");
    assert_eq!(kept.map(|spans| spans.len()), Some(2));
    assert!(whole(Some(vec![span("fn")]), "fn a").is_none());
    assert!(whole(None, "fn a").is_none());
    assert!(whole(None, "").is_none());
    assert_eq!(whole(Some(vec![]), "").map(|spans| spans.len()), Some(0));
}

#[test]
fn spans_are_put_in_the_place_of_the_run() {
    let mut events = vec![text("one"), text("two")];
    put_spans(&mut events, 1, Some(vec![span("t"), span("wo")]));
    assert_eq!(events.len(), 2);
    assert!(matches!(&events[0], Event::Text(t) if t == "one"));
    match &events[1] {
        Event::Highlighted(spans) => {
            assert_eq!(spans.len(), 2);
            assert_eq!(spans[0].text, "t");
            assert_eq!(spans[1].text, "wo");
            assert_eq!((spans[0].red, spans[0].green, spans[0].blue), (1, 2, 3));
            assert!(spans[0].italic && !spans[0].bold && !spans[0].underline);
        }
        other => panic!("{:?}", other),
    }
    put_spans(&mut events, 0, None);
    assert!(matches!(&events[0], Event::Text(t) if t == "one"));
    put_spans(&mut events, 2, Some(vec![span("x")]));
    assert_eq!(events.len(), 2);
    assert!(matches!(&events[0], Event::Text(t) if t == "one"));
    assert!(matches!(&events[1], Event::Highlighted(spans) if spans.len() == 2));
    put_spans(&mut events, 0, Some(vec![]));
    assert!(matches!(&events[0], Event::Highlighted(spans) if spans.is_empty()));
}
