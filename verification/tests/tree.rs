use md_ansi::dombox::{BoxKind, BoxSize, DomBox, DomColor, DomStyle, TermColor, XY};

fn kinds(b: &DomBox) -> Vec<String> {
    b.children.iter().map(|c| format!("{:?}", c.kind)).collect()
}

#[test]
fn new_root_has_the_width() {
    let root = DomBox::new_root(XY::new(80));
    assert!(matches!(root.kind, BoxKind::Block));
    assert_eq!(root.size.content.w, XY::new(80));
    assert_eq!(root.size.content.x, XY::new(0));
    assert_eq!(root.size.content.h, XY::new(0));
    assert_eq!(root.size.border, BoxSize::default().border);
    assert_eq!(root.style, DomStyle::default());
    assert!(root.children.is_empty());
}

#[test]
fn new_block_is_empty() {
    let block = DomBox::new_block();
    assert!(matches!(block.kind, BoxKind::Block));
    assert_eq!(block.size, BoxSize::default());
    assert!(block.children.is_empty());
}

#[test]
fn children_take_the_style_of_the_parent() {
    let mut root = DomBox::new_root(XY::new(10));
    root.style.fg = DomColor::from_dark(TermColor::Green);
    root.style.bold = true;
    let style = root.style;
    {
        let child = root.add_block();
        assert!(matches!(child.kind, BoxKind::Block));
        assert_eq!(child.style, style);
        assert_eq!(child.size, BoxSize::default());
        child.style.italic = true;
    }
    root.add_header(3);
    root.add_list(Some(XY::new(4)));
    root.add_list(None);
    root.add_bullet();
    root.add_break();
    assert_eq!(
        kinds(&root),
        vec!["Block", "Header(3)", "List(Some(XY(4)))", "List(None)", "ListBullet", "Break"]
    );
    assert!(root.children[0].style.italic);
    for child in &root.children[1..] {
        assert_eq!(child.style, style);
    }
}

#[test]
fn text_goes_into_a_line() {
    let mut root = DomBox::new_root(XY::new(10));
    root.add_text("one".to_string());
    root.add_text("two".to_string());
    assert_eq!(kinds(&root), vec!["InlineContainer"]);
    assert_eq!(kinds(&root.children[0]), vec!["Text(\"one\")", "Text(\"two\")"]);
    root.add_break();
    root.add_text("three".to_string());
    assert_eq!(kinds(&root), vec!["InlineContainer", "Break", "InlineContainer"]);
    assert_eq!(kinds(&root.children[2]), vec!["Text(\"three\")"]);
    root.add_inline();
    assert_eq!(kinds(&root.children[2]), vec!["Text(\"three\")", "Inline"]);
}

#[test]
fn inline_boxes_hold_inline_content_themselves() {
    let mut root = DomBox::new_root(XY::new(10));
    {
        let group = root.add_inline();
        group.style.bold = true;
        let inner = group.add_text("x".to_string());
        assert!(inner.style.bold);
        group.add_inline();
    }
    assert_eq!(kinds(&root), vec!["InlineContainer"]);
    assert_eq!(kinds(&root.children[0]), vec!["Inline"]);
    assert_eq!(kinds(&root.children[0].children[0]), vec!["Text(\"x\")", "Inline"]);
}

#[test]
fn get_inline_container_reuses_the_last_line() {
    let mut root = DomBox::new_root(XY::new(10));
    root.style.underline = true;
    {
        let line = root.get_inline_container();
        assert!(matches!(line.kind, BoxKind::InlineContainer));
        assert!(line.style.underline);
        line.style.italic = true;
    }
    assert_eq!(root.children.len(), 1);
    {
        let line = root.get_inline_container();
        assert!(line.style.italic);
    }
    assert_eq!(root.children.len(), 1);
    {
        let line = root.get_inline_container();
        let own = line.get_inline_container();
        assert!(matches!(own.kind, BoxKind::InlineContainer));
        assert!(own.children.is_empty());
    }
    assert_eq!(root.children.len(), 1);
    assert!(root.children[0].children.is_empty());
    root.add_block();
    root.get_inline_container();
    assert_eq!(kinds(&root), vec!["InlineContainer", "Block", "InlineContainer"]);
}

#[test]
fn swallow_appends() {
    let mut root = DomBox::new_root(XY::new(10));
    let mut other = DomBox::new_block();
    other.add_text("x".to_string());
    root.add_block();
    root.swallow(other);
    assert_eq!(root.children.len(), 2);
    assert_eq!(kinds(&root.children[1]), vec!["InlineContainer"]);
}

#[test]
fn sizes_add_up() {
    let mut size = BoxSize::default();
    size.content.w = XY::new(5);
    size.content.h = XY::new(2);
    size.border.left = XY::new(1);
    size.border.right = XY::new(3);
    size.border.top = XY::new(4);
    assert_eq!(size.total_width(), XY::new(9));
    assert_eq!(size.total_height(), XY::new(6));
    size.content.w = XY::new(65535);
    assert_eq!(size.total_width(), XY::new(65535));
}

#[test]
fn kind_duplicates() {
    let kind = BoxKind::Text("abc".to_string());
    assert!(matches!(kind.duplicate(), BoxKind::Text(t) if t == "abc"));
    assert!(matches!(BoxKind::Header(2).duplicate(), BoxKind::Header(2)));
    assert!(matches!(BoxKind::List(Some(XY::new(3))).duplicate(), BoxKind::List(Some(s)) if s == XY::new(3)));
    assert!(matches!(BoxKind::Image.duplicate(), BoxKind::Image));
}
