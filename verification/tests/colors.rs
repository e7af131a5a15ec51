use md_ansi::dombox::{BorderType, DomColor, DomStyle, TermColor, TermStyle, TextAlign};

#[test]
fn dark_and_light_base_colours() {
    assert_eq!(DomColor::from_dark(TermColor::Black).index(), Some(0));
    assert_eq!(DomColor::from_dark(TermColor::Red).index(), Some(1));
    assert_eq!(DomColor::from_dark(TermColor::Green).index(), Some(2));
    assert_eq!(DomColor::from_dark(TermColor::Yellow).index(), Some(3));
    assert_eq!(DomColor::from_dark(TermColor::Blue).index(), Some(4));
    assert_eq!(DomColor::from_dark(TermColor::Purple).index(), Some(5));
    assert_eq!(DomColor::from_dark(TermColor::Cyan).index(), Some(6));
    assert_eq!(DomColor::from_dark(TermColor::White).index(), Some(7));
    assert_eq!(DomColor::from_light(TermColor::Black).index(), Some(8));
    assert_eq!(DomColor::from_light(TermColor::Yellow).index(), Some(11));
    assert_eq!(DomColor::from_light(TermColor::White).index(), Some(15));
    assert_eq!(DomColor::default().index(), None);
    assert_eq!(TermColor::Cyan.base_index(), 6);
}

#[test]
fn grey_levels() {
    assert_eq!(DomColor::from_grey(0).index(), Some(16));
    assert_eq!(DomColor::from_grey(15).index(), Some(16));
    assert_eq!(DomColor::from_grey(16).index(), Some(232));
    assert_eq!(DomColor::from_grey(31).index(), Some(232));
    assert_eq!(DomColor::from_grey(128).index(), Some(239));
    assert_eq!(DomColor::from_grey(239).index(), Some(245));
    assert_eq!(DomColor::from_grey(240).index(), Some(231));
    assert_eq!(DomColor::from_grey(255).index(), Some(231));
}

#[test]
fn colour_cube() {
    assert_eq!(DomColor::from_color_lo(255, 0, 0).index(), Some(196));
    assert_eq!(DomColor::from_color_lo(0, 255, 0).index(), Some(46));
    assert_eq!(DomColor::from_color_lo(0, 0, 255).index(), Some(21));
    assert_eq!(DomColor::from_color_lo(100, 150, 200).index(), Some(110));
    assert_eq!(DomColor::from_color_lo(255, 255, 0).index(), Some(226));
    assert_eq!(DomColor::from_color_lo(16, 0, 0).index(), Some(16));
    assert_eq!(DomColor::from_color_lo(43, 0, 0).index(), Some(52));
}

#[test]
fn same_band_is_grey() {
    assert_eq!(DomColor::from_color_lo(255, 255, 255).index(), Some(231));
    assert_eq!(DomColor::from_color_lo(0, 0, 0).index(), Some(16));
    assert_eq!(DomColor::from_color_lo(100, 100, 100).index(), Some(237));
    assert_eq!(DomColor::from_color_lo(100, 110, 96).index(), Some(237));
    assert_eq!(DomColor::from_color_lo(96, 111, 100).index(), Some(237));
    assert_eq!(DomColor::from_color_lo(240, 250, 255).index(), Some(231));
}

#[test]
fn pure_grey_stays_off_the_cube() {
    for level in 0u8..240 {
        let index = DomColor::from_color_lo(level, level, level).index().unwrap();
        assert!(index == 16 || index >= 232, "level {} gave {}", level, index);
        assert_eq!(DomColor::from_grey(level).index(), Some(index));
    }
    for level in 240u8..=255 {
        assert_eq!(DomColor::from_color_lo(level, level, level).index(), Some(231));
    }
}

#[test]
fn every_colour_is_past_the_base_colours() {
    for r in (0u16..256).step_by(17) {
        for g in (0u16..256).step_by(15) {
            for b in (0u16..256).step_by(51) {
                let index = DomColor::from_color_lo(r as u8, g as u8, b as u8).index().unwrap();
                assert!(index >= 16);
            }
        }
    }
}

#[test]
fn default_style_is_plain() {
    let style = DomStyle::default();
    assert_eq!(style.fg, DomColor(None));
    assert_eq!(style.bg, DomColor(None));
    assert!(!style.bold && !style.underline && !style.strikethrough && !style.italic);
    assert!(!style.extend);
    assert_eq!(style.align, TextAlign::Left);
    assert_eq!(style.border_type, BorderType::Empty);
    assert_eq!(TextAlign::default(), TextAlign::Left);
    assert_eq!(BorderType::default(), BorderType::Empty);
    assert_eq!(style.to_ansi(), TermStyle::new());
}

#[test]
fn to_ansi_keeps_what_a_terminal_shows() {
    let mut style = DomStyle::default();
    style.fg = DomColor::from_dark(TermColor::Purple);
    style.bold = true;
    style.italic = true;
    style.extend = true;
    style.border_type = BorderType::Double;
    let shown = style.to_ansi();
    assert_eq!(
        shown,
        TermStyle {
            foreground: Some(5),
            background: None,
            is_bold: true,
            is_underline: false,
            is_strikethrough: false,
            is_italic: true,
        }
    );
    style.bg = DomColor::from_light(TermColor::Red);
    style.bold = false;
    style.underline = true;
    style.strikethrough = true;
    let shown = style.to_ansi();
    assert_eq!(shown.background, Some(9));
    assert!(!shown.is_bold && shown.is_underline && shown.is_strikethrough && shown.is_italic);
}
