use md_ansi::dombox::XY;
use md_ansi::{render_ansi, OutputKind, DEFAULT_COLS};

fn rows(markdown: &str, width: u16) -> Vec<String> {
    let out = render_ansi(markdown, width, OutputKind::Plain).unwrap();
    out.lines().map(|l| l.to_string()).collect()
}

#[test]
fn markdown_heading() {
    assert_eq!(rows("# Title\n", 10), vec!["┌─────┐", "│Title│", "└─────┘"]);
}

#[test]
fn markdown_long_word() {
    let word = "abcdefghijklmnopqrstuvwxyzABCDEFGHIJKLMN";
    assert_eq!(
        rows(word, 10),
        vec!["abcdefghij", "klmnopqrst", "uvwxyzABCD", "EFGHIJKLMN", "          "]
    );
}

#[test]
fn markdown_ordered_list() {
    assert_eq!(
        rows("1. a\n2. b\n3. c\n", 20),
        vec!["1 a                 ", "2 b                 ", "3 c                 ", "                    "]
    );
}

#[test]
fn markdown_hard_break() {
    assert_eq!(rows("one  \ntwo\n", 20), vec!["one", "two", "   "]);
    assert_eq!(rows("one\\\ntwo\n", 20), vec!["one", "two", "   "]);
}

#[test]
fn markdown_soft_break_ends_the_line_too() {
    assert_eq!(rows("one\ntwo\n", 20), vec!["one", "two", "   "]);
}

#[test]
fn markdown_paragraphs_and_code() {
    assert_eq!(
        rows("Some *text*.\n\n```\ncode\n```\n", DEFAULT_COLS),
        vec!["Some text.", "          ", "code      ", "          "]
    );
}

#[test]
fn markdown_quote_and_rule() {
    assert_eq!(
        rows("> quoted\n\n---\n", 12),
        vec!["│quoted     ", "│           ", "            ", "────────────"]
    );
}

#[test]
fn markdown_table_cells_run_on() {
    let out = rows("| a | b |\n|---|---|\n| c | d |\n", 20);
    assert_eq!(out, vec!["abcd"]);
}

#[test]
fn markdown_colour() {
    let out = render_ansi("**bold**\n", 20, OutputKind::Color).unwrap();
    assert_eq!(out, "\u{1b}[1mbold\u{1b}[0m\n    \n");
}

#[test]
fn markdown_task_list() {
    assert_eq!(
        rows("- [x] done\n- [ ] open\n\n## after\n", 20),
        vec![
            "* [X]done           ",
            "* [ ]open           ",
            "                    ",
            "after               ",
            "━━━━━               ",
        ]
    );
    assert_eq!(render_ansi("", 20, OutputKind::Plain), Ok(String::new()));
    assert_eq!(XY::new(DEFAULT_COLS), XY::new(80));
}

#[test]
fn default_width() {
    assert_eq!(DEFAULT_COLS, 80);
}
