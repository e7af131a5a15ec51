//! Syntax highlighting of the code in fenced code blocks.

use crate::event::{event_models, span_models, span_texts, Event, EventModel, Span, Tag, TagModel};
use crate::text::join;
use syntect::easy::HighlightLines;
use syntect::highlighting::{FontStyle, Theme, ThemeSet};
use syntect::parsing::{SyntaxReference, SyntaxSet};
use vstd::prelude::*;

verus! {

/// The name of the theme that code is highlighted in.
pub const THEME: &'static str = "base16-eighties.dark";

/// A highlighter of code: the syntaxes and the themes that syntect ships.
///
/// What it holds is syntect's and is not looked into here. The only
/// highlighter there is is the one that `Highlighter::new` gives.
#[verifier::external_body]
pub struct Highlighter {
    syntaxes: SyntaxSet,
    themes: ThemeSet,
}

/// A syntax of a highlighter, together with the set that it is from.
#[verifier::external_body]
pub struct Syntax<'a> {
    syntax: &'a SyntaxReference,
    syntaxes: &'a SyntaxSet,
}

/// A theme of a highlighter.
#[verifier::external_body]
pub struct Scheme<'a> {
    theme: &'a Theme,
}

/// The highlighting of one piece of code, line by line: syntect's state
/// between the lines, together with the set that the syntax is from.
#[verifier::external_body]
pub struct Session<'a> {
    lines: HighlightLines<'a>,
    syntaxes: &'a SyntaxSet,
}

/// The language tokens that a highlighter has a syntax for.
pub uninterp spec fn syntax_tokens(highlighter: Highlighter) -> Set<Seq<char>>;

/// The names of the themes that a highlighter holds.
pub uninterp spec fn theme_names(highlighter: Highlighter) -> Set<Seq<char>>;

/// The highlighter with the syntaxes and the themes that syntect ships.
///
/// Calls `SyntaxSet::load_defaults_newlines` and `ThemeSet::load_defaults`,
/// which unpack sets that are compiled into the crate. The documentation of
/// the second lists the names of the themes in its set, and the theme that
/// code is highlighted in here is one of them. Nothing is stated of the
/// syntaxes.
#[verifier::external_body]
fn load() -> (highlighter: Highlighter)
    ensures
        theme_names(highlighter).contains(THEME@),
{
    Highlighter {
        syntaxes: SyntaxSet::load_defaults_newlines(),
        themes: ThemeSet::load_defaults(),
    }
}

/// The syntax that a language token stands for, if the highlighter has one.
///
/// Calls `SyntaxSet::find_syntax_by_token` on the syntaxes of the
/// highlighter, and keeps the set with what is found. The tokens for which
/// a syntax is found are named `syntax_tokens`.
#[verifier::external_body]
fn find_syntax<'a>(highlighter: &'a Highlighter, token: &str) -> (found: Option<Syntax<'a>>)
    ensures
        found is Some <==> syntax_tokens(*highlighter).contains(token@),
{
    let syntaxes = &highlighter.syntaxes;
    syntaxes.find_syntax_by_token(token).map(|syntax| Syntax { syntax, syntaxes })
}

/// The theme of the given name, if the highlighter has one.
///
/// Looks the name up in the map `ThemeSet::themes` of the highlighter, which
/// finds a theme exactly where the map holds one of that name. The names in
/// the map are named `theme_names`.
#[verifier::external_body]
fn find_theme<'a>(highlighter: &'a Highlighter, name: &str) -> (found: Option<Scheme<'a>>)
    ensures
        found is Some <==> theme_names(*highlighter).contains(name@),
{
    highlighter.themes.themes.get(name).map(|theme| Scheme { theme })
}

/// A session for lines in the given syntax, shown in the given theme.
///
/// Calls `HighlightLines::new`, and keeps with the session the set that the
/// syntax is from. Nothing is stated of the result.
#[verifier::external_body]
fn begin<'a>(syntax: Syntax<'a>, scheme: Scheme<'a>) -> Session<'a> {
    Session { lines: HighlightLines::new(syntax.syntax, scheme.theme), syntaxes: syntax.syntaxes }
}

/// The spans that the highlighter makes of the next line of code, or
/// nothing where it cannot parse the line.
///
/// Calls `HighlightLines::highlight_line` with the set that the session's
/// syntax is from. The spans depend on the lines that went before. Nothing
/// is stated of them.
#[verifier::external_body]
fn highlight_line(session: &mut Session, line: &str) -> Option<Vec<Span>> {
    let found = session.lines.highlight_line(line, session.syntaxes).ok()?;
    Some(
        found.into_iter().map(
            |(style, piece)|
                Span {
                    red: style.foreground.r,
                    green: style.foreground.g,
                    blue: style.foreground.b,
                    bold: style.font_style.contains(FontStyle::BOLD),
                    italic: style.font_style.contains(FontStyle::ITALIC),
                    underline: style.font_style.contains(FontStyle::UNDERLINE),
                    text: piece.to_string(),
                },
        ).collect(),
    )
}

/// Whether a highlighter can highlight code of the language that a token
/// stands for: it has a syntax for the token, and the theme to show it in.
pub open spec fn knows(highlighter: Highlighter, token: Seq<char>) -> bool {
    syntax_tokens(highlighter).contains(token) && theme_names(highlighter).contains(THEME@)
}

/// Whether a session is open at the place `at`: a fenced code block whose
/// language the highlighter knows has started before it, and no code block
/// has ended since.
pub open spec fn in_session(highlighter: Highlighter, events: Seq<EventModel>, at: int) -> bool
    decreases at,
{
    if at <= 0 || at > events.len() {
        false
    } else {
        match events[at - 1] {
            EventModel::Start(TagModel::CodeBlock(Some(token))) => knows(highlighter, token)
                || in_session(highlighter, events, at - 1),
            EventModel::End(TagModel::CodeBlock(_)) => false,
            _ => in_session(highlighter, events, at - 1),
        }
    }
}

/// Whether the place `at` lies in a fenced code block: the last code block
/// that started before it was fenced, and no code block has ended since.
pub open spec fn fenced(events: Seq<EventModel>, at: int) -> bool
    decreases at,
{
    if at <= 0 || at > events.len() {
        false
    } else {
        match events[at - 1] {
            EventModel::Start(TagModel::CodeBlock(Some(_))) => true,
            EventModel::End(TagModel::CodeBlock(_)) => false,
            _ => fenced(events, at - 1),
        }
    }
}

/// Whether `shown` may stand for `plain` once code has been highlighted: it
/// is `plain` itself, or, where highlighting is `open`, it is a run of code
/// cut into spans whose texts, one after the other, are the text of `plain`.
pub open spec fn stands_for(shown: EventModel, plain: EventModel, open: bool) -> bool {
    shown == plain || (open && shown is Highlighted && match plain {
        EventModel::Text(text) => join(span_texts(shown->Highlighted_0)) == text,
        EventModel::Code(text) => join(span_texts(shown->Highlighted_0)) == text,
        _ => false,
    })
}

/// Whether the events `shown` may stand for the events `plain` once the
/// given highlighter has highlighted them: event by event, and a run of
/// code is cut into spans only where a session of the highlighter is open.
pub open spec fn highlighted_by(
    highlighter: Highlighter,
    shown: Seq<EventModel>,
    plain: Seq<EventModel>,
) -> bool {
    &&& shown.len() == plain.len()
    &&& forall|i: int|
        0 <= i < plain.len() ==> stands_for(
            #[trigger] shown[i],
            plain[i],
            in_session(highlighter, plain, i),
        )
}

/// Whether the events `shown` may stand for the events `plain` once code
/// has been highlighted: event by event, and a run of code is cut into spans
/// in fenced code blocks only.
pub open spec fn highlighted(shown: Seq<EventModel>, plain: Seq<EventModel>) -> bool {
    &&& shown.len() == plain.len()
    &&& forall|i: int|
        0 <= i < plain.len() ==> stands_for(#[trigger] shown[i], plain[i], fenced(plain, i))
}

impl Highlighter {
    /// The highlighter with the syntaxes and themes that are built in. The
    /// theme that code is highlighted in is among them.
    pub fn new() -> (highlighter: Highlighter)
        ensures
            theme_names(highlighter).contains(THEME@),
    {
        load()
    }

    /// Puts highlighted spans in the place of runs of code. A session opens
    /// at the start of a fenced code block whose language the highlighter
    /// knows, and closes at the end of a code block. While one is open, a
    /// run of code is cut into the spans that the highlighter makes of it,
    /// if it makes any and they make up the run. All other events stay as
    /// they are.
    pub fn highlight(&self, events: &mut Vec<Event>)
        ensures
            highlighted_by(*self, event_models(final(events)@), event_models(old(events)@)),
            highlighted(event_models(final(events)@), event_models(old(events)@)),
    {
        let ghost plain = event_models(events@);
        let mut lines: Option<Session> = None;
        let mut i: usize = 0;
        while i < events.len()
            invariant
                i <= events.len(),
                events@.len() == old(events)@.len(),
                plain == event_models(old(events)@),
                lines is Some <==> in_session(*self, plain, i as int),
                forall|j: int|
                    0 <= j < i ==> stands_for(
                        #[trigger] event_models(events@)[j],
                        plain[j],
                        in_session(*self, plain, j),
                    ),
                forall|j: int| i <= j < events@.len() ==> event_models(events@)[j] == plain[j],
            decreases events.len() - i,
        {
            let ghost before = event_models(events@);
            let mut spans: Option<Vec<Span>> = None;
            match &events[i] {
                Event::Start(Tag::CodeBlock(Some(token))) => {
                    let syntax = find_syntax(self, token.as_str());
                    let scheme = find_theme(self, THEME);
                    if let Some(started) = session(syntax, scheme) {
                        lines = Some(started);
                    }
                },
                Event::End(Tag::CodeBlock(_)) => {
                    lines = None;
                },
                Event::Text(text) => {
                    if let Some(active) = &mut lines {
                        spans = whole(highlight_line(active, text.as_str()), text.as_str());
                    }
                },
                Event::Code(text) => {
                    if let Some(active) = &mut lines {
                        spans = whole(highlight_line(active, text.as_str()), text.as_str());
                    }
                },
                _ => {},
            }
            put_spans(events, i, spans);
            proof {
                assert forall|j: int| 0 <= j < i + 1 implies stands_for(
                    #[trigger] event_models(events@)[j],
                    plain[j],
                    in_session(*self, plain, j),
                ) by {
                    if j < i {
                        assert(event_models(events@)[j] == before[j]);
                    }
                }
                assert forall|j: int| i + 1 <= j < events@.len() implies event_models(events@)[j]
                    == plain[j] by {
                    assert(event_models(events@)[j] == before[j]);
                }
            }
            i = i + 1;
        }
        proof {
            lemma_session_is_fenced(*self, event_models(events@), plain);
        }
    }
}

/// Starts the highlighting of a piece of code, given what was found for its
/// language token and for the theme: a session begins exactly where both a
/// syntax and a theme were found.
pub fn session<'a>(syntax: Option<Syntax<'a>>, scheme: Option<Scheme<'a>>) -> (lines: Option<
    Session<'a>,
>)
    ensures
        lines is Some <==> syntax is Some && scheme is Some,
{
    match syntax {
        Some(syntax) => match scheme {
            Some(scheme) => Some(begin(syntax, scheme)),
            None => None,
        },
        None => None,
    }
}

/// Whether the texts of some spans, one after the other, are the line.
pub fn covers(spans: &Vec<Span>, line: &str) -> (whole: bool)
    ensures
        whole == (join(span_texts(span_models(spans@))) == line@),
{
    let ghost texts = span_texts(span_models(spans@));
    let mut joined = String::new();
    let mut i: usize = 0;
    proof {
        assert(texts.take(0) =~= Seq::<Seq<char>>::empty());
    }
    while i < spans.len()
        invariant
            i <= spans.len(),
            texts == span_texts(span_models(spans@)),
            joined@ == join(texts.take(i as int)),
        decreases spans.len() - i,
    {
        joined.append(spans[i].text.as_str());
        proof {
            assert(texts.take(i + 1).drop_last() =~= texts.take(i as int));
            assert(texts.take(i + 1).last() == spans@[i as int].text@);
        }
        i = i + 1;
    }
    proof {
        assert(texts.take(i as int) =~= texts);
    }
    joined == line.to_owned()
}

/// The answer of the highlighter for a line, taken only where it is whole:
/// the spans it gave where their texts, one after the other, are the line,
/// and nothing where they are not or where it gave none.
pub fn whole(spans: Option<Vec<Span>>, line: &str) -> (kept: Option<Vec<Span>>)
    ensures
        kept == (match spans {
            Some(found) => if join(span_texts(span_models(found@))) == line@ {
                Some(found)
            } else {
                None
            },
            None => None,
        }),
{
    match spans {
        Some(found) => if covers(&found, line) {
            Some(found)
        } else {
            None
        },
        None => None,
    }
}

/// The events once the highlighter has answered for the run of code at the
/// index `at`: where it gave spans, they stand in the place of the run;
/// where it gave none, and where there is no such index, nothing changes.
pub open spec fn with_spans_at(
    events: Seq<EventModel>,
    at: int,
    spans: Option<Seq<crate::event::SpanModel>>,
) -> Seq<EventModel> {
    match spans {
        Some(found) => if 0 <= at < events.len() {
            events.update(at, EventModel::Highlighted(found))
        } else {
            events
        },
        None => events,
    }
}

/// Takes the answer of the highlighter for the run of code at the index
/// `at`: the spans it gave are put in the place of the run, and the run
/// stays where it gave none.
pub fn put_spans(events: &mut Vec<Event>, at: usize, spans: Option<Vec<Span>>)
    ensures
        final(events)@.len() == old(events)@.len(),
        event_models(final(events)@) == with_spans_at(
            event_models(old(events)@),
            at as int,
            match spans {
                Some(found) => Some(span_models(found@)),
                None => None,
            },
        ),
{
    if at < events.len() {
        if let Some(found) = spans {
            events[at] = Event::Highlighted(found);
            assert(event_models(events@) =~= event_models(old(events)@).update(
                at as int,
                EventModel::Highlighted(span_models(found@)),
            ));
        }
    }
}

/// A session is open only in a fenced code block.
pub proof fn lemma_in_session_is_fenced(highlighter: Highlighter, events: Seq<EventModel>, at: int)
    ensures
        in_session(highlighter, events, at) ==> fenced(events, at),
    decreases at,
{
    if 0 < at <= events.len() {
        lemma_in_session_is_fenced(highlighter, events, at - 1);
    }
}

/// What a highlighter has highlighted is highlighted in fenced code blocks
/// only.
pub proof fn lemma_session_is_fenced(
    highlighter: Highlighter,
    shown: Seq<EventModel>,
    plain: Seq<EventModel>,
)
    requires
        highlighted_by(highlighter, shown, plain),
    ensures
        highlighted(shown, plain),
{
    assert forall|i: int| 0 <= i < plain.len() implies stands_for(
        #[trigger] shown[i],
        plain[i],
        fenced(plain, i),
    ) by {
        lemma_in_session_is_fenced(highlighter, plain, i);
    }
}

/// Where no place of a document lies in a fenced code block, highlighting
/// leaves every event as it is.
pub proof fn lemma_unfenced_stays(shown: Seq<EventModel>, plain: Seq<EventModel>)
    requires
        highlighted(shown, plain),
        forall|i: int| 0 <= i < plain.len() ==> !fenced(plain, i),
    ensures
        shown == plain,
{
    assert(shown =~= plain);
}

} // verus!
