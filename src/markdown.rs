//! Markdown to terminal text.
//!
//! The doc text is parsed into events by pulldown-cmark; the events are then run
//! through a two-state machine (normal text, inside a code block). Text outside code
//! is copied through, headings become runs of `#`, and a code block is gathered and
//! handed to syntect for 24-bit colour, followed by one reset sequence.
//!
//! Only paragraphs, headings, code blocks and plain text are rendered. Any other
//! construct stops the rendering with [`MarkdownError::Unsupported`]; the caller
//! decides what to do with it (the command-line tool aborts the run).
use pulldown_cmark::{Event, Options, Parser, Tag};
use syntect::easy::HighlightLines;
use syntect::highlighting::ThemeSet;
use syntect::parsing::SyntaxSet;
use syntect::util::{as_24_bit_terminal_escaped, LinesWithEndings};
use vstd::prelude::*;
use vstd::string::StringExecFns;
use crate::text::{push_repeated, repeat};

verus! {

/// The block tags that the renderer tells apart.
#[derive(Clone, Copy, Debug, PartialEq, Eq, Structural)]
pub enum MdTag {
    Paragraph,
    Heading(u32),
    CodeBlock,
    /// Any other tag: quotes, lists, tables, emphasis, links, images, ...
    Other,
}

/// One event of a Markdown parse, as far as the renderer needs it.
#[derive(Debug)]
pub enum MdEvent {
    Start(MdTag),
    End(MdTag),
    Text(String),
    /// Inline code, HTML, footnote references, line breaks, rules, task markers.
    Other,
}

/// The mathematical value of an [`MdEvent`].
pub enum MdEventView {
    Start(MdTag),
    End(MdTag),
    Text(Seq<char>),
    Other,
}

impl View for MdEvent {
    type V = MdEventView;

    open spec fn view(&self) -> MdEventView {
        match self {
            MdEvent::Start(t) => MdEventView::Start(*t),
            MdEvent::End(t) => MdEventView::End(*t),
            MdEvent::Text(s) => MdEventView::Text(s@),
            MdEvent::Other => MdEventView::Other,
        }
    }
}

/// The mathematical values of a run of events.
pub open spec fn events_view(events: Seq<MdEvent>) -> Seq<MdEventView> {
    events.map_values(|e: MdEvent| e@)
}

/// Why a doc text could not be rendered.
#[derive(Clone, Copy, Debug, PartialEq, Eq, Structural)]
pub enum MarkdownError {
    /// The text holds a Markdown construct other than paragraphs, headings,
    /// code blocks and plain text.
    Unsupported,
}

/// The events that pulldown-cmark produces for a text, with no extensions enabled.
pub uninterp spec fn markdown_events(text: Seq<char>) -> Seq<MdEventView>;

/// The terminal text that syntect produces for `code`, line by line, with the
/// syntax found by `extension` and the theme named `theme`.
pub uninterp spec fn highlighted(code: Seq<char>, extension: Seq<char>, theme: Seq<char>) -> Seq<char>;

/// Relies on `pulldown_cmark::Parser::new_ext` with `Options::empty()`: the event
/// stream of `text`, which depends on the text alone.
/// Tags and events outside the supported set are mapped to `Other`.
#[verifier::external_body]
fn parse_markdown(text: &str) -> (r: Vec<MdEvent>)
    ensures
        events_view(r@) == markdown_events(text@),
{
    let tag = |t: Tag| match t {
        Tag::Paragraph => MdTag::Paragraph,
        Tag::Heading(level) => MdTag::Heading(level),
        Tag::CodeBlock(_) => MdTag::CodeBlock,
        _ => MdTag::Other,
    };
    Parser::new_ext(text, Options::empty()).map(|e| match e {
        Event::Start(t) => MdEvent::Start(tag(t)),
        Event::End(t) => MdEvent::End(tag(t)),
        Event::Text(s) => MdEvent::Text(s.to_string()),
        _ => MdEvent::Other,
    }).collect()
}

/// Every escape character in `s` opens a colour sequence: it is followed by `[` and
/// then `3` (foreground) or `4` (background), so none of them starts a reset.
pub open spec fn escapes_are_colours(s: Seq<char>) -> bool {
    forall|i: int|
        0 <= i < s.len() && #[trigger] s[i] == '\x1b' ==> i + 2 < s.len() && s[i + 1] == '['
            && (s[i + 2] == '3' || s[i + 2] == '4')
}

/// `s` holds the reset sequence `ESC [ 0 m` at position `i`.
pub open spec fn is_reset_at(s: Seq<char>, i: int) -> bool {
    &&& 0 <= i
    &&& i + 3 < s.len()
    &&& s[i] == '\x1b'
    &&& s[i + 1] == '['
    &&& s[i + 2] == '0'
    &&& s[i + 3] == 'm'
}

/// Relies on syntect 4: `SyntaxSet::load_defaults_newlines`, `ThemeSet::load_defaults`,
/// `HighlightLines::highlight` on each line of `code` (line endings kept) and
/// `as_24_bit_terminal_escaped` with backgrounds. The result depends on its arguments
/// alone. The two lookups succeed for the Rust syntax and this theme of the default
/// sets, the only ones admitted. `as_24_bit_terminal_escaped` writes each styled piece
/// of a line as `ESC[48;2;r;g;bm`, `ESC[38;2;r;g;bm` and the piece's text, a slice of
/// the line, and never a reset: where the code holds no escape character, every one
/// in the result opens a colour.
#[verifier::external_body]
fn highlight_code(code: &str, extension: &str, theme: &str) -> (r: String)
    requires
        extension@ == "rs"@,
        theme@ == "base16-ocean.dark"@,
    ensures
        r@ == highlighted(code@, extension@, theme@),
        !code@.contains('\x1b') ==> escapes_are_colours(r@),
{
    let ps = SyntaxSet::load_defaults_newlines();
    let ts = ThemeSet::load_defaults();
    let syntax = ps.find_syntax_by_extension(extension).unwrap();
    let mut h = HighlightLines::new(syntax, &ts.themes[theme]);
    LinesWithEndings::from(code).map(|line| as_24_bit_terminal_escaped(&h.highlight(line, &ps), true)).collect()
}

/// What syntect renders a code block's text into here: Rust syntax, base16-ocean.dark.
pub open spec fn highlight_rust(code: Seq<char>) -> Seq<char> {
    highlighted(code, "rs"@, "base16-ocean.dark"@)
}

/// A blank-line separator.
pub open spec fn blank() -> Seq<char> {
    seq!['\n', '\n']
}

/// The sequence that resets the terminal's colours, then a blank-line separator.
pub open spec fn reset_blank() -> Seq<char> {
    seq!['\x1b', '[', '0', 'm', '\n', '\n']
}

/// The renderer's state between two events.
pub struct RenderState {
    /// Inside a code block.
    pub in_code: bool,
    /// The text rendered so far.
    pub out: Seq<char>,
    /// The text of the current code block, not yet highlighted.
    pub code: Seq<char>,
}

/// Normal text, nothing rendered, no code gathered.
pub open spec fn initial_state() -> RenderState {
    RenderState { in_code: false, out: Seq::empty(), code: Seq::empty() }
}

/// The effect of one event; `None` for an unsupported one.
pub open spec fn step(s: RenderState, e: MdEventView) -> Option<RenderState> {
    match e {
        MdEventView::Start(MdTag::CodeBlock) => Some(RenderState { in_code: true, ..s }),
        MdEventView::Start(MdTag::Paragraph) => Some(s),
        MdEventView::Start(MdTag::Heading(level)) => Some(
            RenderState { out: s.out + blank() + repeat(seq!['#'], level as nat) + seq![' '], ..s },
        ),
        MdEventView::End(MdTag::CodeBlock) => Some(
            RenderState {
                in_code: false,
                out: s.out + highlight_rust(s.code) + reset_blank(),
                code: Seq::empty(),
            },
        ),
        MdEventView::End(MdTag::Heading(_)) => Some(RenderState { out: s.out + blank(), ..s }),
        MdEventView::End(MdTag::Paragraph) => if s.in_code {
            Some(RenderState { code: s.code + blank(), ..s })
        } else {
            Some(RenderState { out: s.out + blank(), ..s })
        },
        MdEventView::Text(t) => if s.in_code {
            Some(RenderState { code: s.code + t, ..s })
        } else {
            Some(RenderState { out: s.out + t, ..s })
        },
        _ => None,
    }
}

/// The state after the events, from the initial state; `None` once one is unsupported.
pub open spec fn run(events: Seq<MdEventView>) -> Option<RenderState>
    decreases events.len(),
{
    if events.len() == 0 {
        Some(initial_state())
    } else {
        match run(events.drop_last()) {
            Some(s) => step(s, events.last()),
            None => None,
        }
    }
}

/// The terminal text for a sequence of events.
pub open spec fn render_spec(events: Seq<MdEventView>) -> Result<Seq<char>, MarkdownError> {
    match run(events) {
        Some(s) => Ok(s.out),
        None => Err(MarkdownError::Unsupported),
    }
}

/// A rendering result with its text as a sequence of characters.
pub open spec fn result_view(r: Result<String, MarkdownError>) -> Result<Seq<char>, MarkdownError> {
    match r {
        Ok(s) => Ok(s@),
        Err(e) => Err(e),
    }
}

proof fn lemma_run_stays_none(events: Seq<MdEventView>, i: int)
    requires
        0 <= i <= events.len(),
        run(events.take(i)) is None,
    ensures
        run(events) is None,
    decreases events.len() - i,
{
    if i < events.len() {
        assert(events.take(i + 1).drop_last() =~= events.take(i));
        lemma_run_stays_none(events, i + 1);
    } else {
        assert(events.take(i) =~= events);
    }
}

/// Renders a sequence of Markdown events: the state machine of [`step`], run from
/// normal text with empty buffers; the result is the rendered text.
pub fn render_events(events: &Vec<MdEvent>) -> (r: Result<String, MarkdownError>)
    ensures
        result_view(r) == render_spec(events_view(events@)),
{
    let ghost ev = events_view(events@);
    let mut in_code = false;
    let mut out = String::new();
    let mut code = String::new();
    let mut i: usize = 0;
    proof {
        reveal_strlit("\n\n");
        reveal_strlit("#");
        reveal_strlit(" ");
        reveal_strlit("\x1b[0m\n\n");
        assert(ev.take(0) =~= Seq::<MdEventView>::empty());
    }
    while i < events.len()
        invariant
            ev == events_view(events@),
            i <= events@.len(),
            run(ev.take(i as int)) == Some(RenderState { in_code, out: out@, code: code@ }),
            "\n\n"@ == blank(),
            "#"@ == seq!['#'],
            " "@ == seq![' '],
            "\x1b[0m\n\n"@ == reset_blank(),
        decreases events@.len() - i,
    {
        assert(ev.take(i + 1).drop_last() =~= ev.take(i as int));
        assert(ev.take(i + 1).last() == events@[i as int]@);
        match &events[i] {
            MdEvent::Start(MdTag::CodeBlock) => {
                in_code = true;
            },
            MdEvent::Start(MdTag::Paragraph) => {},
            MdEvent::Start(MdTag::Heading(level)) => {
                out.append("\n\n");
                push_repeated(&mut out, "#", *level as usize);
                out.append(" ");
            },
            MdEvent::End(MdTag::CodeBlock) => {
                in_code = false;
                let lit = highlight_code(code.as_str(), "rs", "base16-ocean.dark");
                out.append(lit.as_str());
                out.append("\x1b[0m\n\n");
                code = String::new();
            },
            MdEvent::End(MdTag::Heading(_)) => {
                out.append("\n\n");
            },
            MdEvent::End(MdTag::Paragraph) => {
                if in_code {
                    code.append("\n\n");
                } else {
                    out.append("\n\n");
                }
            },
            MdEvent::Text(t) => {
                if in_code {
                    code.append(t.as_str());
                } else {
                    out.append(t.as_str());
                }
            },
            _ => {
                proof {
                    lemma_run_stays_none(ev, i + 1);
                }
                return Err(MarkdownError::Unsupported);
            },
        }
        i = i + 1;
        assert(run(ev.take(i as int)) == Some(RenderState { in_code, out: out@, code: code@ }));
    }
    assert(ev.take(i as int) =~= ev);
    Ok(out)
}

/// The terminal text for a doc text: nothing for an empty text, else the rendering
/// of its Markdown events.
pub open spec fn markdown_spec(input: Seq<char>) -> Result<Seq<char>, MarkdownError> {
    if input.len() == 0 {
        Ok(Seq::empty())
    } else {
        render_spec(markdown_events(input))
    }
}

/// Renders a doc text: parses it as Markdown and renders the events.
pub fn format_markdown(input: &str) -> (r: Result<String, MarkdownError>)
    ensures
        result_view(r) == markdown_spec(input@),
{
    if input.is_empty() {
        return Ok(String::new());
    }
    let events = parse_markdown(input);
    render_events(&events)
}

/// Running one more event is one more step.
proof fn lemma_run_push(events: Seq<MdEventView>, e: MdEventView)
    ensures
        run(events.push(e)) == match run(events) {
            Some(s) => step(s, e),
            None => None,
        },
{
    assert(events.push(e).drop_last() =~= events);
}

/// A paragraph of plain text renders as that text, unchanged, then a blank line;
/// no escape character is added to it.
pub proof fn lemma_paragraph_verbatim(t: Seq<char>)
    ensures
        render_spec(
            seq![MdEventView::Start(MdTag::Paragraph), MdEventView::Text(t), MdEventView::End(MdTag::Paragraph)],
        ) == Ok::<Seq<char>, MarkdownError>(t + blank()),
        !t.contains('\x1b') ==> !(t + blank()).contains('\x1b'),
{
    let ev = seq![MdEventView::Start(MdTag::Paragraph), MdEventView::Text(t), MdEventView::End(MdTag::Paragraph)];
    let e1 = Seq::<MdEventView>::empty().push(MdEventView::Start(MdTag::Paragraph));
    let e2 = e1.push(MdEventView::Text(t));
    assert(e2.push(MdEventView::End(MdTag::Paragraph)) =~= ev);
    lemma_run_push(Seq::empty(), MdEventView::Start(MdTag::Paragraph));
    lemma_run_push(e1, MdEventView::Text(t));
    lemma_run_push(e2, MdEventView::End(MdTag::Paragraph));
    assert(Seq::<char>::empty() + t =~= t);
    if !t.contains('\x1b') && (t + blank()).contains('\x1b') {
        let k = choose|k: int| 0 <= k < (t + blank()).len() && (t + blank())[k] == '\x1b';
        if k < t.len() {
            assert(t[k] == '\x1b');
        }
    }
}

/// A code block's text is handed whole to the highlighter, and its output is
/// followed by one reset sequence, then a blank line. Where the highlighter's escapes
/// all open colours (as they do for code without escape characters), that reset is
/// the only one, after all of the highlighted text.
pub proof fn lemma_code_block_highlighted(code: Seq<char>)
    ensures
        render_spec(
            seq![MdEventView::Start(MdTag::CodeBlock), MdEventView::Text(code), MdEventView::End(MdTag::CodeBlock)],
        ) == Ok::<Seq<char>, MarkdownError>(highlight_rust(code) + reset_blank()),
        escapes_are_colours(highlight_rust(code)) ==> forall|i: int|
            #[trigger] is_reset_at(highlight_rust(code) + reset_blank(), i) <==> i == highlight_rust(code).len(),
{
    let h = highlight_rust(code);
    let out = h + reset_blank();
    if escapes_are_colours(h) {
        assert forall|i: int| #[trigger] is_reset_at(out, i) <==> i == h.len() by {
            if i == h.len() {
                assert(out[i] == reset_blank()[0]);
                assert(out[i + 1] == reset_blank()[1]);
                assert(out[i + 2] == reset_blank()[2]);
                assert(out[i + 3] == reset_blank()[3]);
            } else if is_reset_at(out, i) {
                if 0 <= i < h.len() {
                    assert(out[i] == h[i]);
                    assert(h[i] == '\x1b');
                    assert(out[i + 2] == h[i + 2]);
                } else {
                    assert(out[i] == reset_blank()[i - h.len()]);
                }
            }
        }
    }
    let ev = seq![MdEventView::Start(MdTag::CodeBlock), MdEventView::Text(code), MdEventView::End(MdTag::CodeBlock)];
    let e1 = Seq::<MdEventView>::empty().push(MdEventView::Start(MdTag::CodeBlock));
    let e2 = e1.push(MdEventView::Text(code));
    assert(e2.push(MdEventView::End(MdTag::CodeBlock)) =~= ev);
    lemma_run_push(Seq::empty(), MdEventView::Start(MdTag::CodeBlock));
    lemma_run_push(e1, MdEventView::Text(code));
    lemma_run_push(e2, MdEventView::End(MdTag::CodeBlock));
    assert(Seq::<char>::empty() + code =~= code);
    assert(Seq::<char>::empty() + highlight_rust(code) + reset_blank() =~= highlight_rust(code) + reset_blank());
}

/// A heading of level `level` renders as a blank line, `level` marks `#` and a
/// space, its text, and a blank line.
pub proof fn lemma_heading_marker(level: u32, t: Seq<char>)
    ensures
        render_spec(
            seq![MdEventView::Start(MdTag::Heading(level)), MdEventView::Text(t), MdEventView::End(MdTag::Heading(level))],
        ) == Ok::<Seq<char>, MarkdownError>(blank() + repeat(seq!['#'], level as nat) + seq![' '] + t + blank()),
        level == 2 ==> repeat(seq!['#'], level as nat) == seq!['#', '#'],
{
    let ev = seq![MdEventView::Start(MdTag::Heading(level)), MdEventView::Text(t), MdEventView::End(MdTag::Heading(level))];
    let e1 = Seq::<MdEventView>::empty().push(MdEventView::Start(MdTag::Heading(level)));
    let e2 = e1.push(MdEventView::Text(t));
    assert(e2.push(MdEventView::End(MdTag::Heading(level))) =~= ev);
    lemma_run_push(Seq::empty(), MdEventView::Start(MdTag::Heading(level)));
    lemma_run_push(e1, MdEventView::Text(t));
    lemma_run_push(e2, MdEventView::End(MdTag::Heading(level)));
    assert(Seq::<char>::empty() + blank() + repeat(seq!['#'], level as nat) + seq![' '] =~= blank() + repeat(seq!['#'], level as nat) + seq![' ']);
    if level == 2 {
        assert(repeat(seq!['#'], 0) =~= Seq::<char>::empty());
        assert(repeat(seq!['#'], 1) =~= seq!['#']);
        assert(repeat(seq!['#'], 2) =~= seq!['#', '#']);
    }
}

} // verus!
