use vstd::prelude::*;
use crate::text::str_eq;

verus! {

/// The style tags the renderer attaches to pieces of text.  `Plain` is the
/// absence of styling; the rest map onto the terminal-styling collaborator
/// in `color_format`.
#[derive(Debug, Clone, Copy, PartialEq, Eq, Structural)]
pub enum Style {
    Plain,
    Prefix,
    Muted,
    Bold,
    Good,
    Warning,
    Critical,
    Output,
    Tag,
}

/// One styled piece of one output line.
#[derive(Debug)]
pub struct Span {
    pub text: String,
    pub style: Style,
}

/// One output line: its styled pieces in order.
#[derive(Debug)]
pub struct Line {
    pub spans: Vec<Span>,
}

pub open spec fn span_view(sp: Span) -> (Seq<char>, Style) {
    (sp.text@, sp.style)
}

pub open spec fn line_view(l: Line) -> Seq<(Seq<char>, Style)> {
    l.spans@.map_values(|sp: Span| span_view(sp))
}

pub open spec fn lines_view(v: Seq<Line>) -> Seq<Seq<(Seq<char>, Style)>> {
    v.map_values(|l: Line| line_view(l))
}

pub fn span(text: String, style: Style) -> (r: Span)
    ensures
        span_view(r) == (text@, style),
{
    Span { text, style }
}

/// Whether `needle` occurs contiguously inside `hay`.
pub open spec fn contains_seq(hay: Seq<char>, needle: Seq<char>) -> bool {
    exists|j: int|
        0 <= j && j + needle.len() <= hay.len() && #[trigger] hay.subrange(j, j + needle.len())
            == needle
}

/// What holds of the styling collaborator's output whatever the terminal
/// configuration: styling may add escape codes around the text but keeps
/// the text itself (escape-free input reappears contiguously).
pub open spec fn styled_output_ok(input: Seq<char>, output: Seq<char>) -> bool {
    &&& output.len() >= input.len()
    &&& !input.contains('\u{1b}') ==> contains_seq(output, input)
}

/// Relies on colored's Colorize::bright_black and the ColoredString
/// display: the input text, possibly surrounded by escape codes.
#[verifier::external_body]
fn paint_bright_black(s: &str) -> (r: String)
    ensures
        styled_output_ok(s@, r@),
{
    colored::Colorize::bright_black(s).to_string()
}

/// Relies on colored's Colorize::bright_white, as above.
#[verifier::external_body]
fn paint_bright_white(s: &str) -> (r: String)
    ensures
        styled_output_ok(s@, r@),
{
    colored::Colorize::bright_white(s).to_string()
}

/// Relies on colored's Colorize::green, as above.
#[verifier::external_body]
fn paint_green(s: &str) -> (r: String)
    ensures
        styled_output_ok(s@, r@),
{
    colored::Colorize::green(s).to_string()
}

/// Relies on colored's Colorize::yellow, as above.
#[verifier::external_body]
fn paint_yellow(s: &str) -> (r: String)
    ensures
        styled_output_ok(s@, r@),
{
    colored::Colorize::yellow(s).to_string()
}

/// Relies on colored's Colorize::red, as above.
#[verifier::external_body]
fn paint_red(s: &str) -> (r: String)
    ensures
        styled_output_ok(s@, r@),
{
    colored::Colorize::red(s).to_string()
}

/// Relies on colored's Colorize::cyan, as above.
#[verifier::external_body]
fn paint_cyan(s: &str) -> (r: String)
    ensures
        styled_output_ok(s@, r@),
{
    colored::Colorize::cyan(s).to_string()
}

/// Relies on colored's Colorize::on_bright_red and bright_white chained,
/// as above.
#[verifier::external_body]
fn paint_tag(s: &str) -> (r: String)
    ensures
        styled_output_ok(s@, r@),
{
    colored::Colorize::bright_white(colored::Colorize::on_bright_red(s)).to_string()
}

/// Terminal text styling by tag name, delegated to the styling
/// collaborator; unknown tags fall through to the `good` green.
pub fn color_format(s: String, format: &str) -> (r: String)
    ensures
        styled_output_ok(s@, r@),
{
    if str_eq(format, "prefix") {
        paint_bright_black(s.as_str())
    } else if str_eq(format, "muted") {
        paint_bright_black(s.as_str())
    } else if str_eq(format, "bold") {
        paint_bright_white(s.as_str())
    } else if str_eq(format, "good") {
        paint_green(s.as_str())
    } else if str_eq(format, "warning") {
        paint_yellow(s.as_str())
    } else if str_eq(format, "critical") {
        paint_red(s.as_str())
    } else if str_eq(format, "output") {
        paint_cyan(s.as_str())
    } else if str_eq(format, "tag") {
        paint_tag(s.as_str())
    } else {
        paint_green(s.as_str())
    }
}

/// One span handed to the styling collaborator; `Plain` text passes
/// through unchanged.
pub fn paint_span(sp: &Span) -> (r: String)
    ensures
        styled_output_ok(sp.text@, r@),
{
    match sp.style {
        Style::Plain => {
            let r: String = sp.text.clone();
            proof {
                assert(contains_seq(sp.text@, sp.text@)) by {
                    assert(sp.text@.subrange(0, 0 + sp.text@.len() as int) =~= sp.text@);
                }
            }
            r
        },
        Style::Prefix => paint_bright_black(sp.text.as_str()),
        Style::Muted => paint_bright_black(sp.text.as_str()),
        Style::Bold => paint_bright_white(sp.text.as_str()),
        Style::Good => paint_green(sp.text.as_str()),
        Style::Warning => paint_yellow(sp.text.as_str()),
        Style::Critical => paint_red(sp.text.as_str()),
        Style::Output => paint_cyan(sp.text.as_str()),
        Style::Tag => paint_tag(sp.text.as_str()),
    }
}

/// The total character count of a line's text, styling aside.
pub open spec fn line_text_len(l: Line) -> int
    decreases l.spans@.len(),
{
    spans_text_len(l.spans@)
}

pub open spec fn spans_text_len(s: Seq<Span>) -> int
    decreases s,
{
    if s.len() == 0 {
        0
    } else {
        s[0].text@.len() + spans_text_len(s.drop_first())
    }
}

/// One whole line handed to the styling collaborator, spans in order.
pub fn paint_line(l: &Line) -> (r: String)
    ensures
        r@.len() >= line_text_len(*l),
{
    let mut out: String = String::new();
    let n = l.spans.len();
    let mut i: usize = 0;
    proof {
        assert(l.spans@.skip(0) =~= l.spans@);
        lemma_spans_text_len_nonneg(l.spans@);
    }
    while i < n
        invariant
            i <= n,
            n == l.spans@.len(),
            out@.len() + spans_text_len(l.spans@.skip(i as int)) >= spans_text_len(l.spans@),
        decreases n - i,
    {
        proof {
            assert(l.spans@.skip(i as int)[0] == l.spans@[i as int]);
            assert(l.spans@.skip(i as int).drop_first() =~= l.spans@.skip(i + 1));
        }
        let painted: String = paint_span(&l.spans[i]);
        out.append(painted.as_str());
        i = i + 1;
    }
    proof {
        assert(l.spans@.skip(n as int) =~= Seq::<Span>::empty());
    }
    out
}

proof fn lemma_spans_text_len_nonneg(s: Seq<Span>)
    ensures
        spans_text_len(s) >= 0,
    decreases s,
{
    if s.len() > 0 {
        lemma_spans_text_len_nonneg(s.drop_first());
    }
}

} // verus!
