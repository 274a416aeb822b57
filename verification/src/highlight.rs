//! The lexical highlighter: a single left-to-right scan over the whole
//! document that assigns one color tag to every character, carrying a single
//! piece of state, whether the scan is inside a double-quoted string.  The
//! flag is not reset at line breaks, so an unterminated quote on one line
//! leaks string coloring into the following lines.

use vstd::prelude::*;

use crate::editor::Editor;
use crate::editor::total_chars;

verus! {

/// The color tag of one character.  `Reset` is the default (uncolored)
/// display; the other tags mark brackets, operators, decimal digits and
/// string content (including the quotes themselves).
#[derive(Clone, Copy, PartialEq, Eq, Structural, Debug)]
pub enum SyntaxColor {
    Reset,
    Bracket,
    Operator,
    Numeric,
    Quoted,
}

/// The bracket characters.
pub open spec fn is_bracket(c: char) -> bool {
    c == '(' || c == ')' || c == '[' || c == ']' || c == '{' || c == '}'
}

/// The operator characters.
pub open spec fn is_operator(c: char) -> bool {
    c == '-' || c == '+' || c == '/' || c == '*' || c == '^' || c == '%' || c == '='
}

/// A decimal digit.
pub open spec fn is_decimal_digit(c: char) -> bool {
    '0' <= c && c <= '9'
}

/// The string-scan state after reading one character: a double quote toggles
/// it, every other character leaves it alone.
pub open spec fn next_inside(c: char, inside: bool) -> bool {
    if c == '"' {
        !inside
    } else {
        inside
    }
}

/// The color of one character, given the string-scan state before it.
/// String coloring wins (a quote is always string-colored, and so is every
/// character while the scan is inside a string); then digits, then
/// operators, then brackets; anything else is uncolored.
pub open spec fn classify_char(c: char, inside: bool) -> SyntaxColor {
    if c == '"' || next_inside(c, inside) {
        SyntaxColor::Quoted
    } else if is_decimal_digit(c) {
        SyntaxColor::Numeric
    } else if is_operator(c) {
        SyntaxColor::Operator
    } else if is_bracket(c) {
        SyntaxColor::Bracket
    } else {
        SyntaxColor::Reset
    }
}

/// The string-scan state after reading a whole run of characters, starting
/// from `inside`.
pub open spec fn inside_after_seq(chars: Seq<char>, inside: bool) -> bool
    decreases chars.len(),
{
    if chars.len() == 0 {
        inside
    } else {
        next_inside(chars.last(), inside_after_seq(chars.drop_last(), inside))
    }
}

/// The color tags of one run of characters, scanned left to right starting
/// in state `inside`: each character is classified against the scan state
/// the characters before it produced.
pub open spec fn highlight_seq(chars: Seq<char>, inside: bool) -> Seq<SyntaxColor>
    decreases chars.len(),
{
    if chars.len() == 0 {
        Seq::empty()
    } else {
        highlight_seq(chars.drop_last(), inside).push(
            classify_char(chars.last(), inside_after_seq(chars.drop_last(), inside)),
        )
    }
}

/// The string-scan state after a whole document: lines are scanned in
/// order, and the state carries over the line breaks unchanged.
pub open spec fn inside_after_lines(lines: Seq<Seq<char>>, inside: bool) -> bool
    decreases lines.len(),
{
    if lines.len() == 0 {
        inside
    } else {
        inside_after_seq(lines.last(), inside_after_lines(lines.drop_last(), inside))
    }
}

/// The color tags of a whole document starting in state `inside`: the tags
/// of each line in order, each line scanned in the state its predecessors
/// left behind.  An unterminated quote therefore colors the following lines
/// until the next quote.
pub open spec fn highlight_lines(lines: Seq<Seq<char>>, inside: bool) -> Seq<SyntaxColor>
    decreases lines.len(),
{
    if lines.len() == 0 {
        Seq::empty()
    } else {
        highlight_lines(lines.drop_last(), inside) + highlight_seq(
            lines.last(),
            inside_after_lines(lines.drop_last(), inside),
        )
    }
}

/// The color tags of a document: the scan starts outside any string.
pub open spec fn highlight_doc(lines: Seq<Seq<char>>) -> Seq<SyntaxColor> {
    highlight_lines(lines, false)
}

/// A run of characters gets exactly one tag per character.
pub proof fn lemma_highlight_seq_len(chars: Seq<char>, inside: bool)
    ensures
        highlight_seq(chars, inside).len() == chars.len(),
    decreases chars.len(),
{
    if chars.len() > 0 {
        lemma_highlight_seq_len(chars.drop_last(), inside);
    }
}

/// A document gets exactly one tag per character: the tag sequence is as
/// long as the document's total character count.
pub proof fn lemma_highlight_doc_len(lines: Seq<Seq<char>>)
    ensures
        highlight_doc(lines).len() == total_chars(lines),
{
    lemma_highlight_lines_len(lines, false);
}

proof fn lemma_highlight_lines_len(lines: Seq<Seq<char>>, inside: bool)
    ensures
        highlight_lines(lines, inside).len() == total_chars(lines),
    decreases lines.len(),
{
    if lines.len() > 0 {
        lemma_highlight_lines_len(lines.drop_last(), inside);
        lemma_highlight_seq_len(lines.last(), inside_after_lines(lines.drop_last(), inside));
    }
}

/// Highlighting is a pure function of the document: recomputing the tags
/// for an unchanged document yields the identical tag sequence.
pub proof fn lemma_highlight_idempotent(
    lines: Seq<Seq<char>>,
    first: Seq<SyntaxColor>,
    second: Seq<SyntaxColor>,
)
    requires
        first == highlight_doc(lines),
        second == highlight_doc(lines),
    ensures
        first == second,
{
}

/// Classify one character, given the string-scan state before it.
pub fn classify(c: char, inside: bool) -> (col: SyntaxColor)
    ensures
        col == classify_char(c, inside),
{
    let mut col = SyntaxColor::Reset;
    if c == '(' || c == ')' || c == '[' || c == ']' || c == '{' || c == '}' {
        col = SyntaxColor::Bracket;
    }
    if c == '-' || c == '+' || c == '/' || c == '*' || c == '^' || c == '%' || c == '=' {
        col = SyntaxColor::Operator;
    }
    if '0' <= c && c <= '9' {
        col = SyntaxColor::Numeric;
    }
    let after = if c == '"' {
        !inside
    } else {
        inside
    };
    if c == '"' {
        col = SyntaxColor::Quoted;
    }
    if after {
        col = SyntaxColor::Quoted;
    }
    col
}

/// Recompute the color tag buffer from the document: one tag per character,
/// in document order, exactly as [`highlight_doc`] says.  Nothing else in
/// the editor state is touched.
pub fn editor_syntax_highlighting(editor: &mut Editor)
    requires
        old(editor).wf(),
    ensures
        final(editor).wf(),
        final(editor)@.lines == old(editor)@.lines,
        final(editor)@.current_line == old(editor)@.current_line,
        final(editor)@.current_char == old(editor)@.current_char,
        final(editor)@.previous_current_char == old(editor)@.previous_current_char,
        final(editor)@.colors == highlight_doc(old(editor)@.lines),
{
    let ghost doc = editor@.lines;
    let mut tags: Vec<SyntaxColor> = Vec::new();
    let mut inside: bool = false;
    let mut i: usize = 0;
    while i < editor.lines.len()
        invariant
            *editor == *old(editor),
            editor.wf(),
            doc == editor@.lines,
            i <= editor.lines.len(),
            tags@ == highlight_lines(doc.take(i as int), false),
            inside == inside_after_lines(doc.take(i as int), false),
        decreases editor.lines.len() - i,
    {
        let ghost inside_at_line_start = inside;
        let ghost tags_at_line_start = tags@;
        let line_len = editor.lines[i].len();
        let mut j: usize = 0;
        while j < line_len
            invariant
                *editor == *old(editor),
                editor.wf(),
                doc == editor@.lines,
                i < editor.lines.len(),
                line_len == doc[i as int].len(),
                j <= line_len,
                tags_at_line_start == highlight_lines(doc.take(i as int), false),
                inside_at_line_start == inside_after_lines(doc.take(i as int), false),
                tags@ == tags_at_line_start + highlight_seq(
                    doc[i as int].take(j as int),
                    inside_at_line_start,
                ),
                inside == inside_after_seq(doc[i as int].take(j as int), inside_at_line_start),
            decreases line_len - j,
        {
            let c = editor.lines[i][j];
            let col = classify(c, inside);
            tags.push(col);
            inside = if c == '"' {
                !inside
            } else {
                inside
            };
            proof {
                assert(doc[i as int].take(j + 1).drop_last() =~= doc[i as int].take(j as int));
                assert(doc[i as int].take(j + 1).last() == doc[i as int][j as int]);
            }
            j = j + 1;
        }
        proof {
            assert(doc[i as int].take(line_len as int) =~= doc[i as int]);
            assert(doc.take(i + 1).drop_last() =~= doc.take(i as int));
            assert(doc.take(i + 1).last() == doc[i as int]);
        }
        i = i + 1;
    }
    proof {
        assert(doc.take(editor.lines@.len() as int) =~= doc);
    }
    editor.syntax_color_buffer = tags;
}

} // verus!
