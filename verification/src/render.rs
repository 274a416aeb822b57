//! The renderer: turns the editor state into a flat sequence of terminal
//! draw commands — clear the screen, draw every line behind a line-number
//! gutter with each character in its highlight color, draw a status line,
//! and finally park the terminal cursor on the editor's cursor position.
//! Executing the commands against a real terminal is left to the caller.

use vstd::prelude::*;
use vstd::string::StrSliceExecFns;

use crate::editor::Editor;
use crate::editor::lemma_line_len_le_total_chars;
use crate::editor::lemma_total_chars_nonneg;
use crate::editor::lemma_total_chars_take_le;
use crate::editor::lemma_total_chars_take_succ;
use crate::editor::total_chars;
use crate::highlight::SyntaxColor;

verus! {

/// One terminal draw command, with concrete (machine-sized) coordinates.
#[derive(PartialEq, Eq, Debug)]
pub enum DrawCommand {
    /// Clear the whole screen.
    ClearAll,
    /// Move the terminal cursor to the cell at `column`, `row` (zero-based).
    MoveTo { column: usize, row: usize },
    /// Set the foreground color for the text that follows; the background
    /// stays the terminal default.
    SetColor { color: SyntaxColor },
    /// Write text at the current position.
    Print { text: Vec<char> },
}

/// The mathematical value of a [`DrawCommand`].
#[verifier::ext_equal]
pub enum DrawStep {
    ClearAll,
    MoveTo { column: int, row: int },
    SetColor { color: SyntaxColor },
    Print { text: Seq<char> },
}

impl DeepView for DrawCommand {
    type V = DrawStep;

    open spec fn deep_view(&self) -> DrawStep {
        match self {
            DrawCommand::ClearAll => DrawStep::ClearAll,
            DrawCommand::MoveTo { column, row } => DrawStep::MoveTo {
                column: *column as int,
                row: *row as int,
            },
            DrawCommand::SetColor { color } => DrawStep::SetColor { color: *color },
            DrawCommand::Print { text } => DrawStep::Print { text: text@ },
        }
    }
}

/// The character for one decimal digit.
pub open spec fn digit_char(d: int) -> char {
    if d == 0 {
        '0'
    } else if d == 1 {
        '1'
    } else if d == 2 {
        '2'
    } else if d == 3 {
        '3'
    } else if d == 4 {
        '4'
    } else if d == 5 {
        '5'
    } else if d == 6 {
        '6'
    } else if d == 7 {
        '7'
    } else if d == 8 {
        '8'
    } else {
        '9'
    }
}

/// The decimal digits of a number, most significant first, with no leading
/// zeros (zero itself is the single digit `0`).
pub open spec fn dec_rep(n: int) -> Seq<char>
    recommends
        n >= 0,
    decreases n,
{
    if n < 10 {
        seq![digit_char(n)]
    } else {
        dec_rep(n / 10).push(digit_char(n % 10))
    }
}

/// The line-number gutter text of one line: its index in decimal, then one
/// space.
pub open spec fn gutter_text(i: int) -> Seq<char> {
    dec_rep(i).push(' ')
}

/// The status line text: the terminal size, the line count and the total
/// character count.
pub open spec fn status_text(width: int, height: int, line_count: int, char_count: int) -> Seq<
    char,
> {
    "Terminal Size: "@ + dec_rep(width) + " "@ + dec_rep(height) + " lines: "@ + dec_rep(
        line_count,
    ) + " Chars: "@ + dec_rep(char_count)
}

/// The draw steps for the characters of one line: each character is put in
/// its cell (two columns right of the gutter), in the color its tag names.
/// `start` is the index of the line's first character in the flat color tag
/// sequence.
pub open spec fn char_steps(
    line: Seq<char>,
    row: int,
    colors: Seq<SyntaxColor>,
    start: int,
) -> Seq<DrawStep>
    decreases line.len(),
{
    if line.len() == 0 {
        Seq::empty()
    } else {
        char_steps(line.drop_last(), row, colors, start) + seq![
            DrawStep::MoveTo { column: line.len() - 1 + 2, row },
            DrawStep::SetColor { color: colors[start + line.len() - 1] },
            DrawStep::Print { text: seq![line.last()] },
        ]
    }
}

/// The draw steps for the whole document: for each line in order, the
/// gutter in the default color, then the line's characters.
pub open spec fn line_steps(lines: Seq<Seq<char>>, colors: Seq<SyntaxColor>) -> Seq<DrawStep>
    decreases lines.len(),
{
    if lines.len() == 0 {
        Seq::empty()
    } else {
        line_steps(lines.drop_last(), colors) + seq![
            DrawStep::MoveTo { column: 0, row: lines.len() - 1 },
            DrawStep::SetColor { color: SyntaxColor::Reset },
            DrawStep::Print { text: gutter_text(lines.len() - 1) },
        ] + char_steps(lines.last(), lines.len() - 1, colors, total_chars(lines.drop_last()))
    }
}

/// The draw steps for the status line, near the bottom of the screen.  The
/// status column sits 64 cells left of the right edge; on a terminal
/// narrower than that it is clamped to column zero.
pub open spec fn status_steps(
    width: int,
    height: int,
    line_count: int,
    char_count: int,
) -> Seq<DrawStep> {
    seq![
        DrawStep::MoveTo { column: if width >= 64 { width - 64 } else { 0 }, row: height },
        DrawStep::SetColor { color: SyntaxColor::Reset },
        DrawStep::Print { text: status_text(width, height, line_count, char_count) },
    ]
}

/// The full-screen repaint: clear everything, draw every line behind its
/// gutter, draw the status line, and leave the terminal cursor on the
/// editor's cursor cell (two columns right of the gutter).
pub open spec fn render_steps(v: crate::editor::EditorView, width: int, height: int) -> Seq<
    DrawStep,
> {
    seq![DrawStep::ClearAll] + line_steps(v.lines, v.colors) + status_steps(
        width,
        height,
        v.lines.len() as int,
        total_chars(v.lines),
    ) + seq![DrawStep::MoveTo { column: v.current_char + 2, row: v.current_line }]
}

/// The color tag buffer brought to length `n`: a longer buffer is cut, a
/// shorter one is padded with the default color.
pub open spec fn resize_colors(colors: Seq<SyntaxColor>, n: int) -> Seq<SyntaxColor>
    recommends
        n >= 0,
{
    if n <= colors.len() {
        colors.take(n)
    } else {
        colors + Seq::new((n - colors.len()) as nat, |i: int| SyntaxColor::Reset)
    }
}

/// The character for a decimal digit.
fn digit_to_char(d: usize) -> (c: char)
    requires
        d < 10,
    ensures
        c == digit_char(d as int),
{
    if d == 0 {
        '0'
    } else if d == 1 {
        '1'
    } else if d == 2 {
        '2'
    } else if d == 3 {
        '3'
    } else if d == 4 {
        '4'
    } else if d == 5 {
        '5'
    } else if d == 6 {
        '6'
    } else if d == 7 {
        '7'
    } else if d == 8 {
        '8'
    } else {
        '9'
    }
}

/// The decimal digits of a number, as characters.
pub fn decimal_chars(n: usize) -> (r: Vec<char>)
    ensures
        r@ == dec_rep(n as int),
    decreases n,
{
    if n < 10 {
        let mut r: Vec<char> = Vec::new();
        r.push(digit_to_char(n));
        proof {
            assert(r@ =~= seq![digit_char(n as int)]);
        }
        r
    } else {
        let mut r = decimal_chars(n / 10);
        r.push(digit_to_char(n % 10));
        r
    }
}

/// Append the characters of a string slice to a character vector.
fn push_str_chars(v: &mut Vec<char>, s: &str)
    ensures
        final(v)@ == old(v)@ + s@,
{
    let n = s.unicode_len();
    let mut i: usize = 0;
    proof {
        assert(old(v)@ + s@.take(0) =~= old(v)@);
    }
    while i < n
        invariant
            n == s@.len(),
            i <= n,
            v@ == old(v)@ + s@.take(i as int),
        decreases n - i,
    {
        let c = s.get_char(i);
        v.push(c);
        proof {
            assert(old(v)@ + s@.take(i + 1) =~= (old(v)@ + s@.take(i as int)).push(s@[i as int]));
        }
        i = i + 1;
    }
    proof {
        assert(old(v)@ + s@.take(n as int) =~= old(v)@ + s@);
    }
}

/// Bring the color tag buffer to length `n`, cutting or padding with the
/// default color.
fn resize_tags(tags: &mut Vec<SyntaxColor>, n: usize)
    ensures
        final(tags)@ == resize_colors(old(tags)@, n as int),
{
    if n <= tags.len() {
        tags.truncate(n);
        proof {
            assert(tags@ =~= old(tags)@.take(n as int));
        }
    } else {
        proof {
            assert(tags@ =~= old(tags)@ + Seq::new(0, |k: int| SyntaxColor::Reset));
        }
        while tags.len() < n
            invariant
                old(tags)@.len() <= tags@.len() <= n,
                tags@ == old(tags)@ + Seq::new(
                    (tags@.len() - old(tags)@.len()) as nat,
                    |k: int| SyntaxColor::Reset,
                ),
            decreases n - tags.len(),
        {
            tags.push(SyntaxColor::Reset);
            proof {
                assert(tags@ =~= old(tags)@ + Seq::new(
                    (tags@.len() - old(tags)@.len()) as nat,
                    |k: int| SyntaxColor::Reset,
                ));
            }
        }
        proof {
            assert(tags@ =~= resize_colors(old(tags)@, n as int));
        }
    }
}

/// Build the draw commands for one full-screen repaint of the editor, for a
/// terminal of the given size.  The color tag buffer must already have one
/// tag per document character; the commands come out exactly as
/// [`render_steps`] says.
#[verifier::rlimit(50)]
pub fn render_commands(editor: &Editor, width: usize, height: usize) -> (cmds: Vec<DrawCommand>)
    requires
        editor.wf(),
        editor@.colors.len() == total_chars(editor@.lines),
        total_chars(editor@.lines) + 2 <= usize::MAX,
    ensures
        cmds.deep_view() == render_steps(editor@, width as int, height as int),
{
    let ghost doc = editor@.lines;
    let ghost colors = editor@.colors;
    let count = editor.syntax_color_buffer.len();
    let mut cmds: Vec<DrawCommand> = Vec::new();
    cmds.push(DrawCommand::ClearAll);
    proof {
        lemma_total_chars_nonneg(doc.take(0));
        assert(doc.take(0) =~= Seq::<Seq<char>>::empty());
        assert(cmds.deep_view() =~~= seq![DrawStep::ClearAll] + line_steps(doc.take(0), colors));
    }
    let mut c: usize = 0;
    let mut i: usize = 0;
    while i < editor.lines.len()
        invariant
            editor.wf(),
            doc == editor@.lines,
            colors == editor@.colors,
            count == editor.syntax_color_buffer.len(),
            count == total_chars(doc),
            total_chars(doc) + 2 <= usize::MAX,
            i <= editor.lines.len(),
            c == total_chars(doc.take(i as int)),
            c <= count,
            cmds.deep_view() == seq![DrawStep::ClearAll] + line_steps(doc.take(i as int), colors),
        decreases editor.lines.len() - i,
    {
        let ghost dv_line_start = cmds.deep_view();
        let mut gt = decimal_chars(i);
        gt.push(' ');
        cmds.push(DrawCommand::MoveTo { column: 0, row: i });
        cmds.push(DrawCommand::SetColor { color: SyntaxColor::Reset });
        cmds.push(DrawCommand::Print { text: gt });
        proof {
            assert(cmds.deep_view() =~~= dv_line_start + seq![
                DrawStep::MoveTo { column: 0, row: i as int },
                DrawStep::SetColor { color: SyntaxColor::Reset },
                DrawStep::Print { text: gutter_text(i as int) },
            ]);
        }
        let ghost dv_chars_start = cmds.deep_view();
        let line_len = editor.lines[i].len();
        proof {
            lemma_total_chars_take_succ(doc, i as int);
            lemma_total_chars_take_le(doc, i + 1);
            assert(doc[i as int].take(0) =~= Seq::<char>::empty());
        }
        let mut y: usize = 0;
        while y < line_len
            invariant
                editor.wf(),
                doc == editor@.lines,
                colors == editor@.colors,
                count == editor.syntax_color_buffer.len(),
                count == total_chars(doc),
                total_chars(doc) + 2 <= usize::MAX,
                i < editor.lines.len(),
                line_len == doc[i as int].len(),
                c == total_chars(doc.take(i as int)),
                c + line_len <= count,
                y <= line_len,
                cmds.deep_view() == dv_chars_start + char_steps(
                    doc[i as int].take(y as int),
                    i as int,
                    colors,
                    c as int,
                ),
            decreases line_len - y,
        {
            let ch = editor.lines[i][y];
            let col = editor.syntax_color_buffer[c + y];
            let ghost dv0 = cmds.deep_view();
            cmds.push(DrawCommand::MoveTo { column: y + 2, row: i });
            cmds.push(DrawCommand::SetColor { color: col });
            let mut t: Vec<char> = Vec::new();
            t.push(ch);
            cmds.push(DrawCommand::Print { text: t });
            proof {
                assert(doc[i as int].take(y + 1).drop_last() =~= doc[i as int].take(y as int));
                assert(doc[i as int].take(y + 1).last() == doc[i as int][y as int]);
                assert(t@ =~= seq![doc[i as int][y as int]]);
                assert(cmds.deep_view() =~~= dv0 + seq![
                    DrawStep::MoveTo { column: y + 2, row: i as int },
                    DrawStep::SetColor { color: colors[c + y] },
                    DrawStep::Print { text: seq![doc[i as int][y as int]] },
                ]);
                assert(cmds.deep_view() =~~= dv_chars_start + char_steps(
                    doc[i as int].take(y + 1),
                    i as int,
                    colors,
                    c as int,
                ));
            }
            y = y + 1;
        }
        proof {
            assert(doc[i as int].take(line_len as int) =~= doc[i as int]);
            assert(doc.take(i + 1).drop_last() =~= doc.take(i as int));
            assert(doc.take(i + 1).last() == doc[i as int]);
            assert(cmds.deep_view() =~~= seq![DrawStep::ClearAll] + line_steps(
                doc.take(i + 1),
                colors,
            ));
        }
        c = c + line_len;
        i = i + 1;
    }
    proof {
        assert(doc.take(editor.lines@.len() as int) =~= doc);
    }
    let ghost dv_status_start = cmds.deep_view();
    let scol = if width >= 64 {
        width - 64
    } else {
        0
    };
    cmds.push(DrawCommand::MoveTo { column: scol, row: height });
    cmds.push(DrawCommand::SetColor { color: SyntaxColor::Reset });
    let mut st: Vec<char> = Vec::new();
    push_str_chars(&mut st, "Terminal Size: ");
    let mut d1 = decimal_chars(width);
    st.append(&mut d1);
    push_str_chars(&mut st, " ");
    let mut d2 = decimal_chars(height);
    st.append(&mut d2);
    push_str_chars(&mut st, " lines: ");
    let mut d3 = decimal_chars(editor.lines.len());
    st.append(&mut d3);
    push_str_chars(&mut st, " Chars: ");
    let mut d4 = decimal_chars(count);
    st.append(&mut d4);
    proof {
        assert(st@ =~= status_text(width as int, height as int, doc.len() as int, count as int));
    }
    cmds.push(DrawCommand::Print { text: st });
    proof {
        lemma_line_len_le_total_chars(doc, editor.current_line as int);
    }
    let ccol = editor.current_char + 2;
    cmds.push(DrawCommand::MoveTo { column: ccol, row: editor.current_line });
    proof {
        assert(cmds.deep_view() =~~= render_steps(editor@, width as int, height as int));
    }
    cmds
}

/// Recompute the color tag buffer's length from the document (cutting or
/// padding with the default color when it has gone stale) and build the
/// draw commands for one full-screen repaint.  Nothing else in the editor
/// state changes.
pub fn editor_draw(editor: &mut Editor, width: usize, height: usize) -> (cmds: Vec<DrawCommand>)
    requires
        old(editor).wf(),
        total_chars(old(editor)@.lines) + 2 <= usize::MAX,
    ensures
        final(editor).wf(),
        final(editor)@.lines == old(editor)@.lines,
        final(editor)@.current_line == old(editor)@.current_line,
        final(editor)@.current_char == old(editor)@.current_char,
        final(editor)@.previous_current_char == old(editor)@.previous_current_char,
        final(editor)@.colors == resize_colors(
            old(editor)@.colors,
            total_chars(old(editor)@.lines),
        ),
        cmds.deep_view() == render_steps(final(editor)@, width as int, height as int),
{
    let ghost doc = editor@.lines;
    let mut count: usize = 0;
    let mut i: usize = 0;
    proof {
        assert(doc.take(0) =~= Seq::<Seq<char>>::empty());
    }
    while i < editor.lines.len()
        invariant
            *editor == *old(editor),
            editor.wf(),
            doc == editor@.lines,
            total_chars(doc) + 2 <= usize::MAX,
            i <= editor.lines.len(),
            count == total_chars(doc.take(i as int)),
        decreases editor.lines.len() - i,
    {
        proof {
            lemma_total_chars_take_succ(doc, i as int);
            lemma_total_chars_take_le(doc, i + 1);
        }
        count = count + editor.lines[i].len();
        i = i + 1;
    }
    proof {
        assert(doc.take(editor.lines@.len() as int) =~= doc);
    }
    if editor.syntax_color_buffer.len() != count {
        resize_tags(&mut editor.syntax_color_buffer, count);
    } else {
        proof {
            assert(editor@.colors =~= resize_colors(old(editor)@.colors, count as int));
        }
    }
    render_commands(editor, width, height)
}

} // verus!
