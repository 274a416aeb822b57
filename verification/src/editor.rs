//! The editor state: a document of lines, a cursor, the remembered column,
//! and the derived per-character color tags, together with the event
//! processor that turns one key event into one state transition.

use vstd::prelude::*;

use crate::highlight::SyntaxColor;

verus! {

/// One key event, as the editor understands it.  Events the editor does not
/// recognize arrive as `Other` and leave the state unchanged.
#[derive(Clone, Copy, PartialEq, Eq, Structural, Debug)]
pub enum EditorEvent {
    Escape,
    Enter,
    Backspace,
    Left,
    Right,
    Up,
    Down,
    Char(char),
    Other,
}

/// Whether the session goes on after an event.
#[derive(Clone, Copy, PartialEq, Eq, Structural, Debug)]
pub enum ProcessResult {
    EditorQuit,
    EditorOk,
}

/// The editor state.  `lines` always holds at least one line; the cursor
/// `(current_line, current_char)` always points into the document, with
/// `current_char` allowed to equal the line length (the insertion point after
/// the last character).  `previous_current_char` is the remembered column:
/// the last explicitly chosen horizontal position, restored (clamped) by
/// vertical moves.  `syntax_color_buffer` is derived state: one color tag per
/// document character, recomputed by the highlighter.
pub struct Editor {
    pub lines: Vec<Vec<char>>,
    pub current_line: usize,
    pub current_char: usize,
    pub previous_current_char: usize,
    pub syntax_color_buffer: Vec<SyntaxColor>,
}

/// The mathematical value of an [`Editor`].
#[verifier::ext_equal]
pub struct EditorView {
    pub lines: Seq<Seq<char>>,
    pub current_line: int,
    pub current_char: int,
    pub previous_current_char: int,
    pub colors: Seq<SyntaxColor>,
}

impl View for Editor {
    type V = EditorView;

    open spec fn view(&self) -> EditorView {
        EditorView {
            lines: self.lines.deep_view(),
            current_line: self.current_line as int,
            current_char: self.current_char as int,
            previous_current_char: self.previous_current_char as int,
            colors: self.syntax_color_buffer@,
        }
    }
}

impl EditorView {
    /// The document has at least one line and the cursor is in range:
    /// `current_line` indexes a line, `current_char` is at most that line's
    /// length.
    pub open spec fn wf(self) -> bool {
        &&& self.lines.len() >= 1
        &&& 0 <= self.current_line < self.lines.len()
        &&& 0 <= self.current_char <= self.lines[self.current_line].len()
        &&& 0 <= self.previous_current_char
    }
}

/// The total number of characters in the document (line breaks not counted).
pub open spec fn total_chars(lines: Seq<Seq<char>>) -> int
    decreases lines.len(),
{
    if lines.len() == 0 {
        0
    } else {
        total_chars(lines.drop_last()) + lines.last().len()
    }
}

/// The character count is never negative.
pub proof fn lemma_total_chars_nonneg(lines: Seq<Seq<char>>)
    ensures
        total_chars(lines) >= 0,
    decreases lines.len(),
{
    if lines.len() > 0 {
        lemma_total_chars_nonneg(lines.drop_last());
    }
}

/// Extending a prefix of the document by one line adds that line's length
/// to the prefix's character count.
pub proof fn lemma_total_chars_take_succ(lines: Seq<Seq<char>>, i: int)
    requires
        0 <= i < lines.len(),
    ensures
        total_chars(lines.take(i + 1)) == total_chars(lines.take(i)) + lines[i].len(),
{
    assert(lines.take(i + 1).drop_last() =~= lines.take(i));
    assert(lines.take(i + 1).last() == lines[i]);
}

/// A prefix of the document never holds more characters than the whole.
pub proof fn lemma_total_chars_take_le(lines: Seq<Seq<char>>, i: int)
    requires
        0 <= i <= lines.len(),
    ensures
        total_chars(lines.take(i)) <= total_chars(lines),
    decreases lines.len() - i,
{
    if i == lines.len() {
        assert(lines.take(i) =~= lines);
    } else {
        lemma_total_chars_take_succ(lines, i);
        lemma_total_chars_take_le(lines, i + 1);
    }
}

/// No single line holds more characters than the whole document.
pub proof fn lemma_line_len_le_total_chars(lines: Seq<Seq<char>>, i: int)
    requires
        0 <= i < lines.len(),
    ensures
        lines[i].len() <= total_chars(lines),
{
    lemma_total_chars_nonneg(lines.take(i));
    lemma_total_chars_take_succ(lines, i);
    lemma_total_chars_take_le(lines, i + 1);
}

/// The state after pressing Enter.  An empty line, or a cursor sitting on
/// the last character, only opens a fresh empty line below; otherwise the
/// line is split at the cursor, the text from the cursor onward moving to
/// the new line.  The cursor lands at the start of the new line.  The
/// remembered column is reset to zero when a fresh line is opened, and left
/// alone by the split.
pub open spec fn enter_transition(pre: EditorView) -> EditorView
    recommends
        pre.wf(),
{
    let line = pre.lines[pre.current_line];
    if line.len() == 0 || pre.current_char == line.len() - 1 {
        EditorView {
            lines: pre.lines.insert(pre.current_line + 1, Seq::<char>::empty()),
            current_line: pre.current_line + 1,
            current_char: 0,
            previous_current_char: 0,
            ..pre
        }
    } else {
        EditorView {
            lines: pre.lines.update(pre.current_line, line.take(pre.current_char)).insert(
                pre.current_line + 1,
                line.skip(pre.current_char),
            ),
            current_line: pre.current_line + 1,
            current_char: 0,
            ..pre
        }
    }
}

/// The state after pressing Backspace.  Inside a line the character before
/// the cursor is deleted.  At column zero of a line other than the first,
/// the whole current line is removed — its text is discarded, not joined to
/// the line above — and the cursor moves to the end of the line above.  At
/// the very start of the document nothing happens.
pub open spec fn backspace_transition(pre: EditorView) -> EditorView
    recommends
        pre.wf(),
{
    if pre.current_char > 0 {
        let line = pre.lines[pre.current_line];
        EditorView {
            lines: pre.lines.update(pre.current_line, line.remove(pre.current_char - 1)),
            current_char: pre.current_char - 1,
            previous_current_char: pre.current_char - 1,
            ..pre
        }
    } else if pre.current_line > 0 {
        EditorView {
            lines: pre.lines.remove(pre.current_line),
            current_line: pre.current_line - 1,
            current_char: pre.lines[pre.current_line - 1].len() as int,
            previous_current_char: pre.lines[pre.current_line - 1].len() as int,
            ..pre
        }
    } else {
        pre
    }
}

/// The state after pressing Left: one step back, or to the end of the line
/// above when already at column zero.  Every move records the new column as
/// the remembered column.
pub open spec fn left_transition(pre: EditorView) -> EditorView
    recommends
        pre.wf(),
{
    if pre.current_char > 0 {
        EditorView {
            current_char: pre.current_char - 1,
            previous_current_char: pre.current_char - 1,
            ..pre
        }
    } else if pre.current_line > 0 {
        EditorView {
            current_line: pre.current_line - 1,
            current_char: pre.lines[pre.current_line - 1].len() as int,
            previous_current_char: pre.lines[pre.current_line - 1].len() as int,
            ..pre
        }
    } else {
        pre
    }
}

/// The state after pressing Right: one step forward while a character is
/// left on the line, or to the start of the next line when past the last
/// character.  Every move records the new column as the remembered column.
pub open spec fn right_transition(pre: EditorView) -> EditorView
    recommends
        pre.wf(),
{
    if pre.current_char < pre.lines[pre.current_line].len() {
        EditorView {
            current_char: pre.current_char + 1,
            previous_current_char: pre.current_char + 1,
            ..pre
        }
    } else if pre.current_line < pre.lines.len() - 1 {
        EditorView { current_line: pre.current_line + 1, current_char: 0, previous_current_char: 0, ..pre }
    } else {
        pre
    }
}

/// The column a vertical move lands on: the remembered column, clamped to
/// the target line's length.
pub open spec fn clamped_column(pre: EditorView, target: int) -> int {
    if pre.lines[target].len() < pre.previous_current_char {
        pre.lines[target].len() as int
    } else {
        pre.previous_current_char
    }
}

/// The state after pressing Up: to the line above, at the remembered column
/// clamped to that line's length.  The remembered column itself is not
/// touched, so a later move to a longer line restores it.
pub open spec fn up_transition(pre: EditorView) -> EditorView
    recommends
        pre.wf(),
{
    if pre.current_line > 0 {
        EditorView {
            current_line: pre.current_line - 1,
            current_char: clamped_column(pre, pre.current_line - 1),
            ..pre
        }
    } else {
        pre
    }
}

/// The state after pressing Down, symmetric to [`up_transition`].
pub open spec fn down_transition(pre: EditorView) -> EditorView
    recommends
        pre.wf(),
{
    if pre.current_line < pre.lines.len() - 1 {
        EditorView {
            current_line: pre.current_line + 1,
            current_char: clamped_column(pre, pre.current_line + 1),
            ..pre
        }
    } else {
        pre
    }
}

/// The state after typing a printable character: it is inserted at the
/// cursor, the cursor steps past it, and the new column becomes the
/// remembered column.  A newline character is ignored.
pub open spec fn insert_transition(pre: EditorView, c: char) -> EditorView
    recommends
        pre.wf(),
{
    if c != '\n' {
        EditorView {
            lines: pre.lines.update(
                pre.current_line,
                pre.lines[pre.current_line].insert(pre.current_char, c),
            ),
            current_char: pre.current_char + 1,
            previous_current_char: pre.current_char + 1,
            ..pre
        }
    } else {
        pre
    }
}

/// The state after one event: Escape and unrecognized events leave the
/// state unchanged; every other event acts as its transition function says.
/// The color tags are never touched here — they are derived state, owned by
/// the highlighter.
pub open spec fn process_transition(pre: EditorView, event: EditorEvent) -> EditorView
    recommends
        pre.wf(),
{
    match event {
        EditorEvent::Escape => pre,
        EditorEvent::Enter => enter_transition(pre),
        EditorEvent::Backspace => backspace_transition(pre),
        EditorEvent::Left => left_transition(pre),
        EditorEvent::Right => right_transition(pre),
        EditorEvent::Up => up_transition(pre),
        EditorEvent::Down => down_transition(pre),
        EditorEvent::Char(c) => insert_transition(pre, c),
        EditorEvent::Other => pre,
    }
}

/// Whether an event ends the session: exactly the Escape key does.
pub open spec fn process_result(event: EditorEvent) -> ProcessResult {
    if event == EditorEvent::Escape {
        ProcessResult::EditorQuit
    } else {
        ProcessResult::EditorOk
    }
}

impl Editor {
    /// The state invariant, on the mathematical value.
    pub open spec fn wf(self) -> bool {
        self@.wf()
    }

    /// A fresh editor: one empty line, cursor at the top-left, remembered
    /// column zero, no color tags yet.
    pub fn new() -> (e: Editor)
        ensures
            e.wf(),
            e@.lines == seq![Seq::<char>::empty()],
            e@.current_line == 0,
            e@.current_char == 0,
            e@.previous_current_char == 0,
            e@.colors == Seq::<SyntaxColor>::empty(),
    {
        let mut lines: Vec<Vec<char>> = Vec::new();
        lines.push(Vec::new());
        let e = Editor {
            lines,
            current_line: 0,
            current_char: 0,
            previous_current_char: 0,
            syntax_color_buffer: Vec::new(),
        };
        proof {
            assert(e@.lines =~~= seq![Seq::<char>::empty()]);
        }
        e
    }
}

/// The state after a whole sequence of events, applied in order.
pub open spec fn process_all(pre: EditorView, events: Seq<EditorEvent>) -> EditorView
    decreases events.len(),
{
    if events.len() == 0 {
        pre
    } else {
        process_all(process_transition(pre, events[0]), events.skip(1))
    }
}

/// One event keeps the editor well formed: the document keeps at least one
/// line and the cursor stays inside it.
pub proof fn lemma_process_preserves_wf(pre: EditorView, event: EditorEvent)
    requires
        pre.wf(),
    ensures
        process_transition(pre, event).wf(),
{
    match event {
        EditorEvent::Enter => {
            let line = pre.lines[pre.current_line];
            if line.len() == 0 || pre.current_char == line.len() - 1 {
                pre.lines.insert_ensures(pre.current_line + 1, Seq::<char>::empty());
            } else {
                pre.lines.update(pre.current_line, line.take(pre.current_char)).insert_ensures(
                    pre.current_line + 1,
                    line.skip(pre.current_char),
                );
            }
        },
        EditorEvent::Backspace => {
            if pre.current_char == 0 && pre.current_line > 0 {
                pre.lines.remove_ensures(pre.current_line);
            }
        },
        EditorEvent::Char(c) => {
            let post = insert_transition(pre, c);
            assert(post.current_char <= post.lines[post.current_line].len());
        },
        _ => {},
    }
}

/// Any sequence of events keeps the editor well formed.
pub proof fn lemma_process_all_preserves_wf(pre: EditorView, events: Seq<EditorEvent>)
    requires
        pre.wf(),
    ensures
        process_all(pre, events).wf(),
    decreases events.len(),
{
    if events.len() > 0 {
        lemma_process_preserves_wf(pre, events[0]);
        lemma_process_all_preserves_wf(process_transition(pre, events[0]), events.skip(1));
    }
}

/// Pressing Enter with the cursor on the last character of a line and then
/// pressing Backspace restores the document exactly (Enter only opened a
/// fresh empty line there, and Backspace removes it again); the cursor comes
/// back to the same line, at its end.  With the cursor strictly inside the
/// line this round trip does not restore the document: Enter splits the line
/// and Backspace then discards the text that had moved to the new line.
pub proof fn lemma_enter_backspace_restores_lines(pre: EditorView)
    requires
        pre.wf(),
        pre.lines[pre.current_line].len() >= 1,
        pre.current_char == pre.lines[pre.current_line].len() - 1,
    ensures
        ({
            let post = process_transition(
                process_transition(pre, EditorEvent::Enter),
                EditorEvent::Backspace,
            );
            &&& post.lines == pre.lines
            &&& post.current_line == pre.current_line
            &&& post.current_char == pre.lines[pre.current_line].len()
        }),
{
    let mid = process_transition(pre, EditorEvent::Enter);
    let post = process_transition(mid, EditorEvent::Backspace);
    assert(post.lines =~~= pre.lines);
}

/// Apply one key event to the editor and say whether the session goes on.
/// The new state is exactly what [`process_transition`] says; only the
/// Escape key ends the session, and it leaves the state untouched.
#[verifier::rlimit(50)]
pub fn editor_process(editor: &mut Editor, event: EditorEvent) -> (r: ProcessResult)
    requires
        old(editor).wf(),
    ensures
        final(editor).wf(),
        final(editor)@ == process_transition(old(editor)@, event),
        r == process_result(event),
{
    let ghost pre = editor@;
    match event {
        EditorEvent::Escape => {
            return ProcessResult::EditorQuit;
        },
        EditorEvent::Enter => {
            let line_len = editor.lines[editor.current_line].len();
            proof {
                assert(editor.current_line < editor.lines.len());
            }
            if line_len == 0 || editor.current_char == line_len - 1 {
                editor.current_line = editor.current_line + 1;
                editor.lines.insert(editor.current_line, Vec::new());
                editor.current_char = 0;
                editor.previous_current_char = 0;
                proof {
                    assert(editor@.lines =~~= enter_transition(pre).lines);
                }
            } else {
                let mut line = editor.lines.remove(editor.current_line);
                let tail = line.split_off(editor.current_char);
                editor.lines.insert(editor.current_line, line);
                editor.current_line = editor.current_line + 1;
                editor.lines.insert(editor.current_line, tail);
                editor.current_char = 0;
                proof {
                    assert(editor@.lines =~~= enter_transition(pre).lines);
                }
            }
        },
        EditorEvent::Backspace => {
            if editor.current_char > 0 {
                editor.current_char = editor.current_char - 1;
                let mut line = editor.lines.remove(editor.current_line);
                line.remove(editor.current_char);
                editor.lines.insert(editor.current_line, line);
                editor.previous_current_char = editor.current_char;
                proof {
                    assert(editor@.lines =~~= backspace_transition(pre).lines);
                }
            } else if editor.current_line > 0 {
                editor.lines.remove(editor.current_line);
                editor.current_line = editor.current_line - 1;
                editor.current_char = editor.lines[editor.current_line].len();
                editor.previous_current_char = editor.current_char;
                proof {
                    assert(editor@.lines =~~= backspace_transition(pre).lines);
                }
            }
        },
        EditorEvent::Left => {
            if editor.current_char > 0 {
                editor.current_char = editor.current_char - 1;
                editor.previous_current_char = editor.current_char;
            } else if editor.current_line > 0 {
                editor.current_line = editor.current_line - 1;
                editor.current_char = editor.lines[editor.current_line].len();
                editor.previous_current_char = editor.current_char;
            }
        },
        EditorEvent::Right => {
            let line_len = editor.lines[editor.current_line].len();
            if editor.current_char < line_len {
                editor.current_char = editor.current_char + 1;
                editor.previous_current_char = editor.current_char;
            } else if editor.current_line < editor.lines.len() - 1 {
                editor.current_line = editor.current_line + 1;
                editor.current_char = 0;
                editor.previous_current_char = 0;
            }
        },
        EditorEvent::Up => {
            if editor.current_line > 0 {
                editor.current_line = editor.current_line - 1;
                let line_len = editor.lines[editor.current_line].len();
                if line_len < editor.previous_current_char {
                    editor.current_char = line_len;
                } else {
                    editor.current_char = editor.previous_current_char;
                }
            }
        },
        EditorEvent::Down => {
            if editor.current_line < editor.lines.len() - 1 {
                editor.current_line = editor.current_line + 1;
                let line_len = editor.lines[editor.current_line].len();
                if line_len < editor.previous_current_char {
                    editor.current_char = line_len;
                } else {
                    editor.current_char = editor.previous_current_char;
                }
            }
        },
        EditorEvent::Char(c) => {
            if c != '\n' {
                let mut line = editor.lines.remove(editor.current_line);
                line.insert(editor.current_char, c);
                editor.lines.insert(editor.current_line, line);
                proof {
                    assert(editor.current_char < editor.lines@[editor.current_line as int].len());
                }
                editor.current_char = editor.current_char + 1;
                editor.previous_current_char = editor.current_char;
                proof {
                    assert(editor@.lines =~~= insert_transition(pre, c).lines);
                }
            }
        },
        EditorEvent::Other => {},
    }
    ProcessResult::EditorOk
}

} // verus!
