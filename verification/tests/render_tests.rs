use tedit::editor::Editor;
use tedit::highlight::editor_syntax_highlighting;
use tedit::highlight::SyntaxColor;
use tedit::render::decimal_chars;
use tedit::render::editor_draw;
use tedit::render::DrawCommand;

fn editor_with(lines: &[&str], line: usize, ch: usize, prev: usize) -> Editor {
    let mut e = Editor::new();
    e.lines = lines.iter().map(|s| s.chars().collect()).collect();
    e.current_line = line;
    e.current_char = ch;
    e.previous_current_char = prev;
    e
}

fn chars(s: &str) -> Vec<char> {
    s.chars().collect()
}

#[test]
fn decimal_digits_render_most_significant_first() {
    assert_eq!(decimal_chars(0), chars("0"));
    assert_eq!(decimal_chars(7), chars("7"));
    assert_eq!(decimal_chars(10), chars("10"));
    assert_eq!(decimal_chars(205), chars("205"));
    assert_eq!(decimal_chars(1000), chars("1000"));
}

#[test]
fn full_repaint_of_a_highlighted_line() {
    let mut e = editor_with(&["a="], 0, 1, 1);
    editor_syntax_highlighting(&mut e);
    let cmds = editor_draw(&mut e, 80, 24);
    let expected = vec![
        DrawCommand::ClearAll,
        DrawCommand::MoveTo { column: 0, row: 0 },
        DrawCommand::SetColor { color: SyntaxColor::Reset },
        DrawCommand::Print { text: chars("0 ") },
        DrawCommand::MoveTo { column: 2, row: 0 },
        DrawCommand::SetColor { color: SyntaxColor::Reset },
        DrawCommand::Print { text: chars("a") },
        DrawCommand::MoveTo { column: 3, row: 0 },
        DrawCommand::SetColor { color: SyntaxColor::Operator },
        DrawCommand::Print { text: chars("=") },
        DrawCommand::MoveTo { column: 16, row: 24 },
        DrawCommand::SetColor { color: SyntaxColor::Reset },
        DrawCommand::Print { text: chars("Terminal Size: 80 24 lines: 1 Chars: 2") },
        DrawCommand::MoveTo { column: 3, row: 0 },
    ];
    assert_eq!(cmds, expected);
}

#[test]
fn status_column_is_clamped_on_a_narrow_terminal() {
    let mut e = Editor::new();
    editor_syntax_highlighting(&mut e);
    let cmds = editor_draw(&mut e, 10, 5);
    assert_eq!(cmds[4], DrawCommand::MoveTo { column: 0, row: 5 });
    assert_eq!(
        cmds[6],
        DrawCommand::Print { text: chars("Terminal Size: 10 5 lines: 1 Chars: 0") }
    );
}

#[test]
fn terminal_cursor_lands_right_of_the_gutter() {
    let mut e = editor_with(&["ab", "cdef"], 1, 3, 3);
    editor_syntax_highlighting(&mut e);
    let cmds = editor_draw(&mut e, 80, 24);
    assert_eq!(cmds.last(), Some(&DrawCommand::MoveTo { column: 5, row: 1 }));
}

#[test]
fn two_digit_line_numbers_appear_in_the_gutter() {
    let lines = vec![""; 11];
    let mut e = editor_with(&lines, 0, 0, 0);
    editor_syntax_highlighting(&mut e);
    let cmds = editor_draw(&mut e, 80, 24);
    assert!(cmds.contains(&DrawCommand::Print { text: chars("10 ") }));
}

#[test]
fn stale_short_tag_buffer_is_padded_with_the_default_color() {
    let mut e = editor_with(&["ab"], 0, 0, 0);
    // the highlighter has not run: the tag buffer is empty and stale
    let cmds = editor_draw(&mut e, 80, 24);
    assert_eq!(e.syntax_color_buffer, vec![SyntaxColor::Reset; 2]);
    assert_eq!(cmds[5], DrawCommand::SetColor { color: SyntaxColor::Reset });
    assert_eq!(cmds[8], DrawCommand::SetColor { color: SyntaxColor::Reset });
}

#[test]
fn stale_long_tag_buffer_is_cut_to_the_document() {
    let mut e = editor_with(&["ab"], 0, 0, 0);
    e.syntax_color_buffer = vec![SyntaxColor::Quoted; 5];
    let cmds = editor_draw(&mut e, 80, 24);
    assert_eq!(e.syntax_color_buffer, vec![SyntaxColor::Quoted; 2]);
    assert_eq!(cmds[5], DrawCommand::SetColor { color: SyntaxColor::Quoted });
}

#[test]
fn matching_tag_buffer_is_left_alone() {
    let mut e = editor_with(&["ab"], 0, 0, 0);
    e.syntax_color_buffer = vec![SyntaxColor::Numeric; 2];
    editor_draw(&mut e, 80, 24);
    assert_eq!(e.syntax_color_buffer, vec![SyntaxColor::Numeric; 2]);
}
