use tedit::editor::Editor;
use tedit::highlight::editor_syntax_highlighting;
use tedit::highlight::SyntaxColor;
use tedit::highlight::SyntaxColor::Bracket;
use tedit::highlight::SyntaxColor::Numeric;
use tedit::highlight::SyntaxColor::Operator;
use tedit::highlight::SyntaxColor::Quoted;
use tedit::highlight::SyntaxColor::Reset;

fn editor_with(lines: &[&str]) -> Editor {
    let mut e = Editor::new();
    e.lines = lines.iter().map(|s| s.chars().collect()).collect();
    e
}

#[test]
fn classification_priority_on_mixed_line() {
    let mut e = editor_with(&["a=(3+\"x\")"]);
    editor_syntax_highlighting(&mut e);
    assert_eq!(
        e.syntax_color_buffer,
        vec![Reset, Operator, Bracket, Numeric, Operator, Quoted, Quoted, Quoted, Bracket]
    );
}

#[test]
fn every_bracket_character_is_bracket_colored() {
    let mut e = editor_with(&["()[]{}"]);
    editor_syntax_highlighting(&mut e);
    assert_eq!(e.syntax_color_buffer, vec![Bracket; 6]);
}

#[test]
fn every_operator_character_is_operator_colored() {
    let mut e = editor_with(&["-+/*^%="]);
    editor_syntax_highlighting(&mut e);
    assert_eq!(e.syntax_color_buffer, vec![Operator; 7]);
}

#[test]
fn every_digit_is_numeric_colored() {
    let mut e = editor_with(&["0123456789"]);
    editor_syntax_highlighting(&mut e);
    assert_eq!(e.syntax_color_buffer, vec![Numeric; 10]);
}

#[test]
fn plain_letters_are_uncolored() {
    let mut e = editor_with(&["hello world"]);
    editor_syntax_highlighting(&mut e);
    assert_eq!(e.syntax_color_buffer, vec![Reset; 11]);
}

#[test]
fn digits_inside_a_string_are_string_colored() {
    let mut e = editor_with(&["\"12\"3"]);
    editor_syntax_highlighting(&mut e);
    assert_eq!(e.syntax_color_buffer, vec![Quoted, Quoted, Quoted, Quoted, Numeric]);
}

#[test]
fn unterminated_quote_leaks_into_following_lines() {
    let mut e = editor_with(&["say \"hello", "world\" ok"]);
    editor_syntax_highlighting(&mut e);
    let b = &e.syntax_color_buffer;
    assert_eq!(b.len(), 19);
    // "say " before the quote is uncolored
    for k in 0..4 {
        assert_eq!(b[k], Reset);
    }
    // from the opening quote through the closing quote on the next line,
    // everything is string colored
    for k in 4..16 {
        assert_eq!(b[k], Quoted);
    }
    // after the closing quote the scan is outside a string again
    for k in 16..19 {
        assert_eq!(b[k], Reset);
    }
}

#[test]
fn highlighting_twice_gives_identical_tags() {
    let mut e = editor_with(&["a=(3+\"x", "y\")2"]);
    editor_syntax_highlighting(&mut e);
    let first = e.syntax_color_buffer.clone();
    editor_syntax_highlighting(&mut e);
    assert_eq!(e.syntax_color_buffer, first);
}

#[test]
fn tag_buffer_has_one_tag_per_character() {
    let mut e = editor_with(&["abc", "", "de"]);
    editor_syntax_highlighting(&mut e);
    assert_eq!(e.syntax_color_buffer.len(), 5);
}

#[test]
fn empty_document_gives_empty_tag_buffer() {
    let mut e = Editor::new();
    e.syntax_color_buffer = vec![SyntaxColor::Quoted; 3];
    editor_syntax_highlighting(&mut e);
    assert!(e.syntax_color_buffer.is_empty());
}
