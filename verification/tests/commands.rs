use lbl::command::{parse_command, Command};
use lbl::numbers::{parse_usize, render_prefix, render_usize};

fn cs(s: &str) -> Vec<char> {
    s.chars().collect()
}

fn s_of(v: &[char]) -> String {
    v.iter().collect()
}

#[test]
fn quit_command() {
    assert_eq!(parse_command(&cs("Q\n")), Command::Quit);
}

#[test]
fn help_command() {
    assert_eq!(parse_command(&cs("H\n")), Command::Help);
}

#[test]
fn open_command_takes_path() {
    assert_eq!(parse_command(&cs("O notes.txt\n")), Command::Open(cs("notes.txt")));
}

#[test]
fn open_without_path_is_invalid() {
    assert_eq!(parse_command(&cs("O\n")), Command::Invalid);
}

#[test]
fn save_without_name() {
    assert_eq!(parse_command(&cs("S\n")), Command::Save(None));
}

#[test]
fn save_with_name() {
    assert_eq!(parse_command(&cs("S out.txt\n")), Command::Save(Some(cs("out.txt"))));
}

#[test]
fn append_command() {
    assert_eq!(parse_command(&cs("A\n")), Command::Append);
}

#[test]
fn append_with_argument_is_invalid() {
    assert_eq!(parse_command(&cs("A now\n")), Command::Invalid);
}

#[test]
fn list_without_range() {
    assert_eq!(parse_command(&cs("L\n")), Command::List(None));
}

#[test]
fn list_with_range() {
    assert_eq!(parse_command(&cs("L 1-3\n")), Command::List(Some(cs("1-3"))));
}

#[test]
fn edit_command_takes_line() {
    assert_eq!(parse_command(&cs("E 2\n")), Command::Edit(cs("2")));
}

#[test]
fn edit_without_line_is_invalid() {
    assert_eq!(parse_command(&cs("E\n")), Command::Invalid);
}

#[test]
fn new_command() {
    assert_eq!(parse_command(&cs("C\n")), Command::New);
}

#[test]
fn quit_with_argument_is_invalid() {
    assert_eq!(parse_command(&cs("Q now\n")), Command::Invalid);
}

#[test]
fn unknown_letter_is_invalid() {
    assert_eq!(parse_command(&cs("X\n")), Command::Invalid);
}

#[test]
fn long_word_is_invalid() {
    assert_eq!(parse_command(&cs("QUIT\n")), Command::Invalid);
}

#[test]
fn blank_line_is_empty() {
    assert_eq!(parse_command(&cs("   \n")), Command::Empty);
    assert_eq!(parse_command(&cs("")), Command::Empty);
}

#[test]
fn tokens_past_the_second_are_ignored() {
    assert_eq!(parse_command(&cs("O a.txt b.txt\n")), Command::Open(cs("a.txt")));
    assert_eq!(parse_command(&cs("L 1-2 junk more\n")), Command::List(Some(cs("1-2"))));
}

#[test]
fn leading_whitespace_is_trimmed() {
    assert_eq!(parse_command(&cs("  Q  \n")), Command::Quit);
}

#[test]
fn parse_plain_number() {
    assert_eq!(parse_usize(&cs("42")), Some(42));
    assert_eq!(parse_usize(&cs("0")), Some(0));
}

#[test]
fn parse_number_with_plus_sign() {
    assert_eq!(parse_usize(&cs("+7")), Some(7));
}

#[test]
fn parse_rejects_bad_numerals() {
    assert_eq!(parse_usize(&cs("")), None);
    assert_eq!(parse_usize(&cs("+")), None);
    assert_eq!(parse_usize(&cs("4x")), None);
    assert_eq!(parse_usize(&cs("-1")), None);
}

#[test]
fn parse_rejects_overflow() {
    assert_eq!(parse_usize(&cs("99999999999999999999999999")), None);
}

#[test]
fn prefix_is_right_justified_in_four_columns() {
    assert_eq!(s_of(&render_prefix(0)), "   0| ");
    assert_eq!(s_of(&render_prefix(42)), "  42| ");
    assert_eq!(s_of(&render_prefix(12345)), "12345| ");
}

#[test]
fn decimal_rendering() {
    assert_eq!(s_of(&render_usize(0)), "0");
    assert_eq!(s_of(&render_usize(907)), "907");
}
