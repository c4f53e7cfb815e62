use lbl::session::{ListOutcome, Session};

fn cs(s: &str) -> Vec<char> {
    s.chars().collect()
}

fn s_of(v: &[char]) -> String {
    v.iter().collect()
}

fn buffer_with(text: &str) -> Session {
    let mut s = Session::new();
    s.append_line(&cs(text));
    s
}

fn listed(s: &Session, range: Option<&str>) -> Vec<String> {
    let arg = range.map(cs);
    match s.list(arg.as_ref()) {
        ListOutcome::Lines(out) => out.iter().map(|l| s_of(l)).collect(),
        ListOutcome::InvalidRange => panic!("range was reported invalid"),
    }
}

#[test]
fn append_then_list_two_lines() {
    let mut s = Session::new();
    s.append_line(&cs("hello\n"));
    s.append_line(&cs("world\n"));
    assert_eq!(s_of(&s.buffer), "hello\nworld\n");
    assert_eq!(s.line_count(), 2);
    assert_eq!(listed(&s, None), vec!["   0| hello", "   1| world"]);
}

#[test]
fn edit_walks_to_the_end_then_appends_nothing() {
    let mut s = buffer_with("a\nb\nc");
    let mut st = s.begin_edit(1);
    assert!(st.in_walk());
    assert_eq!(st.position(), 1);
    st.replace_line(&cs("B\n"));
    assert!(st.in_walk());
    assert_eq!(st.position(), 2);
    st.replace_line(&cs("C\n"));
    assert!(!st.in_walk());
    s.commit_edit(&st);
    assert_eq!(s_of(&s.buffer), "a\nB\nC");
}

#[test]
fn save_with_no_name_and_no_file_resolves_to_nothing() {
    let s = Session::new();
    assert!(s.save_target(None).is_none());
    assert!(s.buffer.is_empty());
    assert!(s.file_name.is_none());
}

#[test]
fn failed_open_leaves_the_session_unchanged() {
    let mut s = buffer_with("keep me\n");
    let ok = s.open_result(cs("missing.txt"), None);
    assert!(!ok);
    assert_eq!(s_of(&s.buffer), "keep me\n");
    assert!(s.file_name.is_none());
}

#[test]
fn range_lists_the_slice_renumbered_from_zero() {
    let s = buffer_with("a\nb\nc\nd\ne\n");
    assert_eq!(listed(&s, Some("1-3")), vec!["   0| b", "   1| c"]);
}

#[test]
fn backwards_range_lists_nothing() {
    let s = buffer_with("a\nb\nc\n");
    assert_eq!(listed(&s, Some("3-1")), Vec::<String>::new());
}

#[test]
fn cleared_buffer_lists_the_empty_marker() {
    let mut s = buffer_with("something\n");
    s.clear();
    assert_eq!(listed(&s, None), vec!["<empty>"]);
    assert_eq!(listed(&s, Some("9-1")), vec!["<empty>"]);
}

#[test]
fn clear_keeps_the_current_file_name() {
    let mut s = Session::new();
    assert!(s.open_result(cs("kept.txt"), Some(cs("text\n"))));
    s.clear();
    let target = s.save_target(None).expect("the file name should survive a clear");
    assert_eq!(s_of(&target), "kept.txt");
}

#[test]
fn open_then_save_round_trip() {
    let mut s = Session::new();
    let content = "alpha\nbeta\n";
    assert!(s.open_result(cs("data.txt"), Some(cs(content))));
    let target = s.save_target(None).expect("an opened file is the save target");
    assert_eq!(s_of(&target), "data.txt");
    assert_eq!(s_of(&s.buffer), content);
}

#[test]
fn explicit_save_name_wins() {
    let mut s = Session::new();
    assert!(s.open_result(cs("orig.txt"), Some(cs("x\n"))));
    let arg = cs("copy.txt");
    let target = s.save_target(Some(&arg)).expect("an explicit name is the save target");
    assert_eq!(s_of(&target), "copy.txt");
}

#[test]
fn edit_past_the_end_acts_as_append() {
    let mut s = buffer_with("a");
    let st = s.begin_edit(5);
    assert!(!st.in_walk());
    s.commit_edit(&st);
    assert_eq!(s_of(&s.buffer), "a");
    s.append_line(&cs("x\n"));

    let mut direct = buffer_with("a");
    direct.append_line(&cs("x\n"));
    assert_eq!(s_of(&s.buffer), s_of(&direct.buffer));
}

#[test]
fn end_of_input_mid_walk_commits_the_edits_so_far() {
    let mut s = buffer_with("a\nb\nc");
    let mut st = s.begin_edit(0);
    st.replace_line(&cs("Z\n"));
    s.commit_edit(&st);
    assert_eq!(s_of(&s.buffer), "Z\nb\nc");
}

#[test]
fn replacement_lines_are_trimmed() {
    let mut s = buffer_with("old\n");
    let mut st = s.begin_edit(0);
    st.replace_line(&cs("  padded \n"));
    s.commit_edit(&st);
    assert_eq!(s_of(&s.buffer), "padded");
}

#[test]
fn range_beyond_the_end_is_cut_to_what_exists() {
    let s = buffer_with("a\nb\n");
    assert_eq!(listed(&s, Some("0-100")), vec!["   0| a", "   1| b"]);
}

#[test]
fn range_pieces_past_the_second_are_ignored() {
    let s = buffer_with("a\nb\nc\n");
    assert_eq!(listed(&s, Some("1-2-9")), vec!["   0| b"]);
}

#[test]
fn bad_ranges_are_reported() {
    let s = buffer_with("a\nb\n");
    for bad in ["abc", "5", "1-x", "x-1", "-", ""] {
        let arg = cs(bad);
        assert_eq!(s.list(Some(&arg)), ListOutcome::InvalidRange, "range {:?}", bad);
    }
}

#[test]
fn line_counts_with_and_without_final_newline() {
    assert_eq!(buffer_with("a\nb\n").line_count(), 2);
    assert_eq!(buffer_with("a\nb").line_count(), 2);
    assert_eq!(Session::new().line_count(), 0);
    assert_eq!(buffer_with("\n").line_count(), 1);
}
