use sqltui::editor::Editor;

fn type_char(e: &mut Editor, ch: char) {
    e.enter(ch);
    e.cursor_right();
    e.scroll_check();
}

#[test]
fn new_editor_is_single_empty_line() {
    let e = Editor::new();
    assert_eq!(e.context, vec![vec!['\n']]);
    assert_eq!(e.line_index, 0);
    assert_eq!(e.cursor_index, 0);
    assert_eq!(e.scroll, (0, 0));
}

#[test]
fn insert_shifts_right_and_keeps_marker_last() {
    let mut e = Editor::new();
    type_char(&mut e, 'a');
    type_char(&mut e, 'b');
    assert_eq!(e.context, vec![vec!['a', 'b', '\n']]);
    assert_eq!(e.cursor_index, 2);
}

#[test]
fn insert_does_not_move_cursor() {
    let mut e = Editor::new();
    e.enter('x');
    assert_eq!(e.cursor_index, 0);
    assert_eq!(e.context, vec![vec!['x', '\n']]);
}

#[test]
fn delete_removes_character_before_cursor() {
    let mut e = Editor::new();
    type_char(&mut e, 'a');
    type_char(&mut e, 'b');
    let merged = e.delete();
    assert!(!merged);
    e.cursor_left();
    assert_eq!(e.context, vec![vec!['a', '\n']]);
    assert_eq!(e.cursor_index, 1);
}

#[test]
fn sole_empty_line_delete_is_noop() {
    let mut e = Editor::new();
    let merged = e.delete();
    assert!(!merged);
    assert_eq!(e.context, vec![vec!['\n']]);
    assert_eq!(e.line_index, 0);
    assert_eq!(e.cursor_index, 0);
}

#[test]
fn delete_at_start_of_nonempty_line_is_noop() {
    let mut e = Editor::new();
    type_char(&mut e, 'a');
    e.addline();
    type_char(&mut e, 'c');
    e.cursor_left();
    let merged = e.delete();
    assert!(!merged);
    assert_eq!(e.context, vec![vec!['a', '\n'], vec!['c', '\n']]);
    assert_eq!(e.line_index, 1);
    assert_eq!(e.cursor_index, 0);
}

#[test]
fn split_at_line_end_then_delete_restores_content() {
    let mut e = Editor::new();
    type_char(&mut e, 'a');
    type_char(&mut e, 'b');
    assert_eq!(e.cursor_index, 2);
    e.addline();
    assert_eq!(e.context, vec![vec!['a', 'b', '\n'], vec!['\n']]);
    assert_eq!(e.line_index, 1);
    assert_eq!(e.cursor_index, 0);
    let merged = e.delete();
    assert!(merged);
    e.cursor_up();
    e.cursor_check(true);
    assert_eq!(e.context, vec![vec!['a', 'b', '\n']]);
    assert_eq!(e.line_index, 0);
    assert_eq!(e.cursor_index, 2);
}

#[test]
fn split_at_interior_offset_splits_content() {
    let mut e = Editor::new();
    type_char(&mut e, 'a');
    type_char(&mut e, 'b');
    e.cursor_left();
    assert_eq!(e.cursor_index, 1);
    e.addline();
    assert_eq!(e.context, vec![vec!['a', '\n'], vec!['b', '\n']]);
    assert_eq!(e.line_index, 1);
    assert_eq!(e.cursor_index, 0);
}

#[test]
fn split_at_offset_zero_adds_empty_line_above() {
    let mut e = Editor::new();
    type_char(&mut e, 'a');
    e.cursor_left();
    e.addline();
    assert_eq!(e.context, vec![vec!['\n'], vec!['a', '\n']]);
    assert_eq!(e.line_index, 1);
    assert_eq!(e.cursor_index, 0);
}

#[test]
fn multibyte_scalars_count_as_single_characters() {
    let mut e = Editor::new();
    type_char(&mut e, '\u{e9}');
    type_char(&mut e, '\u{5b57}');
    type_char(&mut e, '\u{1f600}');
    assert_eq!(e.context[0].len(), 4);
    assert_eq!(e.cursor_index, 3);
    let merged = e.delete();
    assert!(!merged);
    e.cursor_left();
    assert_eq!(e.context, vec![vec!['\u{e9}', '\u{5b57}', '\n']]);
    assert_eq!(e.cursor_index, 2);
}

#[test]
fn cursor_right_stops_at_line_break_marker() {
    let mut e = Editor::new();
    type_char(&mut e, 'a');
    assert_eq!(e.cursor_index, 1);
    e.cursor_right();
    assert_eq!(e.cursor_index, 1);
}

#[test]
fn cursor_left_stops_at_zero() {
    let mut e = Editor::new();
    e.cursor_left();
    assert_eq!(e.cursor_index, 0);
}

#[test]
fn cursor_up_down_clamped_to_lines() {
    let mut e = Editor::new();
    e.cursor_up();
    assert_eq!(e.line_index, 0);
    e.cursor_down();
    assert_eq!(e.line_index, 0);
    e.addline();
    assert_eq!(e.line_index, 1);
    e.cursor_down();
    assert_eq!(e.line_index, 1);
    e.cursor_up();
    assert_eq!(e.line_index, 0);
}

#[test]
fn moving_up_to_shorter_line_reclamps_cursor() {
    let mut e = Editor::new();
    e.addline();
    type_char(&mut e, 'a');
    type_char(&mut e, 'b');
    type_char(&mut e, 'c');
    assert_eq!(e.line_index, 1);
    assert_eq!(e.cursor_index, 3);
    e.cursor_up();
    e.cursor_check(false);
    assert_eq!(e.line_index, 0);
    assert_eq!(e.cursor_index, 0);
}

#[test]
fn cursor_check_forces_to_line_end() {
    let mut e = Editor::new();
    type_char(&mut e, 'a');
    type_char(&mut e, 'b');
    e.cursor_left();
    e.cursor_left();
    assert_eq!(e.cursor_index, 0);
    e.cursor_check(true);
    assert_eq!(e.cursor_index, 2);
    e.cursor_check(true);
    assert_eq!(e.cursor_index, 2);
}

#[test]
fn cursor_right_respects_line_cap() {
    let mut e = Editor {
        cursor_index: 0,
        line_index: 0,
        size: (0, 0),
        scroll: (0, 0),
        context: vec![{
            let mut line = vec!['x'; 0xfffd];
            line.push('\n');
            line
        }],
    };
    e.cursor_check(true);
    assert_eq!(e.cursor_index, 0xfffd);
    e.cursor_right();
    assert_eq!(e.cursor_index, 0xfffd);
}

#[test]
fn scenario_type_break_type_delete_at_line_start() {
    let mut e = Editor::new();
    type_char(&mut e, 'a');
    type_char(&mut e, 'b');
    e.addline();
    e.cursor_check(false);
    e.scroll_check();
    type_char(&mut e, 'c');
    e.cursor_left();
    let merged = e.delete();
    assert!(!merged);
    assert_eq!(e.context, vec![vec!['a', 'b', '\n'], vec!['c', '\n']]);
    assert_eq!(e.line_index, 1);
    assert_eq!(e.cursor_index, 0);
}

#[test]
fn scroll_check_keeps_near_cursor_within_margin() {
    let mut e = Editor::new();
    e.getsize((10, 10));
    e.scroll_check();
    assert_eq!(e.scroll, (0, 0));
}

#[test]
fn scroll_check_follows_cursor_past_margin() {
    let mut e = Editor {
        cursor_index: 7,
        line_index: 12,
        size: (10, 10),
        scroll: (0, 0),
        context: vec![vec!['\n']; 13],
    };
    e.context[12] = vec!['x', 'x', 'x', 'x', 'x', 'x', 'x', '\n'];
    e.scroll_check();
    assert_eq!(e.scroll, (7, 2));
}

#[test]
fn scroll_check_saturates_on_degenerate_size() {
    let mut e = Editor::new();
    e.getsize((3, 2));
    e.scroll_check();
    assert_eq!(e.scroll, (0, 0));
}
