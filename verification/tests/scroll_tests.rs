use sqltui::message::Message;
use sqltui::table::Table;

fn sample_table(ncols: usize, nrows: usize) -> Table {
    let mut t = Table::new();
    let headers: Vec<String> = (0..ncols).map(|c| format!("col{}", c)).collect();
    let items: Vec<Vec<String>> = (0..nrows)
        .map(|r| (0..ncols).map(|c| format!("cell{}x{}", r, c)).collect())
        .collect();
    t.get_table(headers, items);
    t
}

#[test]
fn message_push_appends_entries() {
    let mut m = Message::new();
    m.push(String::from("first"));
    m.push(String::from("second"));
    assert_eq!(m.context, vec![String::from("first"), String::from("second")]);
}

#[test]
fn message_push_follows_newest_entry() {
    let mut m = Message::new();
    m.get_size((80, 2));
    m.push(String::from("one"));
    assert_eq!(m.scroll.0, 0);
    m.push(String::from("two"));
    assert_eq!(m.scroll.0, 0);
    m.push(String::from("three"));
    assert_eq!(m.scroll.0, 1);
}

#[test]
fn message_scroll_up_saturates_at_zero() {
    let mut m = Message::new();
    m.scroll_up();
    m.scroll_up();
    assert_eq!(m.scroll.0, 0);
}

#[test]
fn message_scroll_left_saturates_at_zero() {
    let mut m = Message::new();
    m.scroll_left();
    m.scroll_left();
    assert_eq!(m.scroll.1, 0);
}

#[test]
fn message_scroll_down_stops_at_content_edge() {
    let mut m = Message::new();
    m.get_size((80, 2));
    m.push(String::from("a"));
    m.push(String::from("b"));
    m.push(String::from("c"));
    assert_eq!(m.scroll.0, 1);
    m.scroll_down();
    assert_eq!(m.scroll.0, 1);
    m.scroll_down();
    assert_eq!(m.scroll.0, 1);
}

#[test]
fn message_scroll_right_advances_by_one() {
    let mut m = Message::new();
    m.scroll_right();
    m.scroll_right();
    assert_eq!(m.scroll.1, 2);
}

#[test]
fn table_replace_resets_scroll() {
    let mut t = sample_table(6, 6);
    t.next_col();
    t.next_col();
    t.next_row();
    t.next_row();
    t.next_row();
    assert_eq!(t.scroll, (2, 3));
    let headers = vec![String::from("only")];
    let items = vec![vec![String::from("v")]];
    t.get_table(headers, items);
    assert_eq!(t.scroll, (0, 0));
    assert_eq!(t.headers, vec![String::from("only")]);
    assert_eq!(t.items, vec![vec![String::from("v")]]);
}

#[test]
fn table_empty_replace_keeps_content_and_scroll() {
    let mut t = sample_table(6, 6);
    t.next_col();
    t.next_col();
    t.next_row();
    t.next_row();
    t.next_row();
    assert_eq!(t.scroll, (2, 3));
    let old_headers = t.headers.clone();
    let old_items = t.items.clone();
    t.get_table(vec![String::from("new")], Vec::new());
    assert_eq!(t.scroll, (2, 3));
    assert_eq!(t.headers, old_headers);
    assert_eq!(t.items, old_items);
}

#[test]
fn table_next_col_keeps_reserved_columns() {
    let mut t = sample_table(4, 1);
    t.next_col();
    assert_eq!(t.scroll.0, 1);
    t.next_col();
    assert_eq!(t.scroll.0, 1);
    t.next_col();
    assert_eq!(t.scroll.0, 1);
}

#[test]
fn table_prev_col_saturates_at_zero() {
    let mut t = sample_table(4, 1);
    t.prev_col();
    t.prev_col();
    assert_eq!(t.scroll.0, 0);
}

#[test]
fn table_next_row_stops_past_slack() {
    let mut t = sample_table(1, 2);
    t.get_size((80, 4));
    t.next_row();
    assert_eq!(t.scroll.1, 1);
    t.next_row();
    assert_eq!(t.scroll.1, 1);
}

#[test]
fn table_prev_row_saturates_at_zero() {
    let mut t = sample_table(1, 2);
    t.prev_row();
    t.prev_row();
    assert_eq!(t.scroll.1, 0);
}

#[test]
fn table_new_is_empty() {
    let t = Table::new();
    assert!(t.headers.is_empty());
    assert!(t.items.is_empty());
    assert_eq!(t.scroll, (0, 0));
    assert_eq!(t.size, (0, 0));
}
