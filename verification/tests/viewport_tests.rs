use sqltui::viewport::follow_offset;
use sqltui::viewport::VIEW_MARGIN;

#[test]
fn offset_is_zero_while_position_fits() {
    assert_eq!(follow_offset(0, 10), 0);
    assert_eq!(follow_offset(5, 10), 0);
}

#[test]
fn offset_follows_position_past_margin() {
    assert_eq!(follow_offset(6, 10), 1);
    assert_eq!(follow_offset(100, 10), 95);
}

#[test]
fn offset_keeps_position_inside_window() {
    for pos in [0u16, 1, 4, 5, 6, 99, 60000] {
        for visible in [6u16, 10, 200] {
            assert!(visible > VIEW_MARGIN);
            let offset = follow_offset(pos, visible);
            assert!(offset <= pos);
            assert!((pos - offset) < visible);
        }
    }
}

#[test]
fn degenerate_window_saturates_instead_of_wrapping() {
    assert_eq!(follow_offset(0, 3), 0);
    assert_eq!(follow_offset(7, 0), 7);
    assert_eq!(follow_offset(7, 5), 7);
}
