use repo_locator::key::Key;
use repo_locator::List;

fn list(pos: usize, offset: usize, height: usize) -> List {
    List { pos, offset, height }
}

#[test]
fn go_down_moves_the_cursor_then_the_window() {
    let mut l = list(0, 0, 3);
    l.go_down(5);
    assert_eq!((l.pos, l.offset), (1, 0));
    l.go_down(5);
    l.go_down(5);
    assert_eq!((l.pos, l.offset), (2, 1));
    l.go_down(5);
    assert_eq!((l.pos, l.offset), (2, 2));
    l.go_down(5);
    assert_eq!((l.pos, l.offset), (2, 2));
    assert!(l.offset + l.pos < 5);
}

#[test]
fn go_down_on_an_empty_list_stays() {
    let mut l = list(0, 0, 3);
    l.go_down(0);
    assert_eq!((l.pos, l.offset), (0, 0));
}

#[test]
fn go_up_moves_the_cursor_then_the_window() {
    let mut l = list(1, 2, 3);
    l.go_up();
    assert_eq!((l.pos, l.offset), (0, 2));
    l.go_up();
    assert_eq!((l.pos, l.offset), (0, 1));
    l.go_up();
    l.go_up();
    assert_eq!((l.pos, l.offset), (0, 0));
}

#[test]
fn go_to_bottom_of_a_short_list() {
    let mut l = list(0, 4, 10);
    l.go_to_bottom(3);
    assert_eq!((l.pos, l.offset), (2, 0));
}

#[test]
fn go_to_bottom_of_a_long_list() {
    let mut l = list(0, 0, 10);
    l.go_to_bottom(25);
    assert_eq!((l.pos, l.offset), (9, 15));
    l.go_to_bottom(10);
    assert_eq!((l.pos, l.offset), (9, 0));
}

#[test]
fn go_to_bottom_of_an_empty_list() {
    let mut l = list(2, 4, 10);
    l.go_to_bottom(0);
    assert_eq!((l.pos, l.offset), (0, 0));
}

#[test]
fn go_to_top_resets_both() {
    let mut l = list(2, 4, 10);
    l.go_to_top();
    assert_eq!((l.pos, l.offset, l.height), (0, 0, 10));
}

#[test]
fn keys_move_the_list() {
    let mut l = list(0, 0, 2);
    l.input(Key::Char('j'), 4);
    assert_eq!((l.pos, l.offset), (1, 0));
    l.input(Key::Char('G'), 4);
    assert_eq!((l.pos, l.offset), (1, 2));
    l.input(Key::Char('k'), 4);
    assert_eq!((l.pos, l.offset), (0, 2));
    l.input(Key::Char('g'), 4);
    assert_eq!((l.pos, l.offset), (0, 0));
    l.input(Key::Down, 4);
    l.input(Key::Char('z'), 4);
    assert_eq!((l.pos, l.offset), (1, 0));
}

#[test]
fn visible_rows_blank_past_the_end() {
    let l = list(1, 2, 4);
    assert_eq!(l.visible_rows(5), vec![Some(2), Some(3), Some(4), None]);
}

#[test]
fn go_down_under_a_window_scrolled_past_a_shrunk_list() {
    let mut l = list(0, 2, 10);
    l.go_down(3);
    assert_eq!((l.pos, l.offset), (1, 2));
}
