use pendulum::user_input::{Mouse, MouseButton};

#[test]
fn fresh_mouse_knows_nothing() {
    let m = Mouse::new();
    assert_eq!(m.current_position(), None);
    assert_eq!(m.click(MouseButton::Left), None);
    assert_eq!(m.drag(MouseButton::Middle), None);
}

#[test]
fn press_move_release() {
    let mut m = Mouse::new();
    m.add_mousedown(10, 20, 0);
    assert_eq!(m.current_position(), Some((10, 20)));
    assert_eq!(m.click(MouseButton::Left), Some((10, 20)));
    assert_eq!(m.click(MouseButton::Right), None);
    m.add_mousemove(15, 27);
    assert_eq!(m.drag(MouseButton::Left), Some((5, 7)));
    assert_eq!(m.drag(MouseButton::Right), None);
    m.add_mousemove(12, 30);
    assert_eq!(m.drag(MouseButton::Left), Some((-3, 3)));
    assert_eq!(m.click(MouseButton::Left), Some((10, 20)));
    m.add_mouseup(12, 30, 0);
    assert_eq!(m.click(MouseButton::Left), None);
    assert_eq!(m.drag(MouseButton::Left), None);
    assert_eq!(m.current_position(), Some((12, 30)));
}

#[test]
fn buttons_are_tracked_apart() {
    let mut m = Mouse::new();
    m.add_mousedown(1, 1, 1);
    m.add_mousedown(2, 2, 2);
    assert_eq!(m.click(MouseButton::Middle), Some((1, 1)));
    assert_eq!(m.click(MouseButton::Right), Some((2, 2)));
    assert_eq!(m.drag(MouseButton::Middle), Some((1, 1)));
    m.add_mouseup(3, 3, 1);
    assert_eq!(m.click(MouseButton::Middle), None);
    assert_eq!(m.click(MouseButton::Right), Some((2, 2)));
}

#[test]
fn unknown_button_only_moves() {
    let mut m = Mouse::new();
    m.add_mousedown(4, 5, 3);
    m.add_mousedown(6, 7, -1);
    assert_eq!(m.current_position(), Some((6, 7)));
    assert_eq!(m.click(MouseButton::Left), None);
    assert_eq!(m.click(MouseButton::Middle), None);
    assert_eq!(m.click(MouseButton::Right), None);
}

#[test]
fn drag_needs_two_positions() {
    let mut m = Mouse::new();
    m.add_mousedown(3, 4, 0);
    // one event: no previous position yet
    assert_eq!(m.drag(MouseButton::Left), None);
}

#[test]
fn drag_wraps_like_i32() {
    let mut m = Mouse::new();
    m.add_mousedown(i32::MAX, 0, 0);
    m.add_mousemove(i32::MIN, 0);
    assert_eq!(m.drag(MouseButton::Left), Some((1, 0)));
}
