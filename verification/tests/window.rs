use xi_term::window::Window;

fn window(height: u16) -> Window {
    let mut w = Window::new();
    w.resize(height);
    w
}

#[test]
fn new_window_has_no_rows() {
    let w = Window::new();
    assert_eq!((w.start(), w.end(), w.size()), (0, 0, 0));
    assert_eq!(Window::default(), w);
}

#[test]
fn window_keeps_its_height_when_lines_are_few() {
    let mut w = window(10);
    w.update(2, 3);
    assert_eq!(w.size(), 10);
    assert_eq!(w.start(), 0);
    assert_eq!(w.end(), 10);
}

#[test]
fn window_scrolls_down_by_the_least_amount() {
    let mut w = window(10);
    w.update(10, 100);
    assert_eq!((w.start(), w.end()), (1, 11));
    w.update(25, 100);
    assert_eq!((w.start(), w.end()), (16, 26));
}

#[test]
fn window_scrolls_up_by_the_least_amount() {
    let mut w = window(10);
    w.update(50, 100);
    assert_eq!(w.start(), 41);
    w.update(45, 100);
    assert_eq!(w.start(), 41);
    w.update(40, 100);
    assert_eq!((w.start(), w.end()), (40, 50));
    w.update(0, 100);
    assert_eq!(w.start(), 0);
}

#[test]
fn window_is_held_within_the_lines() {
    let mut w = window(10);
    w.update(99, 100);
    assert_eq!((w.start(), w.end()), (90, 100));
    w.update(99, 95);
    assert_eq!((w.start(), w.end()), (85, 95));
    w.update(3, 10);
    assert_eq!((w.start(), w.end()), (0, 10));
}

#[test]
fn window_holds_the_cursor_after_every_update() {
    for height in 1u16..6 {
        for total in 1u64..12 {
            let mut w = window(height);
            for cursor in (0..total).chain((0..total).rev()) {
                w.update(cursor, total);
                assert!(w.start() <= cursor && cursor < w.end());
                assert_eq!(w.end() - w.start(), height as u64);
                if total >= height as u64 {
                    assert!(w.end() <= total);
                }
            }
        }
    }
}

#[test]
fn window_of_no_rows_only_moves_up() {
    let mut w = window(0);
    w.update(5, 10);
    assert_eq!((w.start(), w.end()), (0, 0));
    let mut w = window(3);
    w.update(9, 10);
    w.resize(0);
    w.update(8, 10);
    assert_eq!(w.start(), 7);
    w.update(2, 10);
    assert_eq!(w.start(), 2);
}

#[test]
fn resize_keeps_the_start() {
    let mut w = window(5);
    w.update(20, 100);
    assert_eq!(w.start(), 16);
    w.resize(8);
    assert_eq!((w.start(), w.end(), w.size()), (16, 24, 8));
}

#[test]
fn window_at_the_far_end_of_the_numbers() {
    let mut w = window(4);
    w.update(u64::MAX, u64::MAX);
    assert_eq!(w.end(), u64::MAX);
    assert_eq!(w.start(), u64::MAX - 4);
    w.resize(10);
    assert_eq!(w.end(), u64::MAX);
}
