use fugu::editor::{EditResult, Editor, Key, Point};

fn typed(s: &str) -> Editor {
    let mut e = Editor::new(Point::new(10, 2));
    for c in s.chars() {
        e.handle_key(&Key::Char(c));
    }
    e
}

#[test]
fn new_editor_has_one_empty_line() {
    let e = Editor::new(Point::new(5, 2));
    assert_eq!(e.buffer, vec![String::new()]);
    assert_eq!(e.cursor_buf, Point::new(0, 0));
    assert_eq!(e.cursor_base, Point::new(5, 2));
    assert_eq!(e.to_str(), "");
}

#[test]
fn typing_at_end_reports_tail_add() {
    let mut e = Editor::new(Point::new(1, 1));
    assert_eq!(e.handle_key(&Key::Char('l')), EditResult::JustTailAdd('l'));
    assert_eq!(e.handle_key(&Key::Char('s')), EditResult::JustTailAdd('s'));
    assert_eq!(e.buffer[0], "ls");
    assert_eq!(e.cursor_buf.x, 2);
}

#[test]
fn typing_inside_line_inserts() {
    let mut e = typed("ac");
    assert_eq!(e.handle_key(&Key::Left), EditResult::Moved);
    assert_eq!(e.handle_key(&Key::Char('b')), EditResult::JustAdd);
    assert_eq!(e.buffer[0], "abc");
    assert_eq!(e.cursor_buf.x, 2);
}

#[test]
fn backspace_at_end_and_inside() {
    let mut e = typed("abc");
    assert_eq!(e.handle_key(&Key::Backspace), EditResult::Edited);
    assert_eq!(e.buffer[0], "ab");
    assert_eq!(e.cursor_buf.x, 2);
    e.handle_key(&Key::Left);
    assert_eq!(e.handle_key(&Key::Ctrl('h')), EditResult::Edited);
    assert_eq!(e.buffer[0], "b");
    assert_eq!(e.cursor_buf.x, 0);
    assert_eq!(e.handle_key(&Key::Backspace), EditResult::Nothing);
    assert_eq!(e.buffer[0], "b");
}

#[test]
fn backspace_on_empty_line_does_nothing() {
    let mut e = Editor::new(Point::new(1, 1));
    assert_eq!(e.handle_key(&Key::Backspace), EditResult::Nothing);
    assert_eq!(e.buffer[0], "");
}

#[test]
fn cursor_moves_stop_at_line_ends() {
    let mut e = typed("ab");
    assert_eq!(e.handle_key(&Key::Right), EditResult::Nothing);
    assert_eq!(e.handle_key(&Key::Ctrl('b')), EditResult::Moved);
    assert_eq!(e.handle_key(&Key::Ctrl('b')), EditResult::Moved);
    assert_eq!(e.handle_key(&Key::Left), EditResult::Nothing);
    assert_eq!(e.cursor_buf.x, 0);
    assert_eq!(e.handle_key(&Key::Ctrl('f')), EditResult::Moved);
    assert_eq!(e.cursor_buf.x, 1);
}

#[test]
fn home_and_end() {
    let mut e = typed("hello");
    assert_eq!(e.handle_key(&Key::Home), EditResult::Moved);
    assert_eq!(e.cursor_buf.x, 0);
    assert_eq!(e.handle_key(&Key::Ctrl('a')), EditResult::Moved);
    assert_eq!(e.handle_key(&Key::End), EditResult::Moved);
    assert_eq!(e.cursor_buf.x, 5);
    e.handle_key(&Key::Home);
    assert_eq!(e.handle_key(&Key::Ctrl('e')), EditResult::Moved);
    assert_eq!(e.cursor_buf.x, 5);
}

#[test]
fn delete_under_cursor() {
    let mut e = typed("abc");
    assert_eq!(e.handle_key(&Key::Delete), EditResult::Nothing);
    e.handle_key(&Key::Home);
    assert_eq!(e.handle_key(&Key::Ctrl('d')), EditResult::Edited);
    assert_eq!(e.buffer[0], "bc");
    assert_eq!(e.cursor_buf.x, 0);
}

#[test]
fn kill_and_yank() {
    let mut e = typed("git status");
    e.handle_key(&Key::Home);
    for _ in 0..4 {
        e.handle_key(&Key::Right);
    }
    assert_eq!(e.handle_key(&Key::Ctrl('k')), EditResult::Edited);
    assert_eq!(e.buffer[0], "git ");
    assert_eq!(e.cursor_buf.x, 4);
    assert_eq!(e.handle_key(&Key::Ctrl('y')), EditResult::JustAdd);
    assert_eq!(e.buffer[0], "git status");
    assert_eq!(e.cursor_buf.x, 10);
    // pasting again inserts the same text once more
    e.handle_key(&Key::Home);
    assert_eq!(e.handle_key(&Key::Ctrl('y')), EditResult::JustAdd);
    assert_eq!(e.buffer[0], "statusgit status");
    assert_eq!(e.cursor_buf.x, 6);
}

#[test]
fn yank_without_kill_does_nothing() {
    let mut e = typed("x");
    assert_eq!(e.handle_key(&Key::Ctrl('y')), EditResult::Nothing);
    assert_eq!(e.buffer[0], "x");
}

#[test]
fn other_keys_do_nothing() {
    let mut e = typed("x");
    assert_eq!(e.handle_key(&Key::Up), EditResult::Nothing);
    assert_eq!(e.handle_key(&Key::Esc), EditResult::Nothing);
    assert_eq!(e.handle_key(&Key::Alt('a')), EditResult::Nothing);
    assert_eq!(e.handle_key(&Key::Ctrl('z')), EditResult::Nothing);
    assert_eq!(e.handle_key(&Key::F(1)), EditResult::Nothing);
    assert_eq!(e.buffer[0], "x");
    assert_eq!(e.cursor_buf.x, 1);
}

#[test]
fn type_then_backspace_restores() {
    let mut e = typed("ab");
    e.handle_key(&Key::Left);
    e.handle_key(&Key::Char('z'));
    e.handle_key(&Key::Backspace);
    assert_eq!(e.buffer[0], "ab");
    assert_eq!(e.cursor_buf.x, 1);
}

#[test]
fn to_str_drops_trailing_backslash() {
    let e = typed("echo a\\");
    assert_eq!(e.to_str(), "echo a");
    let mut two = typed("ls \\");
    two.buffer.push("-l".to_string());
    assert_eq!(two.to_str(), "ls -l");
    let mut mid = typed("a\\b");
    mid.buffer.push("\\".to_string());
    assert_eq!(mid.to_str(), "a\\b");
}

#[test]
fn point_arithmetic_and_order() {
    let p = Point::new(3, 4);
    let q = Point::new(1, 2);
    assert_eq!(p + q, Point::new(4, 6));
    assert_eq!(p - q, Point::new(2, 2));
    assert_eq!((p + q) - q, p);
    assert!(q < p);
    assert!(Point::new(1, 9) < Point::new(2, 0));
    assert!(Point::new(2, 1) < Point::new(2, 3));
    assert_eq!(p.partial_cmp(&p), Some(std::cmp::Ordering::Equal));
    assert_eq!(Point::new(5, 0).cmp(&Point::new(4, 9)), std::cmp::Ordering::Greater);
    assert!(p != q);
}

#[test]
fn ascii_keys_keep_one_line_and_cursor_inside() {
    let base = Point::new(7, 3);
    let mut e = Editor::new(base);
    let keys = [
        Key::Char('g'),
        Key::Char('i'),
        Key::Char('t'),
        Key::Home,
        Key::Right,
        Key::Ctrl('k'),
        Key::Ctrl('y'),
        Key::Ctrl('y'),
        Key::End,
        Key::Right,
        Key::Backspace,
        Key::Delete,
        Key::Left,
        Key::Ctrl('d'),
        Key::Esc,
        Key::F(2),
        Key::Ctrl('a'),
        Key::Left,
        Key::Backspace,
    ];
    for k in keys.iter() {
        assert!(e.accepts_key(k));
        e.handle_key(k);
        assert_eq!(e.buffer.len(), 1);
        assert_eq!(e.cursor_buf.y, 0);
        assert_eq!(e.cursor_base, base);
        assert!(e.cursor_buf.x <= e.buffer[0].len());
        assert!(e.buffer[0].is_ascii());
    }
    assert_eq!(e.buffer[0], "git");
    assert_eq!(e.cursor_buf.x, 0);
}

#[test]
fn unhandled_keys_change_nothing() {
    let mut e = typed("abc");
    e.handle_key(&Key::Left);
    for k in [Key::Up, Key::Down, Key::PageUp, Key::Insert, Key::Alt('x'), Key::Ctrl('z'), Key::Null] {
        assert_eq!(e.handle_key(&k), EditResult::Nothing);
        assert_eq!(e.buffer[0], "abc");
        assert_eq!(e.cursor_buf.x, 2);
    }
}
