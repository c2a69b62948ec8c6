use fugu::editor::{Editor, Key, Point};
use fugu::fugu_env::{CommandType, FuguEnv};
use fugu::parser::{ParseStatus, Parser, DELIMITERS};
use fugu::selector::Selector;
use fugu::shell::Shell;

fn shell() -> Shell<'static> {
    let env = FuguEnv::with_path_cmds(vec!["ls".to_string(), "lsblk".to_string(), "cat".to_string()]);
    Shell::new(Point::new(20, 2), env)
}

#[test]
fn new_shell_is_empty() {
    let s = shell();
    assert_eq!(s.editor.buffer, vec![String::new()]);
    assert_eq!(s.editor.cursor_base, Point::new(20, 2));
    assert_eq!(s.parser.get_status(), ParseStatus::WaitCommand);
    assert!(s.selector.buf.is_empty());
    assert_eq!(s.selector.cursor, None);
}

#[test]
fn typing_searches_commands() {
    let mut s = shell();
    let r = s.handle_key(&Key::Char('l'));
    assert!(r.draw_editor && r.draw_selector && !r.move_cursor);
    assert!(r.execute.is_none());
    assert_eq!(s.selector.buf, vec![(0, CommandType::Path), (1, CommandType::Path)]);
    assert_eq!(s.parser.get_cur_token(), "l");
    let r = s.handle_key(&Key::Char('s'));
    assert!(r.draw_selector);
    assert_eq!(s.selector.buf, vec![(0, CommandType::Path), (1, CommandType::Path)]);
    let r = s.handle_key(&Key::Char('b'));
    assert!(r.draw_selector);
    assert_eq!(s.selector.buf, vec![(1, CommandType::Path)]);
}

#[test]
fn arguments_do_not_search() {
    let mut s = shell();
    for c in "ls ".chars() {
        s.handle_key(&Key::Char(c));
    }
    let before = s.selector.buf.clone();
    let r = s.handle_key(&Key::Char('x'));
    assert!(r.draw_editor && !r.draw_selector);
    assert_eq!(s.parser.get_status(), ParseStatus::WaitArgs);
    assert_eq!(s.selector.buf, before);
}

#[test]
fn moving_keys_only_move() {
    let mut s = shell();
    s.handle_key(&Key::Char('c'));
    let r = s.handle_key(&Key::Left);
    assert!(r.move_cursor && !r.draw_editor && !r.draw_selector);
    let r = s.handle_key(&Key::Left);
    assert!(!r.move_cursor && !r.draw_editor);
}

#[test]
fn selecting_and_entering_completes() {
    let mut s = shell();
    s.handle_key(&Key::Char('l'));
    let r = s.handle_key(&Key::Down);
    assert!(r.draw_selector && !r.draw_editor);
    assert_eq!(s.selector.cursor, Some(0));
    s.handle_key(&Key::Ctrl('n'));
    assert_eq!(s.selector.cursor, Some(1));
    s.handle_key(&Key::Ctrl('p'));
    s.handle_key(&Key::Down);
    let r = s.handle_key(&Key::Char('\n'));
    assert!(r.draw_editor);
    assert_eq!(s.editor.buffer[0], "lsblk");
    assert_eq!(s.editor.cursor_buf.x, 5);
    let cmds = r.execute.unwrap();
    let names: Vec<String> = cmds.iter().map(|c| c.name.clone()).collect();
    assert_eq!(names, vec!["".to_string(), "lsblk".to_string()]);
}

#[test]
fn enter_without_selection_runs_the_line() {
    let mut s = shell();
    for c in "cat a".chars() {
        s.handle_key(&Key::Char(c));
    }
    let r = s.handle_key(&Key::Char('\n'));
    assert!(!r.draw_editor);
    let cmds = r.execute.unwrap();
    assert_eq!(cmds.len(), 1);
    assert_eq!(cmds[0].name, "cat");
    assert_eq!(cmds[0].args, vec!["a".to_string()]);
}

#[test]
fn non_ascii_characters_move_the_cursor_one_byte() {
    let mut s = shell();
    assert!(s.accepts_key(&Key::Char('é')));
    let r = s.handle_key(&Key::Char('é'));
    assert!(r.draw_editor);
    assert_eq!(s.editor.buffer[0], "é");
    assert_eq!(s.editor.cursor_buf.x, 1);
    // the cursor is now inside the two bytes of the character
    assert!(!s.accepts_key(&Key::Char('a')));
    assert!(s.accepts_key(&Key::Backspace));
    let r = s.handle_key(&Key::Backspace);
    assert!(r.draw_editor);
    assert_eq!(s.editor.buffer[0], "");
    assert_eq!(s.editor.cursor_buf.x, 0);
}

#[test]
fn editing_in_the_middle_reparses() {
    let mut s = shell();
    for c in "ct".chars() {
        s.handle_key(&Key::Char(c));
    }
    s.handle_key(&Key::Left);
    let r = s.handle_key(&Key::Char('a'));
    assert!(r.draw_editor && r.draw_selector);
    assert_eq!(s.editor.buffer[0], "cat");
    assert_eq!(s.selector.buf, vec![(2, CommandType::Path)]);
}

#[test]
fn delete_word_and_insert() {
    let mut e = Editor::new(Point::new(1, 1));
    for c in "ls | gr".chars() {
        e.handle_key(&Key::Char(c));
    }
    e.delete_untill(&DELIMITERS);
    assert_eq!(e.buffer[0], "ls | ");
    assert_eq!(e.cursor_buf.x, 5);
    assert!(e.accepts_str("grep"));
    assert!(e.accepts_str("grép"));
    e.insert_str("grep");
    assert_eq!(e.buffer[0], "ls | grep");
    assert_eq!(e.cursor_buf.x, 9);
    e.handle_key(&Key::Home);
    e.delete_untill(&DELIMITERS);
    assert_eq!(e.buffer[0], "ls | grep");
    assert_eq!(e.cursor_buf.x, 0);
}

#[test]
fn accepts_key_checks_boundaries() {
    let mut e = Editor::new(Point::new(1, 1));
    assert!(e.accepts_key(&Key::Char('a')));
    assert!(e.accepts_key(&Key::Char('ö')));
    e.handle_key(&Key::Char('ö'));
    // the cursor went one byte forward, inside the two bytes of 'ö'
    assert_eq!(e.cursor_buf.x, 1);
    assert!(!e.accepts_key(&Key::Char('x')));
    e.handle_key(&Key::End);
    e.handle_key(&Key::Char('x'));
    assert_eq!(e.buffer[0], "öx");
    assert_eq!(e.cursor_buf.x, 3);
    e.handle_key(&Key::Left);
    assert_eq!(e.cursor_buf.x, 2);
    assert!(e.accepts_key(&Key::Char('y')));
    assert!(e.accepts_key(&Key::Ctrl('k')));
    e.handle_key(&Key::Left);
    assert_eq!(e.cursor_buf.x, 1);
    assert!(!e.accepts_key(&Key::Char('y')));
    assert!(!e.accepts_key(&Key::Ctrl('k')));
    assert!(!e.accepts_key(&Key::Delete));
    assert!(e.accepts_key(&Key::Backspace));
    assert!(e.accepts_key(&Key::Home));
    e.handle_key(&Key::Backspace);
    assert_eq!(e.buffer[0], "x");
    assert_eq!(e.cursor_buf.x, 0);
}

#[test]
fn selected_candidate() {
    let mut s = Selector::new(vec![(3, CommandType::Path), (1, CommandType::Builtin)]);
    assert_eq!(s.get_idx(), None);
    s.csr_down();
    assert_eq!(s.get_idx(), Some((3, CommandType::Path)));
    s.csr_down();
    assert_eq!(s.get_idx(), Some((1, CommandType::Builtin)));
    let mut d = Selector::default();
    d.csr_down();
    assert_eq!(d.get_idx(), None);
}

#[test]
fn parser_status_getter() {
    let mut p = Parser::new();
    p.read1('a');
    p.read1(' ');
    assert_eq!(p.get_status(), ParseStatus::WaitArgs);
    p.read1('>');
    assert_eq!(p.get_status(), ParseStatus::WaitOutFile);
}

#[test]
fn list_keys_leave_the_text_alone() {
    let mut s = shell();
    s.handle_key(&Key::Char('l'));
    let line = s.editor.buffer.clone();
    let token = s.parser.get_cur_token().to_string();
    for k in [Key::Down, Key::Ctrl('n'), Key::Up, Key::Ctrl('p')] {
        assert!(s.accepts_key(&k));
        let r = s.handle_key(&k);
        assert!(r.execute.is_none());
        assert!(r.draw_selector && !r.draw_editor);
    }
    assert_eq!(s.editor.buffer, line);
    assert_eq!(s.parser.get_cur_token(), token);
}

#[test]
fn enter_needs_a_boundary_to_complete() {
    let env = FuguEnv::with_path_cmds(vec!["éa".to_string()]);
    let mut s = Shell::new(Point::new(1, 1), env);
    s.handle_key(&Key::Char('é'));
    s.handle_key(&Key::Down);
    assert_eq!(s.selector.get_idx(), Some((0, CommandType::Path)));
    // the cursor stands inside 'é'
    assert_eq!(s.editor.cursor_buf.x, 1);
    assert!(!s.accepts_key(&Key::Char('\n')));
    s.handle_key(&Key::End);
    assert!(s.accepts_key(&Key::Char('\n')));
    let r = s.handle_key(&Key::Char('\n'));
    assert_eq!(s.editor.buffer[0], "éa");
    assert_eq!(s.editor.cursor_buf.x, 3);
    assert!(r.execute.is_some());
}
