use fugu::fugu_env::{CommandType, FuguEnv};
use fugu::fugu_screen::{selector_lines, ScreenError};
use fugu::read_line::read_cmd_step;
use fugu::selector::Selector;
use fugu::settings::{prompt_dir, PromptSetting};

fn env(names: &[&str]) -> FuguEnv<'static> {
    FuguEnv::with_path_cmds(names.iter().map(|s| s.to_string()).collect())
}

#[test]
fn fresh_env_lists_everything() {
    let e = env(&["ls", "cat"]);
    assert_eq!(e.builtin_cmds, vec!["cd", "exit"]);
    assert_eq!(
        e.search_to_vec(),
        vec![
            (0, CommandType::Path),
            (1, CommandType::Path),
            (0, CommandType::Builtin),
            (1, CommandType::Builtin)
        ]
    );
}

#[test]
fn search_narrows_candidates() {
    let mut e = env(&["ls", "cat", "less"]);
    e.search_cmd("^l");
    assert_eq!(e.search_to_vec(), vec![(0, CommandType::Path), (2, CommandType::Path)]);
    e.search_cmd("s$");
    assert_eq!(e.search_to_vec(), vec![(0, CommandType::Path), (2, CommandType::Path)]);
    e.search_cmd("e");
    assert_eq!(e.search_to_vec(), vec![(2, CommandType::Path)]);
    // a later search never brings a name back
    e.search_cmd("c");
    assert_eq!(e.search_to_vec(), vec![]);
    e.reset_search();
    assert_eq!(e.search_to_vec().len(), 5);
}

#[test]
fn search_matches_builtins() {
    let mut e = env(&["cat"]);
    e.search_cmd("x");
    assert_eq!(e.search_to_vec(), vec![(1, CommandType::Builtin)]);
}

#[test]
fn invalid_pattern_changes_nothing() {
    let mut e = env(&["ls", "cat"]);
    e.search_cmd("ca");
    let before = e.search_to_vec();
    e.search_cmd("(");
    assert_eq!(e.search_to_vec(), before);
    assert_eq!(before, vec![(1, CommandType::Path)]);
}

#[test]
fn narrow_search_with_given_hits() {
    let mut e = env(&["a", "b", "c"]);
    e.narrow_search(&vec![true, false, true], &vec![false, true]);
    assert_eq!(
        e.search_to_vec(),
        vec![(0, CommandType::Path), (2, CommandType::Path), (1, CommandType::Builtin)]
    );
    e.narrow_search(&vec![false, true, true], &vec![true, true]);
    assert_eq!(e.search_to_vec(), vec![(2, CommandType::Path), (1, CommandType::Builtin)]);
}

#[test]
fn candidate_names() {
    let e = env(&["ls", "cat"]);
    assert_eq!(e.get_cmd_str((1, CommandType::Path)), Some("cat"));
    assert_eq!(e.get_cmd_str((0, CommandType::Builtin)), Some("cd"));
}

fn ids(n: usize) -> Vec<(usize, CommandType)> {
    (0..n).map(|i| (i, CommandType::Path)).collect()
}

#[test]
fn selector_window_of_fifteen() {
    let s = Selector::new(ids(20));
    assert_eq!(s.max_print, 15);
    assert_eq!(s.range, (0, 15));
    assert_eq!(s.cursor, None);
    let small = Selector::new(ids(3));
    assert_eq!(small.max_print, 3);
    assert_eq!(small.range, (0, 3));
}

#[test]
fn selector_cursor_scrolls() {
    let mut s = Selector::new(ids(20));
    s.csr_up();
    assert_eq!(s.cursor, None);
    s.csr_down();
    assert_eq!(s.cursor, Some(0));
    for _ in 0..14 {
        s.csr_down();
    }
    assert_eq!(s.cursor, Some(14));
    assert_eq!(s.range, (0, 15));
    s.csr_down();
    assert_eq!(s.cursor, Some(15));
    assert_eq!(s.range, (1, 16));
    for _ in 0..10 {
        s.csr_down();
    }
    assert_eq!(s.cursor, Some(19));
    assert_eq!(s.range, (5, 20));
    s.csr_up();
    assert_eq!(s.cursor, Some(18));
    assert_eq!(s.range, (4, 19));
    for _ in 0..30 {
        s.csr_up();
    }
    assert_eq!(s.cursor, Some(0));
    assert_eq!(s.range, (0, 15));
}

#[test]
fn selector_default_and_empty() {
    let mut d = Selector::default();
    assert_eq!(d.max_print, 1);
    assert_eq!(d.range, (0, 1));
    assert!(d.buf.is_empty());
    d.csr_down();
    assert_eq!(d.cursor, Some(0));
    d.csr_down();
    assert_eq!(d.cursor, Some(0));
    let mut e = Selector::new(vec![]);
    e.csr_down();
    assert_eq!(e.cursor, Some(0));
    assert_eq!(e.range, (0, 0));
}

#[test]
fn selector_rows() {
    let e = env(&["ls", "cat", "less"]);
    let mut s = Selector::new(vec![(2, CommandType::Path), (1, CommandType::Builtin)]);
    s.csr_down();
    s.csr_down();
    let lines = selector_lines(&s, &e);
    assert_eq!(lines.len(), 2);
    assert_eq!(lines[0].row, 3);
    assert_eq!(lines[0].text, "less");
    assert!(!lines[0].underline);
    assert_eq!(lines[1].row, 4);
    assert_eq!(lines[1].text, "exit");
    assert!(lines[1].underline);
}

#[test]
fn screen_error_message() {
    let e = ScreenError::new("broken pipe".to_string());
    assert_eq!(e.description(), "broken pipe");
}

#[test]
fn prompt_shows_last_two_directories() {
    let p = PromptSetting::default();
    assert_eq!(p.face1(), "Fugu(°)#))<< ~");
    assert_eq!(p.face2(), "$ ");
    let dir = p.dir_suffix(&"/home/user/src".to_string());
    assert_eq!(dir, "/user/src");
    assert_eq!(p.face_width(&dir), 15 + 2 + 9);
    assert_eq!(p.dir_suffix(&"/".to_string()), "/");
    assert_eq!(p.dir_suffix(&"/home".to_string()), "/home");
    assert_eq!(p.dir_suffix(&"/a/b/c/".to_string()), "/b/c/");
    assert_eq!(p.dir_suffix(&"/usr/ö/x".to_string()), "/ö/x");
}

#[test]
fn prompt_dir_depth() {
    assert_eq!(prompt_dir(&"/a/b/c".to_string(), 1), "/c");
    assert_eq!(prompt_dir(&"/a/b/c".to_string(), 3), "/a/b/c");
    assert_eq!(prompt_dir(&"rel/x".to_string(), 5), "rel/x");
}

#[test]
fn continued_lines_are_joined() {
    let mut res = String::new();
    assert!(read_cmd_step(&mut res, "echo a\\\n".to_string()));
    assert_eq!(res, "echo a");
    assert!(!read_cmd_step(&mut res, "b\n".to_string()));
    assert_eq!(res, "echo ab");
    let mut empty = String::from("x");
    assert!(!read_cmd_step(&mut empty, "\n".to_string()));
    assert_eq!(empty, "x");
    assert!(!read_cmd_step(&mut empty, "".to_string()));
    assert_eq!(empty, "x");
    let mut last = String::new();
    assert!(!read_cmd_step(&mut last, "ls".to_string()));
    assert_eq!(last, "l");
}
