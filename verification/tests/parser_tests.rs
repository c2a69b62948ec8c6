use fugu::parser::{ParseStatus, Parser};
use fugu::exec::CommandStore;

fn feed(p: &mut Parser, s: &str) {
    for c in s.chars() {
        p.read1(c);
    }
}

fn names(cmds: &[CommandStore]) -> Vec<String> {
    cmds.iter().map(|c| c.name.clone()).collect()
}

#[test]
fn new_parser_waits_for_command() {
    let p = Parser::new();
    assert_eq!(p.parse_status, ParseStatus::WaitCommand);
    assert_eq!(p.get_cur_token(), "");
}

#[test]
fn command_with_argument() {
    let mut p = Parser::new();
    feed(&mut p, "ls -l");
    assert_eq!(p.get_cur_token(), "-l");
    assert_eq!(p.parse_status, ParseStatus::WaitArgs);
    let cmds = p.enter();
    assert_eq!(cmds.len(), 1);
    assert_eq!(cmds[0].name, "ls");
    assert_eq!(cmds[0].args, vec!["-l".to_string()]);
    assert!(cmds[0].wait);
    assert!(!cmds[0].pipe_in && !cmds[0].pipe_out);
    assert_eq!(p.parse_status, ParseStatus::WaitCommand);
}

#[test]
fn pipe_joins_two_commands() {
    let mut p = Parser::new();
    feed(&mut p, "a | b");
    let cmds = p.enter();
    assert_eq!(names(&cmds), vec!["a".to_string(), "b".to_string()]);
    assert!(cmds[0].pipe_out);
    assert!(!cmds[0].pipe_in);
    assert!(cmds[1].pipe_in);
    assert!(!cmds[1].pipe_out);
}

#[test]
fn ampersand_runs_in_background() {
    let mut p = Parser::new();
    feed(&mut p, "sleep 1 &");
    let cmds = p.enter();
    assert_eq!(cmds.len(), 2);
    assert_eq!(cmds[0].name, "sleep");
    assert_eq!(cmds[0].args, vec!["1".to_string()]);
    assert!(!cmds[0].wait);
    assert_eq!(cmds[1].name, "");
    assert!(cmds[1].wait);
}

#[test]
fn input_redirection_keeps_the_word() {
    let mut p = Parser::new();
    feed(&mut p, "cat < in;");
    assert_eq!(p.parse_status, ParseStatus::WaitCommand);
    // the redirection target stays the current word
    assert_eq!(p.get_cur_token(), "in");
    let cmds = p.enter();
    assert_eq!(cmds[0].name, "cat");
    assert_eq!(cmds[0].stdin, Some("in".to_string()));
    // the kept word becomes the name of the next command
    assert_eq!(cmds.len(), 2);
    assert_eq!(cmds[1].name, "in");
}

#[test]
fn output_redirection() {
    let mut p = Parser::new();
    feed(&mut p, "echo hi > out");
    assert_eq!(p.parse_status, ParseStatus::WaitOutFile);
    let cmds = p.enter();
    assert_eq!(cmds[0].name, "echo");
    assert_eq!(cmds[0].args, vec!["hi".to_string()]);
    assert_eq!(cmds[0].stdout, Some("out".to_string()));
}

#[test]
fn caret_at_word_start_redirects_errors() {
    let mut p = Parser::new();
    feed(&mut p, "cmd ^");
    assert_eq!(p.parse_status, ParseStatus::WaitErrFile);
    feed(&mut p, "err");
    let cmds = p.enter();
    // the error target is recorded as the input file
    assert_eq!(cmds[0].stdin, Some("err".to_string()));
    assert_eq!(cmds[0].stderr, None);
}

#[test]
fn caret_inside_word_is_kept() {
    let mut p = Parser::new();
    feed(&mut p, "a^b");
    assert_eq!(p.get_cur_token(), "a^b");
    assert_eq!(p.parse_status, ParseStatus::WaitCommand);
}

#[test]
fn remove_cur_token_forgets_word() {
    let mut p = Parser::new();
    feed(&mut p, "gre");
    p.remove_cur_token();
    assert_eq!(p.get_cur_token(), "");
    feed(&mut p, "grep");
    let cmds = p.enter();
    assert_eq!(cmds[0].name, "grep");
}

#[test]
fn add_str_ends_the_command() {
    let mut p = Parser::new();
    p.add_str("ls -a");
    // the last word is still pending when the command is closed
    assert_eq!(p.get_cur_token(), "-a");
    let cmds = p.enter();
    assert_eq!(cmds.len(), 2);
    assert_eq!(cmds[0].name, "ls");
    assert!(cmds[0].args.is_empty());
    assert_eq!(cmds[1].name, "");
    assert_eq!(cmds[1].args, vec!["-a".to_string()]);
}

#[test]
fn enter_returns_every_command_so_far() {
    let mut p = Parser::new();
    feed(&mut p, "a");
    let first = p.enter();
    assert_eq!(names(&first), vec!["a".to_string()]);
    feed(&mut p, "b");
    let second = p.enter();
    assert_eq!(names(&second), vec!["a".to_string(), "b".to_string()]);
}

#[test]
fn feeding_in_pieces_equals_feeding_whole() {
    let mut whole = Parser::new();
    feed(&mut whole, "ls -l | wc");
    let mut pieces = Parser::new();
    feed(&mut pieces, "ls -");
    feed(&mut pieces, "l | wc");
    assert_eq!(whole.parse_status, pieces.parse_status);
    assert_eq!(whole.get_cur_token(), pieces.get_cur_token());
    let a = whole.enter();
    let b = pieces.enter();
    assert_eq!(names(&a), names(&b));
    assert_eq!(a[0].args, b[0].args);
}

#[test]
fn semicolon_ends_command_and_waits() {
    let mut p = Parser::new();
    feed(&mut p, "x y;");
    assert_eq!(p.parse_status, ParseStatus::WaitCommand);
    assert_eq!(p.get_cur_token(), "");
    let cmds = p.enter();
    assert_eq!(cmds[0].name, "x");
    assert_eq!(cmds[0].args, vec!["y".to_string()]);
    assert_eq!(cmds[1].name, "");
}

#[test]
fn delimiters_constant() {
    assert_eq!(fugu::parser::DELIMITERS, [' ', ';', '|', '&', '<', '>', '^']);
}

#[test]
fn line_without_separators_adds_one_command() {
    let mut p = Parser::new();
    feed(&mut p, "echo a; ls");
    let r1 = p.enter();
    assert_eq!(names(&r1), vec!["echo", "ls"]);
    feed(&mut p, "cat <in >out x^y");
    let r2 = p.enter();
    assert_eq!(r2.len(), r1.len() + 1);
    assert_eq!(names(&r2[..r1.len()]), names(&r1));
    assert_eq!(r2[2].name, "cat");
    assert_eq!(p.parse_status, ParseStatus::WaitCommand);
}
