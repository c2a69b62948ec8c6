use fugu::builtin::{builtin_commands, cd_request, exec_builtin, BuiltinHandle, CdRequest};
use fugu::common::mode_is_executable;
use fugu::exec::{CommandList, CommandStore, Dispatch};

fn command(name: &str, args: &[&str]) -> CommandStore {
    let mut c = CommandStore::new();
    c.add_name(name);
    for a in args {
        c.add_arg(a);
    }
    c
}

#[test]
fn new_command_is_empty() {
    let c = CommandStore::new();
    assert_eq!(c.name, "");
    assert!(c.args.is_empty());
    assert_eq!(c.stdin, None);
    assert_eq!(c.stdout, None);
    assert_eq!(c.stderr, None);
    assert!(!c.pipe_in && !c.pipe_out);
    assert!(c.wait);
}

#[test]
fn command_setters() {
    let mut c = command("grep", &["-i", "x"]);
    c.add_stdin("in.txt");
    c.add_stdout("out.txt");
    c.add_stderr("err.txt");
    assert_eq!(c.name, "grep");
    assert_eq!(c.args, vec!["-i".to_string(), "x".to_string()]);
    assert_eq!(c.stdin.as_deref(), Some("in.txt"));
    assert_eq!(c.stdout.as_deref(), Some("out.txt"));
    assert_eq!(c.stderr.as_deref(), Some("err.txt"));
    c.add_name("egrep");
    assert_eq!(c.name, "egrep");
}

#[test]
fn clone_copies_every_field() {
    let mut c = command("a", &["b"]);
    c.pipe_out = true;
    c.wait = false;
    c.add_stdout("o");
    let d = c.clone();
    assert_eq!(d.name, "a");
    assert_eq!(d.args, vec!["b".to_string()]);
    assert_eq!(d.stdout, Some("o".to_string()));
    assert!(d.pipe_out && !d.pipe_in && !d.wait);
}

#[test]
fn builtin_selection() {
    assert_eq!(exec_builtin(&command("cd", &[])), BuiltinHandle::Cd);
    assert_eq!(exec_builtin(&command("exit", &[])), BuiltinHandle::Exit);
    assert_eq!(exec_builtin(&command("ls", &[])), BuiltinHandle::Error);
    assert_eq!(exec_builtin(&command("cdx", &[])), BuiltinHandle::Error);
    assert_eq!(builtin_commands(), vec!["cd", "exit"]);
}

#[test]
fn cd_arguments() {
    assert!(matches!(cd_request(&command("cd", &[])), CdRequest::Home));
    match cd_request(&command("cd", &["/tmp"])) {
        CdRequest::Dir(d) => assert_eq!(d, "/tmp"),
        _ => panic!("expected a directory"),
    }
    assert!(matches!(cd_request(&command("cd", &["a", "b"])), CdRequest::TooManyArgs));
}

#[test]
fn dispatch_prefers_builtins() {
    let mut list = CommandList::with_path_commands(vec!["ls".to_string(), "cd".to_string()]);
    assert_eq!(list.dispatch(&command("cd", &[])), Dispatch::Builtin);
    assert_eq!(list.dispatch(&command("exit", &[])), Dispatch::Builtin);
    assert_eq!(list.dispatch(&command("ls", &["-l"])), Dispatch::Spawn);
    assert_eq!(list.dispatch(&command("nope", &[])), Dispatch::Unknown);
    list.set_wd_commands(vec!["./run.sh".to_string(), "nope".to_string()]);
    assert_eq!(list.dispatch(&command("nope", &[])), Dispatch::Spawn);
    assert_eq!(list.dispatch(&command("run.sh", &[])), Dispatch::Unknown);
    list.set_wd_commands(vec![]);
    assert_eq!(list.dispatch(&command("nope", &[])), Dispatch::Unknown);
}

#[test]
fn executable_mode_bits() {
    assert!(mode_is_executable(0o755));
    assert!(mode_is_executable(0o100));
    assert!(mode_is_executable(0o001));
    assert!(!mode_is_executable(0o644));
    assert!(!mode_is_executable(0o100644));
    assert!(mode_is_executable(0o100755));
}

#[test]
fn dispatch_ignores_repeated_names() {
    let once = CommandList::with_path_commands(vec!["ls".to_string(), "cat".to_string()]);
    let twice = CommandList::with_path_commands(vec![
        "cat".to_string(),
        "ls".to_string(),
        "ls".to_string(),
    ]);
    for n in ["ls", "cat", "cd", "vim"] {
        assert_eq!(once.dispatch(&command(n, &[])), twice.dispatch(&command(n, &[])));
    }
    assert_eq!(twice.dispatch(&command("vim", &[])), Dispatch::Unknown);
}
