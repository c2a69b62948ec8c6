//! Built-in commands of the shell (`cd` and `exit`).
//!
//! Running a built-in touches the process state (the working directory),
//! so this module only decides what a built-in call asks for; the caller
//! carries it out.

use vstd::prelude::*;
use crate::exec::CommandStore;
use crate::strings::str_eq;

verus! {

/// The names of the built-in commands, in order.
pub open spec fn builtin_names() -> Seq<Seq<char>> {
    seq!["cd"@, "exit"@]
}

/// The names of the built-in commands: `cd` and `exit`.
pub fn builtin_commands() -> (v: Vec<&'static str>)
    ensures
        v@.map_values(|s: &str| s@) == builtin_names(),
{
    let v: Vec<&'static str> = vec!["cd", "exit"];
    assert(v@.map_values(|s: &str| s@) =~= builtin_names());
    v
}

/// Which built-in a command line named.
#[derive(Clone, Copy, Debug, PartialEq, Eq, Structural)]
pub enum BuiltinHandle {
    Cd,
    Exit,
    Error,
}

/// The built-in that the name `name` selects.
pub open spec fn builtin_of(name: Seq<char>) -> BuiltinHandle {
    if name == "cd"@ {
        BuiltinHandle::Cd
    } else if name == "exit"@ {
        BuiltinHandle::Exit
    } else {
        BuiltinHandle::Error
    }
}

/// Selects the built-in that `cmd` names: `Cd` for `cd`, `Exit` for
/// `exit`, `Error` for any other name.
pub fn exec_builtin(cmd: &CommandStore) -> (h: BuiltinHandle)
    ensures
        h == builtin_of(cmd.name@),
{
    if str_eq(cmd.name.as_str(), "cd") {
        BuiltinHandle::Cd
    } else if str_eq(cmd.name.as_str(), "exit") {
        BuiltinHandle::Exit
    } else {
        BuiltinHandle::Error
    }
}

/// What `cd` was asked to do.
#[derive(Debug)]
pub enum CdRequest {
    /// More than one argument: `cd` refuses.
    TooManyArgs,
    /// Exactly one argument: change to that directory.
    Dir(String),
    /// No argument: change to the home directory.
    Home,
}

/// Reads the arguments of a `cd` command: more than one argument is an
/// error, one argument names the target directory, none means the home
/// directory.
pub fn cd_request(cmd: &CommandStore) -> (r: CdRequest)
    ensures
        cmd.args@.len() > 1 ==> r == CdRequest::TooManyArgs,
        cmd.args@.len() == 0 ==> r == CdRequest::Home,
        cmd.args@.len() == 1 ==> (r matches CdRequest::Dir(d) && d@ == cmd.args@[0]@),
{
    let n = cmd.args.len();
    if n > 1 {
        CdRequest::TooManyArgs
    } else if n == 1 {
        CdRequest::Dir(cmd.args[0].clone())
    } else {
        CdRequest::Home
    }
}

} // verus!
