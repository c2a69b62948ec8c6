//! Parsed commands and the lookup that decides how a command is run.

use vstd::prelude::*;
use crate::builtin::{builtin_commands, builtin_names};
use crate::strings::str_eq;

verus! {

/// The characters of an optional string.
pub open spec fn opt_view(o: Option<String>) -> Option<Seq<char>> {
    match o {
        Some(s) => Some(s@),
        None => None,
    }
}

/// The characters of each string of a list.
pub open spec fn strings_view(v: Seq<String>) -> Seq<Seq<char>> {
    v.map_values(|s: String| s@)
}

/// A command as the parser has read it: its name, its arguments, its
/// redirections and how it is joined to its neighbours.
pub struct CommandSpec {
    pub name: Seq<char>,
    pub args: Seq<Seq<char>>,
    pub stdin: Option<Seq<char>>,
    pub stdout: Option<Seq<char>>,
    pub stderr: Option<Seq<char>>,
    pub pipe_in: bool,
    pub pipe_out: bool,
    pub wait: bool,
}

/// A command with no name, no arguments, no redirection, not piped, run
/// in the foreground.
pub open spec fn empty_command() -> CommandSpec {
    CommandSpec {
        name: Seq::empty(),
        args: Seq::empty(),
        stdin: None,
        stdout: None,
        stderr: None,
        pipe_in: false,
        pipe_out: false,
        wait: true,
    }
}

#[derive(Debug)]
pub struct CommandStore {
    pub name: String,
    pub args: Vec<String>,
    pub stdin: Option<String>,
    pub stdout: Option<String>,
    pub stderr: Option<String>,
    pub pipe_in: bool,
    pub pipe_out: bool,
    pub wait: bool,
}

impl View for CommandStore {
    type V = CommandSpec;

    open spec fn view(&self) -> CommandSpec {
        CommandSpec {
            name: self.name@,
            args: strings_view(self.args@),
            stdin: opt_view(self.stdin),
            stdout: opt_view(self.stdout),
            stderr: opt_view(self.stderr),
            pipe_in: self.pipe_in,
            pipe_out: self.pipe_out,
            wait: self.wait,
        }
    }
}

fn clone_opt_string(o: &Option<String>) -> (r: Option<String>)
    ensures
        opt_view(r) == opt_view(*o),
{
    match o {
        Some(s) => Some(s.clone()),
        None => None,
    }
}

impl Clone for CommandStore {
    fn clone(&self) -> (r: Self)
        ensures
            r@ == self@,
    {
        let mut args: Vec<String> = Vec::new();
        let n = self.args.len();
        for i in 0..n
            invariant
                n == self.args@.len(),
                args@.len() == i,
                forall|j: int| 0 <= j < i ==> (#[trigger] args@[j])@ == self.args@[j]@,
        {
            args.push(self.args[i].clone());
        }
        assert(strings_view(args@) =~= strings_view(self.args@));
        CommandStore {
            name: self.name.clone(),
            args: args,
            stdin: clone_opt_string(&self.stdin),
            stdout: clone_opt_string(&self.stdout),
            stderr: clone_opt_string(&self.stderr),
            pipe_in: self.pipe_in,
            pipe_out: self.pipe_out,
            wait: self.wait,
        }
    }
}

impl CommandStore {
    pub fn new() -> (c: CommandStore)
        ensures
            c@ == empty_command(),
    {
        let c = CommandStore {
            name: String::new(),
            args: Vec::new(),
            stdin: None,
            stdout: None,
            stderr: None,
            pipe_in: false,
            pipe_out: false,
            wait: true,
        };
        assert(strings_view(c.args@) =~= Seq::<Seq<char>>::empty());
        c
    }

    pub fn add_name(&mut self, s: &str)
        ensures
            final(self)@ == (CommandSpec { name: s@, ..old(self)@ }),
    {
        self.name = s.to_owned();
    }

    pub fn add_arg(&mut self, s: &str)
        ensures
            final(self)@ == (CommandSpec { args: old(self)@.args.push(s@), ..old(self)@ }),
    {
        self.args.push(s.to_owned());
        assert(strings_view(self.args@) =~= strings_view(old(self).args@).push(s@));
    }

    pub fn add_stdin(&mut self, s: &str)
        ensures
            final(self)@ == (CommandSpec { stdin: Some(s@), ..old(self)@ }),
    {
        self.stdin = Some(s.to_owned());
    }

    pub fn add_stdout(&mut self, s: &str)
        ensures
            final(self)@ == (CommandSpec { stdout: Some(s@), ..old(self)@ }),
    {
        self.stdout = Some(s.to_owned());
    }

    pub fn add_stderr(&mut self, s: &str)
        ensures
            final(self)@ == (CommandSpec { stderr: Some(s@), ..old(self)@ }),
    {
        self.stderr = Some(s.to_owned());
    }
}

/// Clones every command of a list.
pub fn clone_commands(v: &Vec<CommandStore>) -> (r: Vec<CommandStore>)
    ensures
        r@.len() == v@.len(),
        forall|i: int| 0 <= i < v@.len() ==> (#[trigger] r@[i])@ == v@[i]@,
{
    let mut r: Vec<CommandStore> = Vec::new();
    let n = v.len();
    for i in 0..n
        invariant
            n == v@.len(),
            r@.len() == i,
            forall|j: int| 0 <= j < i ==> (#[trigger] r@[j])@ == v@[j]@,
    {
        r.push(v[i].clone());
    }
    r
}

/// How a command line is carried out.
#[derive(Clone, Copy, Debug, PartialEq, Eq, Structural)]
pub enum Dispatch {
    /// The name is a built-in command.
    Builtin,
    /// The name is a known program: start it with the arguments.
    Spawn,
    /// The name is not known: report it.
    Unknown,
}

/// The commands that the shell knows: the programs found on the search
/// path, the files found under the working directory, and the built-ins.
///
/// Each list is used as a set: it is only ever asked whether it holds a
/// name (`listed`), so a name given twice counts as once and the order
/// does not matter (see `lemma_dispatch_by_membership`).
pub struct CommandList<'a> {
    commands_in_path: Vec<String>,
    commands_in_wd: Vec<String>,
    commands_builtin: Vec<&'a str>,
}

/// Whether `name` occurs in the list `names`.
pub open spec fn listed(names: Seq<Seq<char>>, name: Seq<char>) -> bool {
    names.contains(name)
}

/// How a command named `name` is carried out, given the three lists.
pub open spec fn dispatch_of(
    path: Seq<Seq<char>>,
    wd: Seq<Seq<char>>,
    builtins: Seq<Seq<char>>,
    name: Seq<char>,
) -> Dispatch {
    if listed(builtins, name) {
        Dispatch::Builtin
    } else if listed(path, name) || listed(wd, name) {
        Dispatch::Spawn
    } else {
        Dispatch::Unknown
    }
}

/// How a command is carried out depends only on which names each list
/// holds, not on their order or on repetitions.
pub proof fn lemma_dispatch_by_membership(
    path1: Seq<Seq<char>>,
    wd1: Seq<Seq<char>>,
    builtins1: Seq<Seq<char>>,
    path2: Seq<Seq<char>>,
    wd2: Seq<Seq<char>>,
    builtins2: Seq<Seq<char>>,
    name: Seq<char>,
)
    requires
        path1.to_set() == path2.to_set(),
        wd1.to_set() == wd2.to_set(),
        builtins1.to_set() == builtins2.to_set(),
    ensures
        dispatch_of(path1, wd1, builtins1, name) == dispatch_of(path2, wd2, builtins2, name),
{
    assert(path1.contains(name) == path1.to_set().contains(name));
    assert(path2.contains(name) == path2.to_set().contains(name));
    assert(wd1.contains(name) == wd1.to_set().contains(name));
    assert(wd2.contains(name) == wd2.to_set().contains(name));
    assert(builtins1.contains(name) == builtins1.to_set().contains(name));
    assert(builtins2.contains(name) == builtins2.to_set().contains(name));
}

/// A built-in name is run as a built-in, even when a program has the same
/// name; any other name is started when a program or a file of the
/// working directory has it, and is otherwise unknown.
pub proof fn lemma_dispatch_rules(
    path: Seq<Seq<char>>,
    wd: Seq<Seq<char>>,
    builtins: Seq<Seq<char>>,
    name: Seq<char>,
)
    ensures
        builtins.contains(name) ==> dispatch_of(path, wd, builtins, name) == Dispatch::Builtin,
        !builtins.contains(name) && (path.contains(name) || wd.contains(name)) ==> dispatch_of(
            path,
            wd,
            builtins,
            name,
        ) == Dispatch::Spawn,
        !builtins.contains(name) && !path.contains(name) && !wd.contains(name) ==> dispatch_of(
            path,
            wd,
            builtins,
            name,
        ) == Dispatch::Unknown,
{
}

fn find_string(v: &Vec<String>, name: &str) -> (r: bool)
    ensures
        r == listed(strings_view(v@), name@),
{
    let n = v.len();
    for i in 0..n
        invariant
            n == v@.len(),
            forall|j: int| 0 <= j < i ==> (#[trigger] v@[j])@ != name@,
    {
        if str_eq(v[i].as_str(), name) {
            assert(strings_view(v@)[i as int] == name@);
            return true;
        }
    }
    assert(!strings_view(v@).contains(name@)) by {
        if strings_view(v@).contains(name@) {
            let k = choose|k: int| 0 <= k < strings_view(v@).len() && #[trigger] strings_view(v@)[k] == name@;
            assert(v@[k]@ == name@);
        }
    }
    false
}

fn find_str(v: &Vec<&str>, name: &str) -> (r: bool)
    ensures
        r == listed(v@.map_values(|s: &str| s@), name@),
{
    let ghost names = v@.map_values(|s: &str| s@);
    let n = v.len();
    for i in 0..n
        invariant
            n == v@.len(),
            names == v@.map_values(|s: &str| s@),
            forall|j: int| 0 <= j < i ==> (#[trigger] v@[j])@ != name@,
    {
        if str_eq(v[i], name) {
            assert(names[i as int] == name@);
            return true;
        }
    }
    assert(!names.contains(name@)) by {
        if names.contains(name@) {
            let k = choose|k: int| 0 <= k < names.len() && #[trigger] names[k] == name@;
            assert(v@[k]@ == name@);
        }
    }
    false
}

impl<'a> CommandList<'a> {
    /// The programs found on the search path.
    pub closed spec fn path_names(&self) -> Seq<Seq<char>> {
        strings_view(self.commands_in_path@)
    }

    /// The files found under the working directory.
    pub closed spec fn wd_names(&self) -> Seq<Seq<char>> {
        strings_view(self.commands_in_wd@)
    }

    /// The built-in commands.
    pub closed spec fn builtin_names(&self) -> Seq<Seq<char>> {
        self.commands_builtin@.map_values(|s: &str| s@)
    }

    /// A command list made of the programs `path_cmds` found on the search
    /// path and the built-in commands; no file of the working directory
    /// is known yet.
    pub fn with_path_commands(path_cmds: Vec<String>) -> (l: CommandList<'a>)
        ensures
            l.path_names() == strings_view(path_cmds@),
            l.wd_names() == Seq::<Seq<char>>::empty(),
            l.builtin_names() == builtin_names(),
    {
        let l = CommandList {
            commands_in_path: path_cmds,
            commands_in_wd: Vec::new(),
            commands_builtin: builtin_commands(),
        };
        assert(strings_view(l.commands_in_wd@) =~= Seq::<Seq<char>>::empty());
        l
    }

    /// Replaces the files known under the working directory by `wd_cmds`.
    pub fn set_wd_commands(&mut self, wd_cmds: Vec<String>)
        ensures
            final(self).wd_names() == strings_view(wd_cmds@),
            final(self).path_names() == old(self).path_names(),
            final(self).builtin_names() == old(self).builtin_names(),
    {
        self.commands_in_wd = wd_cmds;
    }

    /// How `cmd` is carried out: as a built-in when its name is a built-in
    /// command, by starting a program when the name is a known program or
    /// file, and otherwise it is reported as unknown.
    pub fn dispatch(&self, cmd: &CommandStore) -> (d: Dispatch)
        ensures
            d == dispatch_of(self.path_names(), self.wd_names(), self.builtin_names(), cmd.name@),
    {
        let name = cmd.name.as_str();
        if find_str(&self.commands_builtin, name) {
            Dispatch::Builtin
        } else if find_string(&self.commands_in_path, name) || find_string(
            &self.commands_in_wd,
            name,
        ) {
            Dispatch::Spawn
        } else {
            Dispatch::Unknown
        }
    }
}

} // verus!
