//! Incremental parser of command lines.
//!
//! The parser is fed one character at a time (`read1`) or a whole string
//! (`add_str`).  It splits words at blanks; the first word of a command is
//! its name and the others are its arguments.  `;` ends a command, `|`
//! pipes it into the next one, `&` runs it in the background, and `<`,
//! `>`, `^` (at the start of a word) announce a redirection.

use vstd::prelude::*;
use crate::exec::{clone_commands, empty_command, CommandSpec, CommandStore};
use crate::strings::{string_clear, string_push};

verus! {

/// What the parser expects next.
#[derive(Clone, Copy, Debug, PartialEq, Eq, Structural)]
pub enum ParseStatus {
    WaitCommand,
    WaitArgs,
    WaitInFile,
    WaitOutFile,
    WaitErrFile,
}

#[derive(Clone, Copy, Debug)]
enum ParseResult {
    CmdOk,
}

/// The characters that end a word.
pub const DELIMITERS: [char; 7] = [' ', ';', '|', '&', '<', '>', '^'];

/// The state of a parser: the commands finished so far, what it expects
/// next, the word being read and the command being built.
pub struct ParserSpec {
    pub parsed: Seq<CommandSpec>,
    pub status: ParseStatus,
    pub token: Seq<char>,
    pub current: CommandSpec,
}

/// The state of a fresh parser.
pub open spec fn initial_parser() -> ParserSpec {
    ParserSpec {
        parsed: Seq::empty(),
        status: ParseStatus::WaitCommand,
        token: Seq::empty(),
        current: empty_command(),
    }
}

/// Hands the word being read to the command being built, as its name,
/// as an argument or as a redirection target, depending on what the
/// parser expects; gives the state after that and the status that
/// follows.  A word given as a redirection target stays the current word.
pub open spec fn add_token_spec(p: ParserSpec) -> (ParserSpec, ParseStatus) {
    if p.token.len() == 0 {
        (p, p.status)
    } else {
        match p.status {
            ParseStatus::WaitCommand => (
                ParserSpec {
                    current: CommandSpec { name: p.token, ..p.current },
                    token: Seq::empty(),
                    ..p
                },
                ParseStatus::WaitArgs,
            ),
            ParseStatus::WaitArgs => (
                ParserSpec {
                    current: CommandSpec { args: p.current.args.push(p.token), ..p.current },
                    token: Seq::empty(),
                    ..p
                },
                ParseStatus::WaitArgs,
            ),
            ParseStatus::WaitInFile => (
                ParserSpec { current: CommandSpec { stdin: Some(p.token), ..p.current }, ..p },
                ParseStatus::WaitArgs,
            ),
            ParseStatus::WaitOutFile => (
                ParserSpec { current: CommandSpec { stdout: Some(p.token), ..p.current }, ..p },
                ParseStatus::WaitArgs,
            ),
            ParseStatus::WaitErrFile => (
                ParserSpec { current: CommandSpec { stdin: Some(p.token), ..p.current }, ..p },
                ParseStatus::WaitArgs,
            ),
        }
    }
}

/// Appends the command being built to the finished commands and starts
/// an empty one.
pub open spec fn add_cmd_spec(p: ParserSpec) -> ParserSpec {
    ParserSpec { parsed: p.parsed.push(p.current), current: empty_command(), ..p }
}

/// The state after reading the character `ch`.
pub open spec fn read_char(p: ParserSpec, ch: char) -> ParserSpec {
    if ch == ' ' {
        let (q, st) = add_token_spec(p);
        ParserSpec { status: st, ..q }
    } else if ch == ';' {
        let q = add_cmd_spec(add_token_spec(p).0);
        ParserSpec { status: ParseStatus::WaitCommand, ..q }
    } else if ch == '|' {
        let q = add_cmd_spec(
            ParserSpec { current: CommandSpec { pipe_out: true, ..p.current }, ..p },
        );
        ParserSpec {
            current: CommandSpec { pipe_in: true, ..q.current },
            status: ParseStatus::WaitCommand,
            ..q
        }
    } else if ch == '&' {
        let q = add_cmd_spec(ParserSpec { current: CommandSpec { wait: false, ..p.current }, ..p });
        ParserSpec { status: ParseStatus::WaitCommand, ..q }
    } else if ch == '<' {
        ParserSpec { status: ParseStatus::WaitInFile, ..p }
    } else if ch == '>' {
        ParserSpec { status: ParseStatus::WaitOutFile, ..p }
    } else if ch == '^' && p.token.len() == 0 {
        ParserSpec { status: ParseStatus::WaitErrFile, ..p }
    } else {
        ParserSpec { token: p.token.push(ch), ..p }
    }
}

/// The state after reading the characters of `s` in order.
pub open spec fn read_all(p: ParserSpec, s: Seq<char>) -> ParserSpec
    decreases s.len(),
{
    if s.len() == 0 {
        p
    } else {
        read_char(read_all(p, s.drop_last()), s.last())
    }
}

/// Whether `c` is one of the characters that end a word.
pub open spec fn is_delimiter(c: char) -> bool {
    c == ' ' || c == ';' || c == '|' || c == '&' || c == '<' || c == '>' || c == '^'
}

/// Feeding a line in two pieces leaves the parser in the same state as
/// feeding it whole: the parser reads incrementally.
pub proof fn lemma_read_all_append(p: ParserSpec, s1: Seq<char>, s2: Seq<char>)
    ensures
        read_all(p, s1 + s2) == read_all(read_all(p, s1), s2),
    decreases s2.len(),
{
    if s2.len() == 0 {
        assert(s1 + s2 =~= s1);
    } else {
        assert((s1 + s2).drop_last() =~= s1 + s2.drop_last());
        assert((s1 + s2).last() == s2.last());
        lemma_read_all_append(p, s1, s2.drop_last());
    }
}

/// Reading a character never changes or drops a finished command; it
/// adds at most one.
pub proof fn lemma_read_char_keeps_history(p: ParserSpec, c: char)
    ensures
        read_char(p, c).parsed.len() == p.parsed.len() || read_char(p, c).parsed.len()
            == p.parsed.len() + 1,
        read_char(p, c).parsed.take(p.parsed.len() as int) == p.parsed,
{
    assert(read_char(p, c).parsed.take(p.parsed.len() as int) =~= p.parsed);
}

/// Reading a string never changes or drops a command finished before.
pub proof fn lemma_read_all_keeps_history(p: ParserSpec, s: Seq<char>)
    ensures
        p.parsed.len() <= read_all(p, s).parsed.len(),
        read_all(p, s).parsed.take(p.parsed.len() as int) == p.parsed,
    decreases s.len(),
{
    if s.len() > 0 {
        let q = read_all(p, s.drop_last());
        lemma_read_all_keeps_history(p, s.drop_last());
        lemma_read_char_keeps_history(q, s.last());
        assert(read_all(p, s).parsed.take(p.parsed.len() as int) =~= p.parsed);
    }
}

/// A `;` ends the command being built: it joins the finished commands,
/// and the parser then waits for a new command with an empty one.
pub proof fn lemma_semicolon_ends_command(p: ParserSpec)
    ensures
        read_char(p, ';').parsed.len() == p.parsed.len() + 1,
        read_char(p, ';').parsed.last() == add_token_spec(p).0.current,
        read_char(p, ';').current == empty_command(),
        read_char(p, ';').status == ParseStatus::WaitCommand,
{
}

/// A character that does not end a word only extends the current word.
pub proof fn lemma_plain_char_extends_token(p: ParserSpec, c: char)
    requires
        !is_delimiter(c) || (c == '^' && p.token.len() > 0),
    ensures
        read_char(p, c) == (ParserSpec { token: p.token.push(c), ..p }),
{
}

/// Handing over a word: with no word nothing changes; otherwise the word
/// becomes the command's name when a command is expected, is appended
/// after the arguments read so far when arguments are expected, and
/// becomes the input (for `<` and `^`) or output (for `>`) file of a
/// redirection.  The finished commands are never touched.
pub proof fn lemma_add_token_places_word(p: ParserSpec)
    ensures
        ({
            let (q, st) = add_token_spec(p);
            let c = p.current;
            &&& q.parsed == p.parsed
            &&& p.token.len() == 0 ==> q == p && st == p.status
            &&& p.token.len() > 0 ==> st == ParseStatus::WaitArgs && match p.status {
                ParseStatus::WaitCommand => q.current == CommandSpec { name: p.token, ..c }
                    && q.token.len() == 0,
                ParseStatus::WaitArgs => q.current.args.len() == c.args.len() + 1
                    && q.current.args.take(c.args.len() as int) == c.args
                    && q.current.args.last() == p.token
                    && q.current == CommandSpec { args: q.current.args, ..c }
                    && q.token.len() == 0,
                ParseStatus::WaitOutFile => q.current == CommandSpec { stdout: Some(p.token), ..c }
                    && q.token == p.token,
                _ => q.current == CommandSpec { stdin: Some(p.token), ..c } && q.token == p.token,
            }
        }),
{
    let (q, st) = add_token_spec(p);
    if p.token.len() > 0 && p.status == ParseStatus::WaitArgs {
        assert(q.current.args.take(p.current.args.len() as int) =~= p.current.args);
    }
}

/// A word without delimiters is only added to the current word.
pub proof fn lemma_plain_word_extends_token(p: ParserSpec, w: Seq<char>)
    requires
        forall|i: int| 0 <= i < w.len() ==> !is_delimiter(#[trigger] w[i]),
    ensures
        read_all(p, w) == (ParserSpec { token: p.token + w, ..p }),
    decreases w.len(),
{
    if w.len() == 0 {
        assert(p.token + w =~= p.token);
    } else {
        let w1 = w.drop_last();
        assert forall|i: int| 0 <= i < w1.len() implies !is_delimiter(#[trigger] w1[i]) by {
            assert(w1[i] == w[i]);
        }
        lemma_plain_word_extends_token(p, w1);
        assert(!is_delimiter(w[w.len() - 1]));
        assert((p.token + w1).push(w.last()) =~= p.token + w);
    }
}

/// Words read one after another, each followed by a blank, become the
/// command's name and then its arguments in the order typed: after the
/// name, each word is appended after the arguments read before it.
pub proof fn lemma_words_in_order(p: ParserSpec, w: Seq<char>)
    requires
        p.token.len() == 0,
        p.status == ParseStatus::WaitCommand || p.status == ParseStatus::WaitArgs,
        w.len() > 0,
        forall|i: int| 0 <= i < w.len() ==> !is_delimiter(#[trigger] w[i]),
    ensures
        ({
            let q = read_all(p, w.push(' '));
            &&& q.parsed == p.parsed
            &&& q.token.len() == 0
            &&& q.status == ParseStatus::WaitArgs
            &&& p.status == ParseStatus::WaitCommand ==> q.current == CommandSpec {
                name: w,
                ..p.current
            }
            &&& p.status == ParseStatus::WaitArgs ==> q.current == CommandSpec {
                args: p.current.args + seq![w],
                ..p.current
            }
        }),
{
    lemma_plain_word_extends_token(p, w);
    assert(w.push(' ').drop_last() =~= w);
    assert(p.token + w =~= w);
    assert(p.current.args.push(w) =~= p.current.args + seq![w]);
}

/// `|` finishes the command being built as one whose output is piped,
/// and starts one whose input is piped; `&` finishes it as one run in the
/// background; neither hands over the current word.  `<`, `>` and (at the
/// start of a word) `^` only announce an input, output or error file.
pub proof fn lemma_separators(p: ParserSpec)
    ensures
        read_char(p, '|') == (ParserSpec {
            parsed: p.parsed.push(CommandSpec { pipe_out: true, ..p.current }),
            current: CommandSpec { pipe_in: true, ..empty_command() },
            status: ParseStatus::WaitCommand,
            token: p.token,
        }),
        read_char(p, '&') == (ParserSpec {
            parsed: p.parsed.push(CommandSpec { wait: false, ..p.current }),
            current: empty_command(),
            status: ParseStatus::WaitCommand,
            token: p.token,
        }),
        read_char(p, '<') == (ParserSpec { status: ParseStatus::WaitInFile, ..p }),
        read_char(p, '>') == (ParserSpec { status: ParseStatus::WaitOutFile, ..p }),
        p.token.len() == 0 ==> read_char(p, '^') == (ParserSpec {
            status: ParseStatus::WaitErrFile,
            ..p
        }),
{
}

/// Whether `c` finishes a command: `;`, `|` or `&`.
pub open spec fn ends_command(c: char) -> bool {
    c == ';' || c == '|' || c == '&'
}

/// Characters other than `;`, `|` and `&` finish no command: the list of
/// finished commands stays as it was.
pub proof fn lemma_other_chars_add_no_command(p: ParserSpec, s: Seq<char>)
    requires
        forall|i: int| 0 <= i < s.len() ==> !ends_command(#[trigger] s[i]),
    ensures
        read_all(p, s).parsed == p.parsed,
    decreases s.len(),
{
    if s.len() > 0 {
        let s1 = s.drop_last();
        assert forall|i: int| 0 <= i < s1.len() implies !ends_command(#[trigger] s1[i]) by {
            assert(s1[i] == s[i]);
        }
        lemma_other_chars_add_no_command(p, s1);
        assert(!ends_command(s[s.len() - 1]));
    }
}

/// Reading a line without `;`, `|` or `&` and then Enter (a `;`) adds
/// exactly one command, the one built from the line, keeps the commands
/// finished before, and leaves the parser waiting for a command.
pub proof fn lemma_line_then_enter_adds_one(p: ParserSpec, s: Seq<char>)
    requires
        forall|i: int| 0 <= i < s.len() ==> !ends_command(#[trigger] s[i]),
    ensures
        read_char(read_all(p, s), ';').parsed == p.parsed.push(
            add_token_spec(read_all(p, s)).0.current,
        ),
        read_char(read_all(p, s), ';').parsed.len() == p.parsed.len() + 1,
        read_char(read_all(p, s), ';').parsed.take(p.parsed.len() as int) == p.parsed,
        read_char(read_all(p, s), ';').status == ParseStatus::WaitCommand,
{
    lemma_other_chars_add_no_command(p, s);
    let q = read_all(p, s);
    assert(add_token_spec(q).0.parsed == q.parsed);
    assert(read_char(q, ';').parsed.take(p.parsed.len() as int) =~= p.parsed);
}

#[derive(Debug)]
pub struct Parser {
    parsed_cmd: Vec<CommandStore>,
    pub parse_status: ParseStatus,
    current_token: String,
    current_cmd: CommandStore,
    parse_result: ParseResult,
}

impl View for Parser {
    type V = ParserSpec;

    closed spec fn view(&self) -> ParserSpec {
        ParserSpec {
            parsed: self.parsed_cmd@.map_values(|c: CommandStore| c@),
            status: self.parse_status,
            token: self.current_token@,
            current: self.current_cmd@,
        }
    }
}

impl Parser {
    pub fn new() -> (p: Parser)
        ensures
            p@ == initial_parser(),
    {
        let p = Parser {
            parsed_cmd: Vec::new(),
            parse_status: ParseStatus::WaitCommand,
            current_token: String::new(),
            current_cmd: CommandStore::new(),
            parse_result: ParseResult::CmdOk,
        };
        assert(p@.parsed =~= Seq::<CommandSpec>::empty());
        p
    }

    /// Reads every character of `s`, then ends the command being built.
    pub fn add_str(&mut self, s: &str)
        ensures
            final(self)@ == add_cmd_spec(read_all(old(self)@, s@)),
    {
        let n = s.unicode_len();
        let mut i: usize = 0;
        while i < n
            invariant
                n == s@.len(),
                i <= n,
                self@ == read_all(old(self)@, s@.take(i as int)),
            decreases n - i,
        {
            let c = s.get_char(i);
            proof {
                assert(s@.take(i + 1).drop_last() =~= s@.take(i as int));
            }
            self.read1(c);
            i = i + 1;
        }
        assert(s@.take(n as int) =~= s@);
        self.add_cmd();
    }

    /// Reads one character.
    pub fn read1(&mut self, ch: char)
        ensures
            final(self)@ == read_char(old(self)@, ch),
    {
        self.parse_status = match ch {
            ' ' => self.add_token(),
            ';' => {
                self.add_token();
                self.add_cmd();
                ParseStatus::WaitCommand
            },
            '|' => {
                self.current_cmd.pipe_out = true;
                self.add_cmd();
                self.current_cmd.pipe_in = true;
                ParseStatus::WaitCommand
            },
            '&' => {
                self.current_cmd.wait = false;
                self.add_cmd();
                ParseStatus::WaitCommand
            },
            '<' => ParseStatus::WaitInFile,
            '>' => ParseStatus::WaitOutFile,
            '^' => {
                if self.current_token.as_str().is_empty() {
                    ParseStatus::WaitErrFile
                } else {
                    string_push(&mut self.current_token, ch);
                    self.parse_status
                }
            },
            _ => {
                string_push(&mut self.current_token, ch);
                self.parse_status
            },
        };
    }

    /// Forgets the word being read.
    pub fn remove_cur_token(&mut self)
        ensures
            final(self)@ == (ParserSpec { token: Seq::empty(), ..old(self)@ }),
    {
        string_clear(&mut self.current_token);
    }

    fn add_token(&mut self) -> (st: ParseStatus)
        ensures
            final(self)@ == add_token_spec(old(self)@).0,
            st == add_token_spec(old(self)@).1,
    {
        if self.current_token.as_str().is_empty() {
            return self.parse_status;
        }
        match self.parse_status {
            ParseStatus::WaitCommand => {
                self.current_cmd.add_name(self.current_token.as_str());
                string_clear(&mut self.current_token);
                ParseStatus::WaitArgs
            },
            ParseStatus::WaitArgs => {
                self.current_cmd.add_arg(self.current_token.as_str());
                string_clear(&mut self.current_token);
                ParseStatus::WaitArgs
            },
            ParseStatus::WaitInFile => {
                self.current_cmd.add_stdin(self.current_token.as_str());
                ParseStatus::WaitArgs
            },
            ParseStatus::WaitOutFile => {
                self.current_cmd.add_stdout(self.current_token.as_str());
                ParseStatus::WaitArgs
            },
            ParseStatus::WaitErrFile => {
                self.current_cmd.add_stdin(self.current_token.as_str());
                ParseStatus::WaitArgs
            },
        }
    }

    fn add_cmd(&mut self)
        ensures
            final(self)@ == add_cmd_spec(old(self)@),
    {
        let mut finished = CommandStore::new();
        core::mem::swap(&mut finished, &mut self.current_cmd);
        self.parsed_cmd.push(finished);
        assert(self@.parsed =~= old(self)@.parsed.push(old(self)@.current));
    }

    /// Ends the line as a `;` would and returns every command finished so
    /// far.
    pub fn enter(&mut self) -> (cmds: Vec<CommandStore>)
        ensures
            final(self)@ == read_char(old(self)@, ';'),
            cmds@.map_values(|c: CommandStore| c@) == final(self)@.parsed,
    {
        self.read1(';');
        let r = clone_commands(&self.parsed_cmd);
        assert(r@.map_values(|c: CommandStore| c@) =~= self@.parsed);
        r
    }

    /// What the parser expects next.
    pub fn get_status(&self) -> (st: ParseStatus)
        ensures
            st == self@.status,
    {
        self.parse_status
    }

    /// The word being read.
    pub fn get_cur_token(&self) -> (t: &str)
        ensures
            t@ == self@.token,
    {
        self.current_token.as_str()
    }
}

} // verus!
