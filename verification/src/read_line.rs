//! Joining input lines that end in a backslash into one command.

use vstd::prelude::*;
use vstd::string::StringExecFns;
use crate::strings::{string_pop, string_push};

verus! {

/// A line without its last character (the newline), if it has one.
pub open spec fn chomp(line: Seq<char>) -> Seq<char> {
    if line.len() > 0 {
        line.drop_last()
    } else {
        line
    }
}

/// The command text after adding the input line `line` to `res`, and
/// whether another line should be read: an empty line ends the command
/// unchanged; a line ending in a backslash is added without it and asks
/// for more; any other line is added and ends the command.
pub open spec fn read_step(res: Seq<char>, line: Seq<char>) -> (Seq<char>, bool) {
    let l = chomp(line);
    if l.len() == 0 {
        (res, false)
    } else if l.last() == '\\' {
        (res + l.drop_last(), true)
    } else {
        (res + l, false)
    }
}

/// A line that ends in a backslash before its newline adds its text
/// without the backslash and asks for another line; a non-empty line
/// that does not adds its text and ends the command; an empty line ends
/// the command and adds nothing.
pub proof fn lemma_read_step_rules(res: Seq<char>, body: Seq<char>)
    ensures
        read_step(res, body + seq!['\\', '\n']) == (res + body, true),
        body.len() > 0 && body.last() != '\\' ==> read_step(res, body.push('\n')) == (
            res + body,
            false,
        ),
        read_step(res, seq!['\n']) == (res, false),
        read_step(res, Seq::<char>::empty()) == (res, false),
{
    assert((body + seq!['\\', '\n']).drop_last() =~= body.push('\\'));
    assert(body.push('\\').drop_last() =~= body);
    assert(body.push('\n').drop_last() =~= body);
    assert(seq!['\n'].drop_last() =~= Seq::<char>::empty());
    assert(res + Seq::<char>::empty() =~= res);
}

/// Adds one input line (with its newline) to the command text `res`, as
/// `read_step` says; returns whether to read another line.
pub fn read_cmd_step(res: &mut String, line: String) -> (more: bool)
    ensures
        (final(res)@, more) == read_step(old(res)@, line@),
{
    let mut cmd_str = line;
    string_pop(&mut cmd_str);
    assert(cmd_str@ == chomp(line@));
    match string_pop(&mut cmd_str) {
        None => false,
        Some(c) => {
            if c == '\\' {
                res.append(cmd_str.as_str());
                true
            } else {
                string_push(&mut cmd_str, c);
                assert(cmd_str@ =~= chomp(line@));
                res.append(cmd_str.as_str());
                false
            }
        },
    }
}

} // verus!
