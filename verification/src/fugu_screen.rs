//! What the screen shows, apart from the drawing itself: the error type
//! of screen output and the rows of the candidate list.

use vstd::prelude::*;
use crate::fugu_env::{candidate_in, name_in, CommandType, FuguEnv};
use crate::selector::Selector;

verus! {

/// A failure to draw on the screen, with its message.
#[derive(Debug)]
pub struct ScreenError(String);

impl ScreenError {
    /// The message.
    pub closed spec fn message(&self) -> Seq<char> {
        self.0@
    }

    pub fn new(message: String) -> (e: ScreenError)
        ensures
            e.message() == message@,
    {
        ScreenError(message)
    }

    /// The message.
    pub fn description(&self) -> (s: &str)
        ensures
            s@ == self.message(),
    {
        self.0.as_str()
    }
}

/// One row of the candidate list: the screen line it goes on, the name
/// shown and whether it is the selected one (drawn underlined).
pub struct SelectorLine<'b> {
    pub row: u16,
    pub text: &'b str,
    pub underline: bool,
}

/// The name of the candidate `id` in `env`.
pub open spec fn candidate_name(env: &FuguEnv, id: (usize, CommandType)) -> Seq<char> {
    name_in(env@, id)
}

/// The candidate `id` names an existing program or built-in.
pub open spec fn candidate_ok(env: &FuguEnv, id: (usize, CommandType)) -> bool {
    candidate_in(env@, id)
}

/// Every visible row of `sel` is a candidate that names an existing
/// program or built-in of `env`.
pub open spec fn window_ok(sel: &Selector, env: &FuguEnv) -> bool {
    forall|i: int|
        sel.range.0 <= i < sel.range.1 ==> i < sel.buf@.len() && candidate_ok(
            env,
            #[trigger] sel.buf@[i],
        )
}

/// The number of visible rows of a selector.
pub open spec fn visible_count(sel: &Selector) -> int {
    if sel.range.0 <= sel.range.1 {
        sel.range.1 - sel.range.0
    } else {
        0
    }
}

/// The rows of the visible window of `sel`: the `j`-th visible candidate
/// goes on screen line `j + 3` (as a terminal row number), shows its name
/// and is underlined when the cursor is on it.
pub fn selector_lines<'b>(sel: &Selector, env: &'b FuguEnv) -> (lines: Vec<SelectorLine<'b>>)
    requires
        window_ok(sel, env),
        visible_count(sel) + 3 <= usize::MAX,
    ensures
        lines@.len() == visible_count(sel),
        forall|j: int|
            0 <= j < lines@.len() ==> {
                let l = #[trigger] lines@[j];
                let i = sel.range.0 + j;
                &&& l.row == (j + 3) as u16
                &&& l.text@ == candidate_name(env, sel.buf@[i])
                &&& l.underline == (sel.cursor == Some(i as usize))
            },
{
    let mut lines: Vec<SelectorLine<'b>> = Vec::new();
    let mut i = sel.range.0;
    let mut j: usize = 0;
    while i < sel.range.1
        invariant
            sel.range.0 <= i,
            i <= sel.range.1 || i == sel.range.0,
            j == i - sel.range.0,
            lines@.len() == j,
            visible_count(sel) + 3 <= usize::MAX,
            window_ok(sel, env),
            forall|k: int|
                0 <= k < j ==> {
                    let l = #[trigger] lines@[k];
                    let p = sel.range.0 + k;
                    &&& l.row == (k + 3) as u16
                    &&& l.text@ == candidate_name(env, sel.buf@[p])
                    &&& l.underline == (sel.cursor == Some(p as usize))
                },
        decreases sel.range.1 - i,
    {
        assert(candidate_ok(env, sel.buf@[i as int]));
        let id = sel.buf[i];
        let text: &'b str = env.get_cmd_str(id).unwrap();
        let underline = match sel.cursor {
            Some(k) => k == i,
            None => false,
        };
        let row = #[verifier::truncate] ((j + 3) as u16);
        lines.push(SelectorLine { row: row, text: text, underline: underline });
        i = i + 1;
        j = j + 1;
    }
    lines
}

} // verus!
