//! The list of completion candidates shown under the prompt, with a
//! cursor and a window of at most fifteen visible rows that follows it.

use vstd::prelude::*;
use crate::fugu_env::CommandType;

verus! {

/// The largest number of rows shown at once.
pub const MAX_ROWS: usize = 15;

pub struct Selector {
    pub buf: Vec<(usize, CommandType)>,
    pub range: (usize, usize),
    pub max_print: usize,
    pub cursor: Option<usize>,
}

/// The state of a selector.
pub struct SelectorSpec {
    pub buf: Seq<(usize, CommandType)>,
    pub range: (usize, usize),
    pub max_print: usize,
    pub cursor: Option<usize>,
}

impl View for Selector {
    type V = SelectorSpec;

    open spec fn view(&self) -> SelectorSpec {
        SelectorSpec {
            buf: self.buf@,
            range: self.range,
            max_print: self.max_print,
            cursor: self.cursor,
        }
    }
}

/// The selector after moving the cursor one row down: the first move
/// selects the first row; the cursor stops at the last candidate; the
/// window slides down once the cursor passes its last row.
pub open spec fn down_spec(s: SelectorSpec) -> SelectorSpec {
    match s.cursor {
        Some(num) => if num + 1 >= s.buf.len() {
            s
        } else if num + 1 >= s.max_print {
            SelectorSpec {
                cursor: Some((num + 1) as usize),
                range: ((s.range.0 + 1) as usize, (s.range.1 + 1) as usize),
                ..s
            }
        } else {
            SelectorSpec { cursor: Some((num + 1) as usize), ..s }
        },
        None => SelectorSpec { cursor: Some(0), ..s },
    }
}

/// The selector after moving the cursor one row up: nothing happens with
/// no cursor or at the first row; the window slides up while the cursor
/// is below the first page.
pub open spec fn up_spec(s: SelectorSpec) -> SelectorSpec {
    match s.cursor {
        Some(num) => if num > 0 {
            if num >= s.max_print {
                SelectorSpec {
                    cursor: Some((num - 1) as usize),
                    range: ((s.range.0 - 1) as usize, (s.range.1 - 1) as usize),
                    ..s
                }
            } else {
                SelectorSpec { cursor: Some((num - 1) as usize), ..s }
            }
        } else {
            s
        },
        None => s,
    }
}

/// The first visible row for a cursor in a window of `m` rows.
pub open spec fn window_start(cursor: Option<usize>, m: usize) -> int {
    match cursor {
        Some(c) => if c + 1 >= m {
            c + 1 - m
        } else {
            0
        },
        None => 0,
    }
}

/// The cursor is on a candidate (or on the first row) and the window is
/// the `max_print` rows that end at the cursor, or the first page.
pub open spec fn selector_wf(s: SelectorSpec) -> bool {
    &&& (s.cursor matches Some(c) ==> c == 0 || c < s.buf.len())
    &&& if s.max_print == 0 {
        s.range == (0usize, 0usize) && s.buf.len() == 0
    } else {
        &&& s.range.0 == window_start(s.cursor, s.max_print)
        &&& s.range.1 == window_start(s.cursor, s.max_print) + s.max_print
    }
}

impl Selector {
    /// A selector over the candidates `b`, with no cursor and a window of
    /// the first rows (at most fifteen).
    pub fn new(b: Vec<(usize, CommandType)>) -> (s: Selector)
        ensures
            s@ == new_selector(b@),
            selector_wf(s@),
            b@.len() <= usize::MAX,
    {
        let m = if b.len() < MAX_ROWS {
            b.len()
        } else {
            MAX_ROWS
        };
        Selector { max_print: m, range: (0, m), buf: b, cursor: None }
    }

    /// Moves the cursor one row down (see `down_spec`).
    pub fn csr_down(&mut self)
        requires
            old(self).cursor matches Some(num) ==> num < usize::MAX && (num + 1 < old(
                self,
            ).buf@.len() && num + 1 >= old(self).max_print ==> old(self).range.0 < usize::MAX
                && old(self).range.1 < usize::MAX),
        ensures
            final(self)@ == down_spec(old(self)@),
    {
        if let Some(num) = self.cursor {
            if num + 1 >= self.buf.len() {
                return;
            }
            self.cursor = Some(num + 1);
            if num + 1 >= self.max_print {
                self.range.0 = self.range.0 + 1;
                self.range.1 = self.range.1 + 1;
            }
        } else {
            self.cursor = Some(0);
        }
    }

    /// Moves the cursor one row up (see `up_spec`).
    pub fn csr_up(&mut self)
        requires
            old(self).cursor matches Some(num) ==> (num > 0 && num >= old(self).max_print
                ==> old(self).range.0 > 0 && old(self).range.1 > 0),
        ensures
            final(self)@ == up_spec(old(self)@),
    {
        if let Some(num) = self.cursor {
            if num > 0 {
                self.cursor = Some(num - 1);
                if num >= self.max_print {
                    self.range.0 = self.range.0 - 1;
                    self.range.1 = self.range.1 - 1;
                }
            }
        }
    }
}

/// The candidate under the cursor, if the cursor is on one.
pub open spec fn selected(s: SelectorSpec) -> Option<(usize, CommandType)> {
    match s.cursor {
        Some(k) => if k < s.buf.len() {
            Some(s.buf[k as int])
        } else {
            None
        },
        None => None,
    }
}

/// A selector as `new` makes it over the candidates `buf`.
pub open spec fn new_selector(buf: Seq<(usize, CommandType)>) -> SelectorSpec {
    let m = if buf.len() < 15 { buf.len() as usize } else { 15usize };
    SelectorSpec { buf: buf, range: (0usize, m), max_print: m, cursor: None }
}

impl Selector {
    /// The candidate under the cursor, if the cursor is on one.
    pub fn get_idx(&self) -> (r: Option<(usize, CommandType)>)
        ensures
            r == selected(self@),
    {
        match self.cursor {
            Some(k) => if k < self.buf.len() {
                Some(self.buf[k])
            } else {
                None
            },
            None => None,
        }
    }
}

impl Default for Selector {
    /// An empty selector with a window of one row and no cursor.
    fn default() -> (s: Selector)
        ensures
            s@ == (SelectorSpec {
                buf: Seq::empty(),
                range: (0usize, 1usize),
                max_print: 1,
                cursor: None,
            }),
    {
        Selector { max_print: 1, range: (0, 1), buf: Vec::new(), cursor: None }
    }
}

/// Moving never changes the candidates or the window's size.  Down puts
/// a missing cursor on the first row and otherwise moves it one row
/// down, unless it is on the last candidate; Up moves it one row up,
/// unless it is missing or on the first row.
pub proof fn lemma_moves_step_by_one(s: SelectorSpec)
    ensures
        down_spec(s).buf == s.buf,
        down_spec(s).max_print == s.max_print,
        up_spec(s).buf == s.buf,
        up_spec(s).max_print == s.max_print,
        s.cursor is None ==> down_spec(s).cursor == Some(0usize) && up_spec(s) == s,
        s.cursor matches Some(c) ==> (c + 1 < s.buf.len() ==> down_spec(s).cursor == Some(
            (c + 1) as usize,
        )) && (c + 1 >= s.buf.len() ==> down_spec(s) == s),
        s.cursor matches Some(c) ==> (c > 0 ==> up_spec(s).cursor == Some((c - 1) as usize)) && (
        c == 0 ==> up_spec(s) == s),
{
}

/// A new selector shows the first candidates, as many as there are but
/// at most fifteen, with no row selected.
pub proof fn lemma_new_selector_shows_first_rows(buf: Seq<(usize, CommandType)>)
    ensures
        new_selector(buf).buf == buf,
        new_selector(buf).cursor is None,
        new_selector(buf).range.0 == 0,
        new_selector(buf).range.1 == new_selector(buf).max_print,
        new_selector(buf).max_print <= 15,
        new_selector(buf).max_print <= buf.len(),
        buf.len() <= 15 ==> new_selector(buf).max_print == buf.len(),
        buf.len() >= 15 ==> new_selector(buf).max_print == 15,
{
}

/// The window follows the cursor: after a move it still has `max_print`
/// rows, the selected row is visible, and the window is either the first
/// page or ends at the selected row.
pub proof fn lemma_window_follows_cursor(s: SelectorSpec)
    requires
        selector_wf(s),
        s.buf.len() <= usize::MAX,
        s.max_print > 0,
    ensures
        ({
            let d = down_spec(s);
            &&& d.range.1 - d.range.0 == s.max_print
            &&& d.cursor matches Some(c) && d.range.0 <= c < d.range.1
            &&& d.range.0 == 0 || d.range.1 == d.cursor.unwrap() + 1
        }),
        ({
            let u = up_spec(s);
            &&& u.range.1 - u.range.0 == s.max_print
            &&& (u.cursor matches Some(c) ==> u.range.0 <= c < u.range.1)
            &&& u.range.0 == 0 || (u.cursor matches Some(c) && u.range.1 == c + 1)
        }),
{
    lemma_moves_keep_wf(s);
}

/// A well-formed selector can always move down and up, and stays
/// well-formed.
pub proof fn lemma_moves_keep_wf(s: SelectorSpec)
    requires
        selector_wf(s),
        s.buf.len() <= usize::MAX,
    ensures
        s.cursor matches Some(num) ==> num < usize::MAX && (num + 1 < s.buf.len() && num + 1
            >= s.max_print ==> s.range.0 < usize::MAX && s.range.1 < usize::MAX),
        s.cursor matches Some(num) ==> (num > 0 && num >= s.max_print ==> s.range.0 > 0
            && s.range.1 > 0),
        selector_wf(down_spec(s)),
        selector_wf(up_spec(s)),
{
}

/// While the window is not empty, the row under the cursor is visible.
pub proof fn lemma_cursor_visible(s: SelectorSpec)
    requires
        selector_wf(s),
        s.max_print > 0,
        s.cursor is Some,
    ensures
        s.range.0 <= s.cursor.unwrap() < s.range.1,
{
}

/// The window never goes past the candidates when it is not larger than
/// their number (as for every selector made by `new`).
pub proof fn lemma_window_in_bounds(s: SelectorSpec)
    requires
        selector_wf(s),
        s.max_print <= s.buf.len(),
    ensures
        s.range.0 <= s.range.1 <= s.buf.len(),
{
}

/// Moving down and then up gives back the selector, when the move down
/// did move an existing cursor.
pub proof fn lemma_down_then_up(s: SelectorSpec)
    requires
        selector_wf(s),
        s.buf.len() <= usize::MAX,
        s.cursor matches Some(c) && c + 1 < s.buf.len(),
    ensures
        up_spec(down_spec(s)) == s,
{
}

} // verus!
