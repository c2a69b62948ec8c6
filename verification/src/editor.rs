//! The line editor behind the prompt.
//!
//! The cursor counts bytes from the start of the line, as the terminal
//! counts columns for ASCII text.  The byte-indexed operations of
//! `String` panic off a character boundary; `key_ok` says on which
//! states a key press does not panic, and `handle_key` asks for it.

use vstd::prelude::*;
use vstd::string::{StrSliceExecFns, StringExecFns};
use vstd::utf8::{encode_utf8, encode_utf8_decode_utf8};
use crate::exec::{opt_view, strings_view};
use crate::strings::{
    at_boundary, byte_len, byte_pos, char_index, is_ascii_char, is_ascii_text, lemma_ascii_offsets,
    lemma_char_index,
    lemma_char_index_of_pos, lemma_encode_concat, lemma_encode_scalar_nonempty,
    lemma_encode_split, lemma_byte_pos_monotone, string_insert, string_insert_str, string_pop,
    string_push, string_remove, string_truncate,
};

pub use crate::point::Point;

verus! {

/// A key press, as the terminal reports it.
#[derive(Clone, Copy, Debug, PartialEq, Eq, Structural)]
pub enum Key {
    Backspace,
    Left,
    Right,
    Up,
    Down,
    Home,
    End,
    PageUp,
    PageDown,
    BackTab,
    Delete,
    Insert,
    F(u8),
    Char(char),
    Alt(char),
    Ctrl(char),
    Null,
    Esc,
}

/// What a key press did to the editor.
#[derive(Clone, Copy, Debug, PartialEq, Eq, Structural)]
pub enum EditResult {
    /// The character was added at the end of the line.
    JustTailAdd(char),
    /// Text was added inside the line.
    JustAdd,
    /// Text was removed.
    Edited,
    /// Only the cursor moved.
    Moved,
    /// Nothing changed.
    Nothing,
}

/// The state of an editor: its lines, where it stands on the screen, the
/// cursor inside the lines and the text last cut.
pub struct EditorSpec {
    pub lines: Seq<Seq<char>>,
    pub base: Point,
    pub cursor: Point,
    pub yank: Option<Seq<char>>,
}

pub struct Editor {
    pub buffer: Vec<String>,
    pub cursor_base: Point,
    pub cursor_buf: Point,
    yank: Option<String>,
}

impl View for Editor {
    type V = EditorSpec;

    closed spec fn view(&self) -> EditorSpec {
        EditorSpec {
            lines: strings_view(self.buffer@),
            base: self.cursor_base,
            cursor: self.cursor_buf,
            yank: opt_view(self.yank),
        }
    }
}

/// The line under the cursor.
pub open spec fn cur_line(e: EditorSpec) -> Seq<char> {
    e.lines[e.cursor.y as int]
}

/// The cursor stands on an existing line.
pub open spec fn editor_wf(e: EditorSpec) -> bool {
    e.cursor.y < e.lines.len()
}

/// The key press `k` does not panic: byte offsets handed to `String` are
/// character boundaries (and not past the end), and the cursor does not
/// overflow.
pub open spec fn key_ok(e: EditorSpec, k: Key) -> bool {
    let l = cur_line(e);
    let x = e.cursor.x as int;
    let n = byte_len(l);
    match k {
        Key::Char(c) => x < usize::MAX && (x == n || (x < n && at_boundary(l, x))),
        Key::Backspace => backspace_ok(e),
        Key::Delete => delete_ok(e),
        Key::Ctrl(c) => if c == 'h' {
            backspace_ok(e)
        } else if c == 'd' {
            delete_ok(e)
        } else if c == 'k' {
            at_boundary(l, x)
        } else if c == 'y' {
            match e.yank {
                Some(s) => at_boundary(l, x) && x + byte_len(s) <= usize::MAX,
                None => true,
            }
        } else {
            true
        },
        _ => true,
    }
}

/// Backspace does not panic: at the end the last character is dropped;
/// inside the line the character before the cursor must start at a
/// boundary.
pub open spec fn backspace_ok(e: EditorSpec) -> bool {
    let l = cur_line(e);
    let x = e.cursor.x as int;
    let n = byte_len(l);
    n == 0 || x == 0 || x == n || (x < n && at_boundary(l, x - 1))
}

/// Delete does not panic: the cursor is at the end, or on a boundary
/// inside the line.
pub open spec fn delete_ok(e: EditorSpec) -> bool {
    let l = cur_line(e);
    let x = e.cursor.x as int;
    let n = byte_len(l);
    x == n || (x < n && at_boundary(l, x))
}

/// Replaces the current line and moves the cursor to byte offset `x`.
pub open spec fn with_line(e: EditorSpec, line: Seq<char>, x: int) -> EditorSpec {
    EditorSpec {
        lines: e.lines.update(e.cursor.y as int, line),
        cursor: Point { x: x as usize, y: e.cursor.y },
        ..e
    }
}

/// Moves the cursor to byte offset `x`.
pub open spec fn with_x(e: EditorSpec, x: int) -> EditorSpec {
    EditorSpec { cursor: Point { x: x as usize, y: e.cursor.y }, ..e }
}

/// The editor after the key press `k`, and what the key press did.
pub open spec fn edit_step(e: EditorSpec, k: Key) -> (EditorSpec, EditResult) {
    let line = cur_line(e);
    let x = e.cursor.x as int;
    let n = byte_len(line);
    match k {
        Key::Char(c) => if x == n {
            (with_line(e, line.push(c), x + 1), EditResult::JustTailAdd(c))
        } else {
            (with_line(e, line.insert(char_index(line, x), c), x + 1), EditResult::JustAdd)
        },
        Key::Backspace => backspace_step(e),
        Key::Right => right_step(e),
        Key::Left => left_step(e),
        Key::Delete => delete_step(e),
        Key::Home => (with_x(e, 0), EditResult::Moved),
        Key::End => (with_x(e, n), EditResult::Moved),
        Key::Ctrl(c) => if c == 'h' {
            backspace_step(e)
        } else if c == 'f' {
            right_step(e)
        } else if c == 'b' {
            left_step(e)
        } else if c == 'd' {
            delete_step(e)
        } else if c == 'a' {
            (with_x(e, 0), EditResult::Moved)
        } else if c == 'e' {
            (with_x(e, n), EditResult::Moved)
        } else if c == 'k' {
            let k = char_index(line, x);
            (
                EditorSpec { yank: Some(line.skip(k)), ..with_line(e, line.take(k), x) },
                EditResult::Edited,
            )
        } else if c == 'y' {
            match e.yank {
                Some(s) => {
                    let k = char_index(line, x);
                    (
                        with_line(e, line.take(k) + s + line.skip(k), x + byte_len(s)),
                        EditResult::JustAdd,
                    )
                },
                None => (e, EditResult::Nothing),
            }
        } else {
            (e, EditResult::Nothing)
        },
        _ => (e, EditResult::Nothing),
    }
}

/// Backspace: removes the character before the cursor (the last one when
/// the cursor is at the end) and moves the cursor one byte back.
pub open spec fn backspace_step(e: EditorSpec) -> (EditorSpec, EditResult) {
    let line = cur_line(e);
    let x = e.cursor.x as int;
    let n = byte_len(line);
    if n == 0 || x == 0 {
        (e, EditResult::Nothing)
    } else if x == n {
        (with_line(e, line.drop_last(), x - 1), EditResult::Edited)
    } else {
        (with_line(e, line.remove(char_index(line, x - 1)), x - 1), EditResult::Edited)
    }
}

/// Right arrow: one byte forward, unless at or past the end of the line.
pub open spec fn right_step(e: EditorSpec) -> (EditorSpec, EditResult) {
    if e.cursor.x >= byte_len(cur_line(e)) {
        (e, EditResult::Nothing)
    } else {
        (with_x(e, e.cursor.x + 1), EditResult::Moved)
    }
}

/// Left arrow: one byte back, unless at the start of the line.
pub open spec fn left_step(e: EditorSpec) -> (EditorSpec, EditResult) {
    if e.cursor.x == 0 {
        (e, EditResult::Nothing)
    } else {
        (with_x(e, e.cursor.x - 1), EditResult::Moved)
    }
}

/// Delete: removes the character that starts under the cursor.
pub open spec fn delete_step(e: EditorSpec) -> (EditorSpec, EditResult) {
    let line = cur_line(e);
    let x = e.cursor.x as int;
    if x == byte_len(line) {
        (e, EditResult::Nothing)
    } else {
        (with_line(e, line.remove(char_index(line, x)), x), EditResult::Edited)
    }
}

/// A line as the parser gets it: a trailing backslash is dropped.
pub open spec fn strip_continuation(l: Seq<char>) -> Seq<char> {
    if l.len() > 0 && l.last() == '\\' {
        l.drop_last()
    } else {
        l
    }
}

/// All lines joined, each without its trailing backslash.
pub open spec fn joined_lines(ls: Seq<Seq<char>>) -> Seq<char>
    decreases ls.len(),
{
    if ls.len() == 0 {
        Seq::empty()
    } else {
        joined_lines(ls.drop_last()) + strip_continuation(ls.last())
    }
}

/// The text for the parser is the lines one after another, each without
/// a trailing backslash and otherwise unchanged.
pub proof fn lemma_joined_lines_append(ls: Seq<Seq<char>>, l: Seq<char>)
    ensures
        l.len() > 0 && l.last() == '\\' ==> joined_lines(ls.push(l)) == joined_lines(ls)
            + l.take(l.len() - 1),
        !(l.len() > 0 && l.last() == '\\') ==> joined_lines(ls.push(l)) == joined_lines(ls) + l,
        joined_lines(Seq::<Seq<char>>::empty()) == Seq::<char>::empty(),
{
    assert(ls.push(l).drop_last() =~= ls);
    if l.len() > 0 {
        assert(l.drop_last() =~= l.take(l.len() - 1));
    }
}

/// Where the word before the character index `x` starts: the index after
/// the nearest delimiter before `x`, or 0.
pub open spec fn word_start(line: Seq<char>, x: int, delims: Seq<char>) -> int
    decreases x,
{
    if x <= 0 {
        0
    } else if delims.contains(line[x - 1]) {
        x
    } else {
        word_start(line, x - 1, delims)
    }
}

/// The word before index `x` starts at or before `x`.
pub proof fn lemma_word_start_bounds(line: Seq<char>, x: int, delims: Seq<char>)
    ensures
        x >= 0 ==> 0 <= word_start(line, x, delims) <= x,
    decreases x,
{
    if x > 0 && !delims.contains(line[x - 1]) {
        lemma_word_start_bounds(line, x - 1, delims);
    }
}

/// Two character sequences with the same UTF-8 encoding are equal.
proof fn lemma_same_encoding(s: Seq<char>, t: Seq<char>)
    requires
        encode_utf8(s) == encode_utf8(t),
    ensures
        s == t,
{
    encode_utf8_decode_utf8(s);
    encode_utf8_decode_utf8(t);
}

/// Typing a character and then pressing Backspace gives back the editor
/// as it was.
pub proof fn lemma_type_then_backspace(e: EditorSpec, c: char)
    requires
        editor_wf(e),
        key_ok(e, Key::Char(c)),
    ensures
        key_ok(edit_step(e, Key::Char(c)).0, Key::Backspace),
        edit_step(edit_step(e, Key::Char(c)).0, Key::Backspace).0 == e,
{
    let l = cur_line(e);
    let x = e.cursor.x as int;
    let n = byte_len(l);
    let e1 = edit_step(e, Key::Char(c)).0;
    let w = byte_len(seq![c]);
    lemma_encode_scalar_nonempty(c);
    if x == n {
        let l1 = l.push(c);
        assert(l1 == l + seq![c]);
        lemma_encode_concat(l, seq![c]);
        assert(cur_line(e1) == l1);
        assert(byte_len(l1) == n + w);
        assert(l1.take(l.len() as int) =~= l);
        lemma_char_index_of_pos(l1, l.len() as int);
        if w == 1 {
            assert(l1.drop_last() =~= l);
        } else {
            assert(l1.remove(l.len() as int) =~= l);
        }
        assert(edit_step(e1, Key::Backspace).0.lines =~= e.lines);
    } else {
        lemma_char_index(l, x);
        let k = char_index(l, x);
        let l1 = l.insert(k, c);
        assert(l1.take(k) =~= l.take(k));
        assert(l1 =~= l.take(k) + (seq![c] + l.skip(k)));
        lemma_encode_concat(l.take(k), seq![c] + l.skip(k));
        lemma_encode_concat(seq![c], l.skip(k));
        lemma_encode_split(l, k);
        assert(byte_len(l1) == n + w);
        assert(byte_pos(l1, k) == x);
        lemma_char_index_of_pos(l1, k);
        assert(l1.remove(k) =~= l);
        assert(edit_step(e1, Key::Backspace).0.lines =~= e.lines);
    }
}

/// Cutting to the end of the line (Ctrl-K) and pasting it back (Ctrl-Y)
/// restores the lines, leaves the cursor at the end of its line and keeps
/// the cut text.
pub proof fn lemma_kill_then_yank(e: EditorSpec)
    requires
        editor_wf(e),
        key_ok(e, Key::Ctrl('k')),
        byte_len(cur_line(e)) <= usize::MAX,
    ensures
        ({
            let e1 = edit_step(e, Key::Ctrl('k')).0;
            let e2 = edit_step(e1, Key::Ctrl('y')).0;
            &&& key_ok(e1, Key::Ctrl('y'))
            &&& e2.lines == e.lines
            &&& e2.cursor == Point { x: byte_len(cur_line(e)) as usize, y: e.cursor.y }
            &&& e2.yank == Some(cur_line(e).skip(char_index(cur_line(e), e.cursor.x as int)))
        }),
{
    let l = cur_line(e);
    let x = e.cursor.x as int;
    lemma_char_index(l, x);
    let k = char_index(l, x);
    let l1 = l.take(k);
    let e1 = edit_step(e, Key::Ctrl('k')).0;
    assert(cur_line(e1) == l1);
    assert(l1.take(k) =~= l1);
    assert(byte_len(l1) == x);
    lemma_char_index_of_pos(l1, k);
    assert(byte_pos(l1, k) == x);
    lemma_encode_split(l, k);
    assert(l1.take(k) + l.skip(k) + l1.skip(k) =~= l);
    assert(edit_step(e1, Key::Ctrl('y')).0.lines =~= e.lines);
}

/// Moving left and then right gives back the editor, when the cursor was
/// inside the line and not at its start.
pub proof fn lemma_left_then_right(e: EditorSpec)
    requires
        editor_wf(e),
        0 < e.cursor.x <= byte_len(cur_line(e)),
    ensures
        edit_step(edit_step(e, Key::Left).0, Key::Right).0 == e,
{
}

/// Home followed by End puts the cursor at the end of its line, whatever
/// it was before.
pub proof fn lemma_home_then_end(e: EditorSpec)
    requires
        editor_wf(e),
    ensures
        edit_step(edit_step(e, Key::Home).0, Key::End).0 == with_x(e, byte_len(cur_line(e))),
{
}

/// A key press that reports no change leaves the editor as it was.
pub proof fn lemma_nothing_means_unchanged(e: EditorSpec, k: Key)
    requires
        edit_step(e, k).1 == EditResult::Nothing,
    ensures
        edit_step(e, k).0 == e,
{
}

/// The Ctrl shortcuts act as their keys: Ctrl-H as Backspace, Ctrl-F as
/// Right, Ctrl-B as Left, Ctrl-D as Delete, Ctrl-A as Home, Ctrl-E as End.
pub proof fn lemma_ctrl_shortcuts(e: EditorSpec)
    ensures
        edit_step(e, Key::Ctrl('h')) == edit_step(e, Key::Backspace),
        edit_step(e, Key::Ctrl('f')) == edit_step(e, Key::Right),
        edit_step(e, Key::Ctrl('b')) == edit_step(e, Key::Left),
        edit_step(e, Key::Ctrl('d')) == edit_step(e, Key::Delete),
        edit_step(e, Key::Ctrl('a')) == edit_step(e, Key::Home),
        edit_step(e, Key::Ctrl('e')) == edit_step(e, Key::End),
{
}

/// Typing `c` puts it at the cursor: the characters before the cursor
/// stay in front of it and those after it follow it; the cursor moves
/// one byte on, and the result says whether `c` went at the end.
pub proof fn lemma_typing_inserts_at_cursor(e: EditorSpec, c: char)
    requires
        editor_wf(e),
        key_ok(e, Key::Char(c)),
    ensures
        ({
            let l = cur_line(e);
            let x = e.cursor.x as int;
            let k = char_index(l, x);
            let (e1, r) = edit_step(e, Key::Char(c));
            &&& e1.lines == e.lines.update(e.cursor.y as int, l.take(k) + seq![c] + l.skip(k))
            &&& e1.cursor == Point { x: (x + 1) as usize, y: e.cursor.y }
            &&& e1.base == e.base
            &&& e1.yank == e.yank
            &&& (x == byte_len(l) ==> k == l.len() && r == EditResult::JustTailAdd(c))
            &&& (x < byte_len(l) ==> r == EditResult::JustAdd)
        }),
{
    let l = cur_line(e);
    let x = e.cursor.x as int;
    if x == byte_len(l) {
        lemma_char_index_of_pos(l, l.len() as int);
        assert(l.take(l.len() as int) =~= l);
        assert(l.skip(l.len() as int) =~= Seq::<char>::empty());
        assert(l.push(c) =~= l.take(l.len() as int) + seq![c] + l.skip(l.len() as int));
    } else {
        lemma_char_index(l, x);
        let k = char_index(l, x);
        assert(l.insert(k, c) =~= l.take(k) + seq![c] + l.skip(k));
    }
}

/// Backspace removes exactly the character before the cursor (the last
/// one when the cursor is at the end) and moves the cursor one byte back;
/// at the start of the line or on an empty line it does nothing.
pub proof fn lemma_backspace_removes_char_before_cursor(e: EditorSpec)
    requires
        editor_wf(e),
        backspace_ok(e),
    ensures
        ({
            let l = cur_line(e);
            let x = e.cursor.x as int;
            let n = byte_len(l);
            let (e1, r) = edit_step(e, Key::Backspace);
            &&& (n == 0 || x == 0) ==> e1 == e && r == EditResult::Nothing
            &&& (n > 0 && x > 0) ==> {
                let k = if x == n {
                    l.len() - 1
                } else {
                    char_index(l, x - 1)
                };
                &&& 0 <= k < l.len()
                &&& e1.lines == e.lines.update(e.cursor.y as int, l.take(k) + l.skip(k + 1))
                &&& e1.cursor == Point { x: (x - 1) as usize, y: e.cursor.y }
                &&& e1.base == e.base
                &&& e1.yank == e.yank
                &&& r == EditResult::Edited
            }
        }),
{
    let l = cur_line(e);
    let x = e.cursor.x as int;
    let n = byte_len(l);
    if n > 0 && x > 0 {
        if l.len() == 0 {
            assert(encode_utf8(l) =~= Seq::<u8>::empty());
        }
        if x == n {
            assert(l.drop_last() =~= l.take(l.len() - 1) + l.skip(l.len() as int));
        } else {
            lemma_char_index(l, x - 1);
            let k = char_index(l, x - 1);
            lemma_encode_split(l, k);
            if k == l.len() {
                assert(l.skip(k) =~= Seq::<char>::empty());
                assert(encode_utf8(Seq::<char>::empty()) =~= Seq::<u8>::empty());
            }
            assert(l.remove(k) =~= l.take(k) + l.skip(k + 1));
        }
    }
}

/// Delete removes exactly the character that starts under the cursor and
/// keeps the cursor where it is; at the end of the line it does nothing.
pub proof fn lemma_delete_removes_char_under_cursor(e: EditorSpec)
    requires
        editor_wf(e),
        delete_ok(e),
    ensures
        ({
            let l = cur_line(e);
            let x = e.cursor.x as int;
            let k = char_index(l, x);
            let (e1, r) = edit_step(e, Key::Delete);
            &&& x == byte_len(l) ==> e1 == e && r == EditResult::Nothing
            &&& x < byte_len(l) ==> {
                &&& 0 <= k < l.len()
                &&& e1.lines == e.lines.update(e.cursor.y as int, l.take(k) + l.skip(k + 1))
                &&& e1.cursor == e.cursor
                &&& e1.base == e.base
                &&& e1.yank == e.yank
                &&& r == EditResult::Edited
            }
        }),
{
    let l = cur_line(e);
    let x = e.cursor.x as int;
    if x < byte_len(l) {
        lemma_char_index(l, x);
        let k = char_index(l, x);
        lemma_encode_split(l, k);
        if k == l.len() {
            assert(l.skip(k) =~= Seq::<char>::empty());
            assert(encode_utf8(Seq::<char>::empty()) =~= Seq::<u8>::empty());
        }
        assert(l.remove(k) =~= l.take(k) + l.skip(k + 1));
    }
}

/// The arrows, Home and End only move the cursor: Left and Right by one
/// byte within the line, Home to its start, End to its end.
pub proof fn lemma_moves_only_move(e: EditorSpec)
    ensures
        ({
            let x = e.cursor.x as int;
            let n = byte_len(cur_line(e));
            let moved = |e1: EditorSpec, x1: int|
                e1 == EditorSpec { cursor: Point { x: x1 as usize, y: e.cursor.y }, ..e };
            &&& x < n ==> moved(edit_step(e, Key::Right).0, x + 1) && edit_step(e, Key::Right).1
                == EditResult::Moved
            &&& x >= n ==> edit_step(e, Key::Right) == (e, EditResult::Nothing)
            &&& x > 0 ==> moved(edit_step(e, Key::Left).0, x - 1) && edit_step(e, Key::Left).1
                == EditResult::Moved
            &&& x == 0 ==> edit_step(e, Key::Left) == (e, EditResult::Nothing)
            &&& moved(edit_step(e, Key::Home).0, 0)
            &&& moved(edit_step(e, Key::End).0, n)
        }),
{
}

/// Ctrl-K cuts the text from the cursor to the end of the line: the line
/// keeps what was before the cursor, the cut text is the rest, and the
/// two together are the old line.
pub proof fn lemma_kill_cuts_to_end(e: EditorSpec)
    requires
        editor_wf(e),
        at_boundary(cur_line(e), e.cursor.x as int),
    ensures
        ({
            let l = cur_line(e);
            let e1 = edit_step(e, Key::Ctrl('k')).0;
            let kept = e1.lines[e.cursor.y as int];
            &&& e1.yank is Some
            &&& kept + e1.yank.unwrap() == l
            &&& byte_len(kept) == e.cursor.x
            &&& e1.lines == e.lines.update(e.cursor.y as int, kept)
            &&& e1.cursor == e.cursor
            &&& e1.base == e.base
        }),
{
    let l = cur_line(e);
    let x = e.cursor.x as int;
    lemma_char_index(l, x);
    let k = char_index(l, x);
    assert(l.take(k) + l.skip(k) =~= l);
}

/// Ctrl-Y puts the cut text in at the cursor and moves the cursor past
/// it; the cut text is kept.  Without cut text it does nothing.
pub proof fn lemma_yank_inserts_cut_text(e: EditorSpec)
    requires
        editor_wf(e),
    ensures
        ({
            let l = cur_line(e);
            let x = e.cursor.x as int;
            let k = char_index(l, x);
            let (e1, r) = edit_step(e, Key::Ctrl('y'));
            match e.yank {
                Some(s) => {
                    &&& e1.lines == e.lines.update(e.cursor.y as int, l.take(k) + s + l.skip(k))
                    &&& e1.cursor == Point { x: (x + byte_len(s)) as usize, y: e.cursor.y }
                    &&& e1.yank == e.yank
                    &&& e1.base == e.base
                    &&& r == EditResult::JustAdd
                },
                None => e1 == e && r == EditResult::Nothing,
            }
        }),
{
}

/// The word before index `x` holds no delimiter, and it stops at one: it
/// starts at the start of the line or right after a delimiter.
pub proof fn lemma_word_start_stops_at_delimiter(line: Seq<char>, x: int, delims: Seq<char>)
    requires
        0 <= x <= line.len(),
    ensures
        0 <= word_start(line, x, delims) <= x,
        forall|i: int| word_start(line, x, delims) <= i < x ==> !delims.contains(#[trigger] line[i]),
        word_start(line, x, delims) == 0 || delims.contains(line[word_start(line, x, delims) - 1]),
    decreases x,
{
    if x > 0 && !delims.contains(line[x - 1]) {
        lemma_word_start_stops_at_delimiter(line, x - 1, delims);
    }
}

/// The keys that the editor acts on: characters, Backspace, the arrows
/// Left and Right, Delete, Home, End, and Ctrl with one of `h f b d a e
/// k y`.
pub open spec fn handled_key(k: Key) -> bool {
    match k {
        Key::Char(_) | Key::Backspace | Key::Left | Key::Right | Key::Delete | Key::Home
        | Key::End => true,
        Key::Ctrl(c) => c == 'h' || c == 'f' || c == 'b' || c == 'd' || c == 'a' || c == 'e'
            || c == 'k' || c == 'y',
        _ => false,
    }
}

/// Every other key leaves the editor as it was and reports `Nothing`.
pub proof fn lemma_unhandled_keys_do_nothing(e: EditorSpec, k: Key)
    requires
        !handled_key(k),
    ensures
        edit_step(e, k) == (e, EditResult::Nothing),
{
}

/// No key press moves the editor on the screen, changes the row of the
/// cursor or (on a well-formed editor) the number of lines; a key press that only moves leaves the
/// text and the cut text as they were.
pub proof fn lemma_edit_step_frame(e: EditorSpec, k: Key)
    ensures
        edit_step(e, k).0.base == e.base,
        edit_step(e, k).0.cursor.y == e.cursor.y,
        editor_wf(e) ==> edit_step(e, k).0.lines.len() == e.lines.len(),
        edit_step(e, k).1 == EditResult::Moved ==> edit_step(e, k).0.lines == e.lines
            && edit_step(e, k).0.yank == e.yank,
{
}

/// The editor that `Editor::new(p)` makes.
pub open spec fn initial_editor(p: Point) -> EditorSpec {
    EditorSpec {
        lines: seq![Seq::<char>::empty()],
        base: p,
        cursor: Point { x: 0, y: 0 },
        yank: None,
    }
}

/// The editor after the key presses `ks`, in order.
pub open spec fn run_keys(e: EditorSpec, ks: Seq<Key>) -> EditorSpec
    decreases ks.len(),
{
    if ks.len() == 0 {
        e
    } else {
        edit_step(run_keys(e, ks.drop_last()), ks.last()).0
    }
}

/// A key press whose character, if it has one to insert, is ASCII.
pub open spec fn ascii_key(k: Key) -> bool {
    k matches Key::Char(c) ==> is_ascii_char(c)
}

/// The line and the cut text together are shorter than `usize::MAX`
/// bytes, so that no cursor position overflows.
pub open spec fn within_limits(e: EditorSpec) -> bool {
    byte_len(cur_line(e)) + match e.yank {
        Some(s) => byte_len(s),
        None => 0,
    } < usize::MAX
}

/// A single ASCII line shown from `p`, with the cursor on it, at most at
/// its end, and ASCII cut text.
pub open spec fn ascii_editor(e: EditorSpec, p: Point) -> bool {
    &&& e.lines.len() == 1
    &&& e.cursor.y == 0
    &&& e.base == p
    &&& e.cursor.x <= e.lines[0].len()
    &&& is_ascii_text(e.lines[0])
    &&& e.yank matches Some(s) ==> is_ascii_text(s)
}

/// One ASCII key press on an ASCII editor does not panic and gives an
/// ASCII editor again.
pub proof fn lemma_ascii_key_keeps_editor_valid(e: EditorSpec, p: Point, k: Key)
    requires
        ascii_editor(e, p),
        ascii_key(k),
        within_limits(e),
    ensures
        editor_wf(e),
        key_ok(e, k),
        ascii_editor(edit_step(e, k).0, p),
{
    let l = cur_line(e);
    let x = e.cursor.x as int;
    lemma_ascii_offsets(l);
    assert(at_boundary(l, x));
    if x > 0 {
        assert(at_boundary(l, x - 1));
    }
    match e.yank {
        Some(s) => {
            lemma_ascii_offsets(s);
        },
        None => {},
    }
    let e1 = edit_step(e, k).0;
    let l1 = e1.lines[0];
    match k {
        Key::Char(c) => {
            assert(is_ascii_text(l1));
        },
        Key::Ctrl(c) => {
            if c == 'k' {
                assert(is_ascii_text(l.take(x)));
                assert(is_ascii_text(l.skip(x)));
            } else if c == 'y' {
                if let Some(s) = e.yank {
                    assert(is_ascii_text(l1)) by {
                        assert(l1 =~= l.take(x) + s + l.skip(x));
                        assert forall|i: int| 0 <= i < l1.len() implies is_ascii_char(#[trigger] l1[i]) by {
                            if i < x {
                                assert(l1[i] == l[i]);
                            } else if i < x + s.len() {
                                assert(l1[i] == s[i - x]);
                            } else {
                                assert(l1[i] == l[i - s.len()]);
                            }
                        }
                    }
                }
            } else if c == 'h' || c == 'd' {
                assert(is_ascii_text(l1));
            }
        },
        _ => {
            assert(is_ascii_text(l1));
        },
    }
}

/// From a new editor, ASCII key presses never panic, and the editor keeps
/// one ASCII line, its place on the screen and a cursor within the line,
/// as long as the line and the cut text stay below the machine limit.
pub proof fn lemma_ascii_keys_keep_editor_valid(p: Point, ks: Seq<Key>)
    requires
        forall|i: int| 0 <= i < ks.len() ==> ascii_key(#[trigger] ks[i]),
        forall|i: int|
            0 <= i < ks.len() ==> within_limits(#[trigger] run_keys(initial_editor(p), ks.take(i))),
    ensures
        forall|i: int|
            0 <= i < ks.len() ==> key_ok(#[trigger] run_keys(initial_editor(p), ks.take(i)), ks[i]),
        ascii_editor(run_keys(initial_editor(p), ks), p),
    decreases ks.len(),
{
    let e0 = initial_editor(p);
    if ks.len() == 0 {
        assert(is_ascii_text(e0.lines[0]));
    } else {
        let n = ks.len() - 1;
        let ks1 = ks.drop_last();
        assert forall|i: int| 0 <= i <= n implies #[trigger] ks1.take(i) == ks.take(i) by {
            assert(ks1.take(i) =~= ks.take(i));
        }
        assert forall|i: int| 0 <= i < ks1.len() implies within_limits(
            #[trigger] run_keys(e0, ks1.take(i)),
        ) by {
            assert(ks1.take(i) == ks.take(i));
            assert(within_limits(run_keys(e0, ks.take(i))));
        }
        assert forall|i: int| 0 <= i < ks1.len() implies ascii_key(#[trigger] ks1[i]) by {
            assert(ks1[i] == ks[i]);
        }
        lemma_ascii_keys_keep_editor_valid(p, ks1);
        assert(ks.take(n) == ks1);
        assert(within_limits(run_keys(e0, ks.take(n))));
        assert(ascii_key(ks[n]));
        lemma_ascii_key_keeps_editor_valid(run_keys(e0, ks1), p, ks[n]);
        assert forall|i: int| 0 <= i < ks.len() implies key_ok(
            #[trigger] run_keys(e0, ks.take(i)),
            ks[i],
        ) by {
            if i < n {
                assert(ks1.take(i) == ks.take(i));
                assert(key_ok(run_keys(e0, ks1.take(i)), ks1[i]));
                assert(ks1[i] == ks[i]);
            }
        }
    }
}

fn contains_char(delims: &[char], c: char) -> (r: bool)
    ensures
        r == delims@.contains(c),
{
    let n = delims.len();
    for i in 0..n
        invariant
            n == delims@.len(),
            forall|j: int| 0 <= j < i ==> delims@[j] != c,
    {
        if delims[i] == c {
            return true;
        }
    }
    false
}

/// The length of a string in bytes.
fn str_byte_len(s: &str) -> (n: usize)
    ensures
        n == byte_len(s@),
{
    s.as_bytes().len()
}

impl Editor {
    /// Well-formedness: see `editor_wf`.
    pub open spec fn wf(&self) -> bool {
        editor_wf(self@)
    }

    /// An editor with one empty line, drawn from `init_pos` on.
    pub fn new(init_pos: Point) -> (e: Editor)
        ensures
            e@ == initial_editor(init_pos),
            e.wf(),
    {
        let mut v: Vec<String> = Vec::new();
        v.push(String::new());
        let e = Editor { buffer: v, cursor_base: init_pos, cursor_buf: Point::new(0, 0), yank: None };
        assert(e@.lines =~= seq![Seq::<char>::empty()]);
        e
    }

    /// Whether `handle_key` may be given `key` now (see `key_ok`).
    pub fn accepts_key(&self, key: &Key) -> (b: bool)
        requires
            self.wf(),
        ensures
            b == key_ok(self@, *key),
    {
        let y = self.cursor_buf.y;
        let line = self.buffer[y].as_str();
        let n = str_byte_len(line);
        let x = self.cursor_buf.x;
        let backspace = n == 0 || x == 0 || x == n || (x < n && line.is_char_boundary(x - 1));
        let delete = x == n || (x < n && line.is_char_boundary(x));
        match *key {
            Key::Char(_) => x < usize::MAX && (x == n || (x < n && line.is_char_boundary(x))),
            Key::Backspace | Key::Ctrl('h') => backspace,
            Key::Delete | Key::Ctrl('d') => delete,
            Key::Ctrl('k') => line.is_char_boundary(x),
            Key::Ctrl('y') => {
                if let Some(ref s) = self.yank {
                    assert(self@.yank == Some(s@));
                    let m = str_byte_len(s.as_str());
                    line.is_char_boundary(x) && x <= usize::MAX - m
                } else {
                    true
                }
            },
            _ => true,
        }
    }

    /// Applies one key press to the lines and the cursor, as `edit_step`
    /// says, and reports what it did.
    pub fn handle_key(&mut self, key: &Key) -> (r: EditResult)
        requires
            old(self).wf(),
            key_ok(old(self)@, *key),
        ensures
            final(self).wf(),
            (final(self)@, r) == edit_step(old(self)@, *key),
    {
        let y = self.cursor_buf.y;
        let ghost e0 = self@;
        let ghost l = self@.lines[y as int];
        let current_len = str_byte_len(self.buffer[y].as_str());
        let r = match *key {
            Key::Char(c) => {
                if self.cursor_buf.x == current_len {
                    string_push(&mut self.buffer[y], c);
                    self.cursor_buf.x = self.cursor_buf.x + 1;
                    EditResult::JustTailAdd(c)
                } else {
                    string_insert(&mut self.buffer[y], self.cursor_buf.x, c);
                    self.cursor_buf.x = self.cursor_buf.x + 1;
                    EditResult::JustAdd
                }
            },
            Key::Ctrl('h') | Key::Backspace => {
                if current_len == 0 || self.cursor_buf.x == 0 {
                    EditResult::Nothing
                } else if self.cursor_buf.x == current_len {
                    string_pop(&mut self.buffer[y]);
                    self.cursor_buf.x = self.cursor_buf.x - 1;
                    EditResult::Edited
                } else {
                    self.cursor_buf.x = self.cursor_buf.x - 1;
                    proof {
                        lemma_char_index(l, self.cursor_buf.x as int);
                        lemma_byte_pos_monotone(l, char_index(l, self.cursor_buf.x as int), l.len() as int);
                        if char_index(l, self.cursor_buf.x as int) == l.len() {
                            assert(l.take(l.len() as int) =~= l);
                        }
                    }
                    string_remove(&mut self.buffer[y], self.cursor_buf.x);
                    EditResult::Edited
                }
            },
            Key::Ctrl('f') | Key::Right => {
                if self.cursor_buf.x >= current_len {
                    EditResult::Nothing
                } else {
                    self.cursor_buf.x = self.cursor_buf.x + 1;
                    EditResult::Moved
                }
            },
            Key::Ctrl('b') | Key::Left => {
                if self.cursor_buf.x == 0 {
                    EditResult::Nothing
                } else {
                    self.cursor_buf.x = self.cursor_buf.x - 1;
                    EditResult::Moved
                }
            },
            Key::Ctrl('d') | Key::Delete => {
                if self.cursor_buf.x == current_len {
                    EditResult::Nothing
                } else {
                    string_remove(&mut self.buffer[y], self.cursor_buf.x);
                    EditResult::Edited
                }
            },
            Key::Ctrl('a') | Key::Home => {
                self.cursor_buf.x = 0;
                EditResult::Moved
            },
            Key::Ctrl('e') | Key::End => {
                self.cursor_buf.x = current_len;
                EditResult::Moved
            },
            Key::Ctrl('k') => {
                let x = self.cursor_buf.x;
                proof {
                    lemma_char_index(l, x as int);
                    lemma_encode_split(l, char_index(l, x as int));
                }
                let (_, tail) = self.buffer[y].as_str().split_at(x);
                proof {
                    lemma_same_encoding(tail@, l.skip(char_index(l, x as int)));
                }
                self.yank = Some(tail.to_owned());
                string_truncate(&mut self.buffer[y], x);
                EditResult::Edited
            },
            Key::Ctrl('y') => {
                if let Some(ref s) = self.yank {
                    assert(self@.yank == Some(s@));
                    let m = str_byte_len(s.as_str());
                    string_insert_str(&mut self.buffer[y], self.cursor_buf.x, s.as_str());
                    self.cursor_buf.x = self.cursor_buf.x + m;
                    EditResult::JustAdd
                } else {
                    EditResult::Nothing
                }
            },
            _ => EditResult::Nothing,
        };
        proof {
            assert(self@.lines =~= edit_step(e0, *key).0.lines);
        }
        r
    }

    /// Removes the word before the cursor: the characters back to the
    /// nearest one of `delims` (which stays), or to the start of the line.
    /// The cursor moves to where the word started.
    pub fn delete_untill(&mut self, delims: &[char])
        requires
            old(self).wf(),
            at_boundary(cur_line(old(self)@), old(self)@.cursor.x as int),
        ensures
            final(self).wf(),
            final(self)@ == ({
                let e = old(self)@;
                let l = cur_line(e);
                let k = char_index(l, e.cursor.x as int);
                let j = word_start(l, k, delims@);
                with_line(e, l.take(j) + l.skip(k), byte_pos(l, j))
            }),
    {
        let ghost e = self@;
        let ghost l = cur_line(e);
        let y = self.cursor_buf.y;
        let x = self.cursor_buf.x;
        let line = self.buffer[y].as_str();
        proof {
            lemma_char_index(l, x as int);
            lemma_encode_split(l, char_index(l, x as int));
        }
        let ghost k = char_index(l, x as int);
        let (prefix, rest) = line.split_at(x);
        proof {
            lemma_same_encoding(prefix@, l.take(k));
            lemma_same_encoding(rest@, l.skip(k));
        }
        let kk = prefix.unicode_len();
        let mut j = kk;
        while j > 0
            invariant
                j <= kk,
                kk == k,
                prefix@ == l.take(k),
                0 <= k <= l.len(),
                word_start(l, j as int, delims@) == word_start(l, k, delims@),
            ensures
                j == word_start(l, k, delims@),
            decreases j,
        {
            if contains_char(delims, prefix.get_char(j - 1)) {
                break;
            }
            j = j - 1;
        }
        proof {
            lemma_word_start_bounds(l, k, delims@);
        }
        let head = prefix.substring_char(0, j);
        let new_x = str_byte_len(head);
        assert(head@ =~= l.take(j as int));
        let mut new_line = head.to_owned();
        new_line.append(rest);
        self.buffer.set(y, new_line);
        self.cursor_buf.x = new_x;
        assert(self@.lines =~= e.lines.update(y as int, l.take(j as int) + l.skip(k)));
    }

    /// Whether `insert_str` may be given `s` now: the cursor is on a
    /// boundary and stays representable after the insertion.
    pub fn accepts_str(&self, s: &str) -> (b: bool)
        requires
            self.wf(),
        ensures
            b == (at_boundary(cur_line(self@), self@.cursor.x as int) && self@.cursor.x + byte_len(
                s@,
            ) <= usize::MAX),
    {
        let y = self.cursor_buf.y;
        let x = self.cursor_buf.x;
        let m = str_byte_len(s);
        self.buffer[y].as_str().is_char_boundary(x) && x <= usize::MAX - m
    }

    /// Inserts `s` at the cursor; the cursor moves past it.
    pub fn insert_str(&mut self, s: &str)
        requires
            old(self).wf(),
            at_boundary(cur_line(old(self)@), old(self)@.cursor.x as int),
            old(self)@.cursor.x + byte_len(s@) <= usize::MAX,
        ensures
            final(self).wf(),
            final(self)@ == ({
                let e = old(self)@;
                let l = cur_line(e);
                let k = char_index(l, e.cursor.x as int);
                with_line(e, l.take(k) + s@ + l.skip(k), e.cursor.x + byte_len(s@))
            }),
    {
        let ghost e = self@;
        let y = self.cursor_buf.y;
        let m = str_byte_len(s);
        string_insert_str(&mut self.buffer[y], self.cursor_buf.x, s);
        self.cursor_buf.x = self.cursor_buf.x + m;
        let ghost l = cur_line(e);
        let ghost k = char_index(l, e.cursor.x as int);
        assert(self@.lines =~= e.lines.update(y as int, l.take(k) + s@ + l.skip(k)));
    }

    /// The text of all lines for the parser: the lines joined, each
    /// without a trailing backslash.
    pub fn to_str(&self) -> (s: String)
        ensures
            s@ == joined_lines(self@.lines),
    {
        let mut acc = String::new();
        let n = self.buffer.len();
        for i in 0..n
            invariant
                n == self@.lines.len(),
                acc@ == joined_lines(self@.lines.take(i as int)),
        {
            let line = self.buffer[i].as_str();
            let len = line.unicode_len();
            proof {
                assert(self@.lines.take(i + 1).drop_last() =~= self@.lines.take(i as int));
            }
            if len > 0 && line.get_char(len - 1) == '\\' {
                acc.append(line.substring_char(0, len - 1));
            } else {
                acc.append(line);
            }
        }
        assert(self@.lines.take(n as int) =~= self@.lines);
        acc
    }
}

} // verus!
