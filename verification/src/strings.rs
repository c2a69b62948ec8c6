//! Byte offsets into strings, and contracts for the `String` and `str`
//! operations of std that the editing and parsing code relies on and that
//! vstd leaves unspecified.
//!
//! A `String` is seen as its characters; its UTF-8 bytes are
//! `encode_utf8` of them.  The byte-indexed operations of std (`insert`,
//! `remove`, `truncate`, `insert_str`) panic unless the byte offset is a
//! character boundary; at a boundary they act on the character at
//! `char_index` of that offset.

use vstd::prelude::*;
use vstd::utf8::{
    encode_scalar, encode_utf8, encode_utf8_first_scalar, encode_utf8_valid_utf8,
    is_char_boundary, length_of_first_scalar, pop_first_scalar,
};

verus! {

/// The number of bytes of the UTF-8 encoding of `s`.
pub open spec fn byte_len(s: Seq<char>) -> int {
    encode_utf8(s).len() as int
}

/// The byte offset at which the character with index `k` of `s` starts
/// (`byte_len(s)` for `k == s.len()`).
pub open spec fn byte_pos(s: Seq<char>, k: int) -> int {
    byte_len(s.take(k))
}

/// The byte offset `i` is a character boundary of `s`.
pub open spec fn at_boundary(s: Seq<char>, i: int) -> bool {
    is_char_boundary(encode_utf8(s), i)
}

/// The index of the character that starts at byte offset `i` (the
/// number of characters before `i`), for a boundary `i`.
pub open spec fn char_index(s: Seq<char>, i: int) -> int {
    choose|k: int| 0 <= k <= s.len() && byte_pos(s, k) == i
}

/// The encoding of a concatenation is the concatenation of encodings.
pub proof fn lemma_encode_concat(a: Seq<char>, b: Seq<char>)
    ensures
        encode_utf8(a + b) == encode_utf8(a) + encode_utf8(b),
    decreases a.len(),
{
    if a.len() == 0 {
        assert(a + b =~= b);
        assert(encode_utf8(a) =~= Seq::<u8>::empty());
        assert(encode_utf8(a) + encode_utf8(b) =~= encode_utf8(b));
    } else {
        assert((a + b).drop_first() =~= a.drop_first() + b);
        assert((a + b)[0] == a[0]);
        lemma_encode_concat(a.drop_first(), b);
        assert(encode_utf8(a + b) =~= encode_utf8(a) + encode_utf8(b));
    }
}

/// Every character takes at least one byte.
pub proof fn lemma_encode_scalar_nonempty(c: char)
    ensures
        encode_utf8(seq![c]).len() >= 1,
        encode_utf8(seq![c]) == encode_scalar(c as u32),
{
    assert(seq![c].drop_first() =~= Seq::<char>::empty());
    assert(encode_utf8(seq![c]) =~= encode_scalar(c as u32) + encode_utf8(Seq::<char>::empty()));
    encode_utf8_first_scalar(seq![c]);
}

/// Byte offsets grow with the character index.
pub proof fn lemma_byte_pos_step(s: Seq<char>, k: int)
    requires
        0 <= k < s.len(),
    ensures
        byte_pos(s, k + 1) == byte_pos(s, k) + byte_len(seq![s[k]]),
        byte_pos(s, k) < byte_pos(s, k + 1),
{
    assert(s.take(k + 1) =~= s.take(k) + seq![s[k]]);
    lemma_encode_concat(s.take(k), seq![s[k]]);
    lemma_encode_scalar_nonempty(s[k]);
}

/// Byte offsets are strictly increasing in the character index.
pub proof fn lemma_byte_pos_monotone(s: Seq<char>, j: int, k: int)
    requires
        0 <= j <= k <= s.len(),
    ensures
        byte_pos(s, j) <= byte_pos(s, k),
        j < k ==> byte_pos(s, j) < byte_pos(s, k),
    decreases k - j,
{
    if j < k {
        lemma_byte_pos_step(s, k - 1);
        lemma_byte_pos_monotone(s, j, k - 1);
    }
}

/// The bytes of `s` split at the start of character `k` are the bytes
/// of the characters before and from `k`.
pub proof fn lemma_encode_split(s: Seq<char>, k: int)
    requires
        0 <= k <= s.len(),
    ensures
        encode_utf8(s).take(byte_pos(s, k)) == encode_utf8(s.take(k)),
        encode_utf8(s).skip(byte_pos(s, k)) == encode_utf8(s.skip(k)),
        byte_len(s) == byte_pos(s, k) + byte_len(s.skip(k)),
{
    assert(s =~= s.take(k) + s.skip(k));
    lemma_encode_concat(s.take(k), s.skip(k));
    assert(encode_utf8(s).take(byte_pos(s, k)) =~= encode_utf8(s.take(k)));
    assert(encode_utf8(s).skip(byte_pos(s, k)) =~= encode_utf8(s.skip(k)));
}

proof fn lemma_pop_first_encode(s: Seq<char>)
    requires
        s.len() > 0,
    ensures
        pop_first_scalar(encode_utf8(s)) == encode_utf8(s.drop_first()),
        length_of_first_scalar(encode_utf8(s)) == byte_len(seq![s[0]]),
{
    encode_utf8_first_scalar(s);
    lemma_encode_scalar_nonempty(s[0]);
    assert(pop_first_scalar(encode_utf8(s)) =~= encode_utf8(s.drop_first()));
}

/// The start of every character, and the end, are boundaries.
pub proof fn lemma_boundary_at_char(s: Seq<char>, k: int)
    requires
        0 <= k <= s.len(),
    ensures
        at_boundary(s, byte_pos(s, k)),
    decreases s.len(),
{
    encode_utf8_valid_utf8(s);
    if k == 0 {
        assert(encode_utf8(s.take(0)) =~= Seq::<u8>::empty()) by {
            assert(s.take(0) =~= Seq::<char>::empty());
        }
    } else {
        let t = s.drop_first();
        lemma_pop_first_encode(s);
        lemma_boundary_at_char(t, k - 1);
        assert(s.take(k) =~= seq![s[0]] + t.take(k - 1));
        lemma_encode_concat(seq![s[0]], t.take(k - 1));
        lemma_encode_scalar_nonempty(s[0]);
        lemma_byte_pos_monotone(s, 0, k);
        lemma_encode_split(s, k);
    }
}

/// Every boundary is the start of a character, or the end.
pub proof fn lemma_boundary_is_char_start(s: Seq<char>, i: int)
    requires
        at_boundary(s, i),
    ensures
        exists|k: int| 0 <= k <= s.len() && byte_pos(s, k) == i,
    decreases s.len(),
{
    encode_utf8_valid_utf8(s);
    if i == 0 {
        assert(s.take(0) =~= Seq::<char>::empty());
        assert(byte_pos(s, 0) == 0);
    } else {
        assert(s.len() > 0) by {
            if s.len() == 0 {
                assert(encode_utf8(s) =~= Seq::<u8>::empty());
            }
        }
        let t = s.drop_first();
        lemma_pop_first_encode(s);
        let w = byte_len(seq![s[0]]);
        lemma_boundary_is_char_start(t, i - w);
        let k = choose|k: int| 0 <= k <= t.len() && byte_pos(t, k) == i - w;
        assert(s.take(k + 1) =~= seq![s[0]] + t.take(k));
        lemma_encode_concat(seq![s[0]], t.take(k));
        assert(byte_pos(s, k + 1) == i);
    }
}

/// At a boundary, `char_index` is the unique index of the character that
/// starts there.
pub proof fn lemma_char_index(s: Seq<char>, i: int)
    requires
        at_boundary(s, i),
    ensures
        0 <= char_index(s, i) <= s.len(),
        byte_pos(s, char_index(s, i)) == i,
        forall|k: int| 0 <= k <= s.len() && byte_pos(s, k) == i ==> k == char_index(s, i),
{
    lemma_boundary_is_char_start(s, i);
    let c = char_index(s, i);
    assert forall|k: int| 0 <= k <= s.len() && byte_pos(s, k) == i implies k == c by {
        if k < c {
            lemma_byte_pos_monotone(s, k, c);
        } else if c < k {
            lemma_byte_pos_monotone(s, c, k);
        }
    }
}

/// The character index of the start of character `k` is `k`.
pub proof fn lemma_char_index_of_pos(s: Seq<char>, k: int)
    requires
        0 <= k <= s.len(),
    ensures
        at_boundary(s, byte_pos(s, k)),
        char_index(s, byte_pos(s, k)) == k,
{
    lemma_boundary_at_char(s, k);
    lemma_char_index(s, byte_pos(s, k));
}

/// Whether `c` is an ASCII character.
pub open spec fn is_ascii_char(c: char) -> bool {
    (c as u32) < 128
}

/// Whether every character of `s` is ASCII.
pub open spec fn is_ascii_text(s: Seq<char>) -> bool {
    forall|i: int| 0 <= i < s.len() ==> is_ascii_char(#[trigger] s[i])
}

/// An ASCII character takes one byte.
pub proof fn lemma_ascii_char_one_byte(c: char)
    requires
        is_ascii_char(c),
    ensures
        byte_len(seq![c]) == 1,
{
    lemma_encode_scalar_nonempty(c);
}

/// In ASCII text byte offsets and character indices agree: every offset
/// up to the end is a boundary, and the character there has that index.
pub proof fn lemma_ascii_offsets(s: Seq<char>)
    requires
        is_ascii_text(s),
    ensures
        byte_len(s) == s.len(),
        forall|k: int| 0 <= k <= s.len() ==> #[trigger] byte_pos(s, k) == k,
        forall|k: int| 0 <= k <= s.len() ==> #[trigger] at_boundary(s, k),
        forall|k: int| 0 <= k <= s.len() ==> #[trigger] char_index(s, k) == k,
{
    assert forall|k: int| 0 <= k <= s.len() implies #[trigger] byte_pos(s, k) == k by {
        lemma_ascii_byte_pos(s, k);
    }
    assert(s.take(s.len() as int) =~= s);
    assert(byte_pos(s, s.len() as int) == s.len());
    assert forall|k: int| 0 <= k <= s.len() implies #[trigger] at_boundary(s, k) by {
        lemma_char_index_of_pos(s, k);
    }
    assert forall|k: int| 0 <= k <= s.len() implies #[trigger] char_index(s, k) == k by {
        lemma_char_index_of_pos(s, k);
    }
}

proof fn lemma_ascii_byte_pos(s: Seq<char>, k: int)
    requires
        is_ascii_text(s),
        0 <= k <= s.len(),
    ensures
        byte_pos(s, k) == k,
    decreases k,
{
    if k == 0 {
        assert(s.take(0) =~= Seq::<char>::empty());
        assert(encode_utf8(Seq::<char>::empty()) =~= Seq::<u8>::empty());
    } else {
        lemma_ascii_byte_pos(s, k - 1);
        lemma_byte_pos_step(s, k - 1);
        lemma_ascii_char_one_byte(s[k - 1]);
    }
}

/// `String::push`: appends the character at the end.
#[verifier::external_body]
pub(crate) fn string_push(s: &mut String, c: char)
    ensures
        final(s)@ == old(s)@.push(c),
{
    s.push(c)
}

/// `String::pop`: removes and returns the last character, `None` when empty.
#[verifier::external_body]
pub(crate) fn string_pop(s: &mut String) -> (r: Option<char>)
    ensures
        old(s)@.len() == 0 ==> r is None && final(s)@ == old(s)@,
        old(s)@.len() > 0 ==> r == Some(old(s)@.last()) && final(s)@ == old(s)@.drop_last(),
{
    s.pop()
}

/// `String::clear`: empties the string.
#[verifier::external_body]
pub(crate) fn string_clear(s: &mut String)
    ensures
        final(s)@ == Seq::<char>::empty(),
{
    s.clear()
}

/// `String::insert`: the character goes in at the byte offset `idx`,
/// which must be a character boundary.
#[verifier::external_body]
pub(crate) fn string_insert(s: &mut String, idx: usize, c: char)
    requires
        at_boundary(old(s)@, idx as int),
    ensures
        final(s)@ == old(s)@.insert(char_index(old(s)@, idx as int), c),
{
    s.insert(idx, c)
}

/// `String::remove`: takes out the character that starts at the byte
/// offset `idx`, which must be a character boundary before the end.
#[verifier::external_body]
pub(crate) fn string_remove(s: &mut String, idx: usize) -> (r: char)
    requires
        at_boundary(old(s)@, idx as int),
        idx < byte_len(old(s)@),
    ensures
        r == old(s)@[char_index(old(s)@, idx as int)],
        final(s)@ == old(s)@.remove(char_index(old(s)@, idx as int)),
{
    s.remove(idx)
}

/// `String::truncate`: keeps the bytes before `len`, which must be a
/// character boundary unless it is past the end (then nothing changes).
#[verifier::external_body]
pub(crate) fn string_truncate(s: &mut String, len: usize)
    requires
        len > byte_len(old(s)@) || at_boundary(old(s)@, len as int),
    ensures
        len <= byte_len(old(s)@) ==> final(s)@ == old(s)@.take(char_index(old(s)@, len as int)),
        len > byte_len(old(s)@) ==> final(s)@ == old(s)@,
{
    s.truncate(len)
}

/// `String::insert_str`: `t` goes in at the byte offset `idx`, which must
/// be a character boundary.
#[verifier::external_body]
pub(crate) fn string_insert_str(s: &mut String, idx: usize, t: &str)
    requires
        at_boundary(old(s)@, idx as int),
    ensures
        final(s)@ == old(s)@.take(char_index(old(s)@, idx as int)) + t@ + old(s)@.skip(
            char_index(old(s)@, idx as int),
        ),
{
    s.insert_str(idx, t)
}

/// `==` on `str`: true exactly when both hold the same characters.
#[verifier::external_body]
pub(crate) fn str_eq(a: &str, b: &str) -> (r: bool)
    ensures
        r == (a@ == b@),
{
    a == b
}

} // verus!
