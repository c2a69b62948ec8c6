//! The look of the prompt: a face, the last directories of the working
//! directory, and a trailing `$ `.

use vstd::prelude::*;
use vstd::utf8::{
    encode_utf8, encode_utf8_valid_utf8, is_char_boundary_iff_is_leading_byte,
    is_char_boundary_start_end_of_seq,
};

verus! {

pub struct PromptSetting<'a> {
    face1: &'a str,
    face2: &'a str,
    dir_depth: usize,
}

/// Where the shown part of a path starts: scanning back from `cur`, the
/// position of the `need`-th `/`, or 0 when there are fewer.
pub open spec fn dir_start(bytes: Seq<u8>, cur: int, need: nat) -> int
    decreases cur, need,
{
    if need == 0 || cur <= 0 {
        if cur <= 0 {
            0
        } else {
            cur
        }
    } else if bytes[cur - 1] == 0x2f {
        dir_start(bytes, cur - 1, (need - 1) as nat)
    } else {
        dir_start(bytes, cur - 1, need)
    }
}

proof fn lemma_dir_start_at_slash(bytes: Seq<u8>, cur: int, need: nat)
    requires
        need > 0,
        0 <= cur <= bytes.len(),
    ensures
        0 <= dir_start(bytes, cur, need) <= cur,
        dir_start(bytes, cur, need) == 0 || bytes[dir_start(bytes, cur, need)] == 0x2f,
    decreases cur, need,
{
    if cur > 0 {
        if bytes[cur - 1] == 0x2f {
            if need > 1 {
                lemma_dir_start_at_slash(bytes, cur - 1, (need - 1) as nat);
            } else {
                assert(dir_start(bytes, cur - 1, 0) == cur - 1);
            }
        } else {
            lemma_dir_start_at_slash(bytes, cur - 1, need);
        }
    }
}

/// The number of `/` bytes in `bytes[lo..hi]`.
pub open spec fn slash_count(bytes: Seq<u8>, lo: int, hi: int) -> nat
    decreases hi - lo,
{
    if hi <= lo {
        0
    } else {
        slash_count(bytes, lo, hi - 1) + if bytes[hi - 1] == 0x2f {
            1nat
        } else {
            0nat
        }
    }
}

proof fn lemma_dir_start_counts(bytes: Seq<u8>, cur: int, need: nat)
    requires
        need > 0,
        0 <= cur <= bytes.len(),
    ensures
        ({
            let j = dir_start(bytes, cur, need);
            &&& 0 <= j <= cur
            &&& j > 0 ==> bytes[j] == 0x2f && slash_count(bytes, j, cur) == need
            &&& j == 0 ==> slash_count(bytes, 0, cur) <= need
        }),
    decreases cur, need,
{
    if cur > 0 {
        let j = dir_start(bytes, cur, need);
        if bytes[cur - 1] == 0x2f {
            if need > 1 {
                lemma_dir_start_counts(bytes, cur - 1, (need - 1) as nat);
            } else {
                assert(dir_start(bytes, cur - 1, 0) == if cur - 1 <= 0 { 0 } else { cur - 1 });
                assert(slash_count(bytes, cur - 1, cur - 1) == 0);
                if cur - 1 == 0 {
                    assert(slash_count(bytes, 0, 0) == 0);
                }
            }
        } else {
            lemma_dir_start_counts(bytes, cur - 1, need);
        }
    }
}

/// The shown part of a path is a tail of its bytes that starts at a `/`
/// (or is the whole path) and holds exactly `depth` `/` before its last
/// byte; the whole path is shown only when it has no more than `depth`
/// of them there.
pub proof fn lemma_shown_dir_holds_depth_dirs(path: Seq<char>, depth: nat)
    requires
        path.len() > 0,
        depth >= 1,
    ensures
        ({
            let b = encode_utf8(path);
            let n = b.len() as int;
            let j = n - shown_dir(path, depth).len();
            &&& 0 <= j < n
            &&& shown_dir(path, depth) == b.skip(j)
            &&& j > 0 ==> b[j] == 0x2f && slash_count(b, j, n - 1) == depth
            &&& j == 0 ==> slash_count(b, 0, n - 1) <= depth
        }),
{
    let b = encode_utf8(path);
    assert(b.len() > 0) by {
        reveal_with_fuel(encode_utf8, 2);
    }
    lemma_dir_start_counts(b, b.len() - 1, depth);
    let j = dir_start(b, b.len() - 1, depth);
    assert(b.subrange(j, b.len() as int) =~= b.skip(j));
}

/// The bytes of the shown part of the path `path`: from the `/` that
/// starts its last `depth` components to the end.
pub open spec fn shown_dir(path: Seq<char>, depth: nat) -> Seq<u8> {
    let bytes = encode_utf8(path);
    bytes.subrange(dir_start(bytes, bytes.len() - 1, depth), bytes.len() as int)
}

/// The shown part of the working directory `path`: what follows the `/`
/// that starts its last `depth` components (the whole path when it has
/// fewer).  A `/` at the very end does not count.
pub fn prompt_dir(path: &String, depth: usize) -> (p: String)
    requires
        path@.len() > 0,
        depth >= 1,
    ensures
        encode_utf8(p@) == shown_dir(path@, depth as nat),
{
    let ghost bytes = encode_utf8(path@);
    let s = path.as_str().as_bytes();
    assert(s@ == bytes);
    proof {
        assert(bytes.len() > 0) by {
            reveal_with_fuel(encode_utf8, 2);
        }
    }
    let len = s.len();
    let mut cur = len - 1;
    let mut cnt: usize = 0;
    while cnt < depth
        invariant
            s@ == bytes,
            len == bytes.len(),
            cur < len,
            cnt <= depth,
            depth >= 1,
            dir_start(bytes, cur as int, (depth - cnt) as nat) == dir_start(
                bytes,
                len - 1,
                depth as nat,
            ),
        ensures
            dir_start(bytes, len - 1, depth as nat) == cur,
        decreases cur, depth - cnt,
    {
        if cur == 0 {
            break;
        }
        cur = cur - 1;
        if s[cur] == 0x2f {
            cnt = cnt + 1;
        }
    }
    proof {
        lemma_dir_start_at_slash(bytes, len - 1, depth as nat);
        encode_utf8_valid_utf8(path@);
        if cur > 0 {
            is_char_boundary_iff_is_leading_byte(bytes, cur as int);
        }
        is_char_boundary_start_end_of_seq(bytes);
    }
    let (_, tail) = path.as_str().split_at(cur);
    tail.to_owned()
}

impl<'a> PromptSetting<'a> {
    #[verifier::type_invariant]
    spec fn depth_positive(self) -> bool {
        self.dir_depth >= 1
    }

    /// The text before the directory.
    pub closed spec fn face1_spec(&self) -> Seq<char> {
        self.face1@
    }

    /// The text after the directory.
    pub closed spec fn face2_spec(&self) -> Seq<char> {
        self.face2@
    }

    /// How many directories of the working directory are shown.
    pub closed spec fn depth_spec(&self) -> nat {
        self.dir_depth as nat
    }

    /// The default prompt: `Fugu(°)#))<< ~`, the last two directories,
    /// then `$ `.
    pub fn default() -> (p: PromptSetting<'a>)
        ensures
            p.face1_spec() == "Fugu(°)#))<< ~"@,
            p.face2_spec() == "$ "@,
            p.depth_spec() == 2,
    {
        PromptSetting { face1: "Fugu(°)#))<< ~", face2: "$ ", dir_depth: 2 }
    }

    /// The text before the directory.
    pub fn face1(&self) -> (s: &'a str)
        ensures
            s@ == self.face1_spec(),
    {
        self.face1
    }

    /// The text after the directory.
    pub fn face2(&self) -> (s: &'a str)
        ensures
            s@ == self.face2_spec(),
    {
        self.face2
    }

    /// The shown part of the working directory `path` (see `prompt_dir`).
    pub fn dir_suffix(&self, path: &String) -> (p: String)
        requires
            path@.len() > 0,
        ensures
            encode_utf8(p@) == shown_dir(path@, self.depth_spec()),
    {
        proof {
            use_type_invariant(self);
        }
        prompt_dir(path, self.dir_depth)
    }

    /// The width of the prompt in bytes: both faces and the shown
    /// directory `dir`.
    pub fn face_width(&self, dir: &str) -> (n: usize)
        requires
            encode_utf8(self.face1_spec()).len() + encode_utf8(self.face2_spec()).len()
                + encode_utf8(dir@).len() <= usize::MAX,
        ensures
            n == encode_utf8(self.face1_spec()).len() + encode_utf8(self.face2_spec()).len()
                + encode_utf8(dir@).len(),
    {
        self.face1.len() + self.face2.len() + dir.len()
    }
}

} // verus!
