//! The commands offered for completion and the incremental search over
//! them.

use vstd::prelude::*;
use crate::builtin::{builtin_commands, builtin_names};
use crate::exec::strings_view;
use crate::pattern::{regex_compiles, regex_is_match, SearchPattern};

verus! {

/// Where a completion candidate comes from.
#[derive(Clone, Copy, Debug, PartialEq, Eq, Structural)]
pub enum CommandType {
    Path,
    Builtin,
    User,
}

/// The candidates of one list: the index of each entry whose flag is
/// set, in order, tagged with `t`.
pub open spec fn hits(flags: Seq<bool>, t: CommandType) -> Seq<(usize, CommandType)>
    decreases flags.len(),
{
    if flags.len() == 0 {
        Seq::empty()
    } else {
        let rest = hits(flags.drop_last(), t);
        if flags.last() {
            rest.push(((flags.len() - 1) as usize, t))
        } else {
            rest
        }
    }
}

/// The flags after a search: an entry stays a candidate when it was one
/// and its name matched.
pub open spec fn narrowed(flags: Seq<bool>, matched: Seq<bool>) -> Seq<bool> {
    Seq::new(flags.len(), |i: int| flags[i] && matched[i])
}

/// Whether each name matches the pattern.
pub open spec fn matches_of(pattern: Seq<char>, names: Seq<Seq<char>>) -> Seq<bool> {
    Seq::new(names.len(), |i: int| regex_is_match(pattern, names[i]))
}

/// The state of the completion search: the program names and built-in
/// names, and which of them are still candidates.
pub struct FuguEnvSpec {
    pub path_cmds: Seq<Seq<char>>,
    pub builtin_cmds: Seq<Seq<char>>,
    pub path_cache: Seq<bool>,
    pub builtin_cache: Seq<bool>,
}

/// The candidate `id` names an existing program or built-in of `env`.
pub open spec fn candidate_in(env: FuguEnvSpec, id: (usize, CommandType)) -> bool {
    &&& id.1 != CommandType::User
    &&& id.1 == CommandType::Path ==> id.0 < env.path_cmds.len()
    &&& id.1 == CommandType::Builtin ==> id.0 < env.builtin_cmds.len()
}

/// The name of the candidate `id` in `env`.
pub open spec fn name_in(env: FuguEnvSpec, id: (usize, CommandType)) -> Seq<char> {
    if id.1 == CommandType::Path {
        env.path_cmds[id.0 as int]
    } else {
        env.builtin_cmds[id.0 as int]
    }
}

/// A program candidate names the program at its index, a built-in
/// candidate the built-in at its index.
pub proof fn lemma_candidate_names(env: FuguEnvSpec, i: usize)
    ensures
        i < env.path_cmds.len() ==> candidate_in(env, (i, CommandType::Path)) && name_in(
            env,
            (i, CommandType::Path),
        ) == env.path_cmds[i as int],
        i < env.builtin_cmds.len() ==> candidate_in(env, (i, CommandType::Builtin)) && name_in(
            env,
            (i, CommandType::Builtin),
        ) == env.builtin_cmds[i as int],
        !candidate_in(env, (i, CommandType::User)),
{
}

pub struct FuguEnv<'a> {
    pub path_cmds: Vec<String>,
    pub builtin_cmds: Vec<&'a str>,
    fugu_vars: Vec<String>,
    env_vars: Vec<String>,
    path_cache: Vec<bool>,
    builtin_cache: Vec<bool>,
}

impl<'a> View for FuguEnv<'a> {
    type V = FuguEnvSpec;

    closed spec fn view(&self) -> FuguEnvSpec {
        FuguEnvSpec {
            path_cmds: strings_view(self.path_cmds@),
            builtin_cmds: self.builtin_cmds@.map_values(|s: &str| s@),
            path_cache: self.path_cache@,
            builtin_cache: self.builtin_cache@,
        }
    }
}

/// Each list of names has one candidate flag per name (and, as any
/// vector, fewer than `usize::MAX` entries).
pub open spec fn env_wf(e: FuguEnvSpec) -> bool {
    &&& e.path_cache.len() == e.path_cmds.len()
    &&& e.builtin_cache.len() == e.builtin_cmds.len()
    &&& e.path_cache.len() <= usize::MAX
    &&& e.builtin_cache.len() <= usize::MAX
}

/// `n` flags, all set.
pub open spec fn all_true(n: nat) -> Seq<bool> {
    Seq::new(n, |i: int| true)
}

fn all_set(n: usize) -> (v: Vec<bool>)
    ensures
        v@ == all_true(n as nat),
{
    let mut v: Vec<bool> = Vec::new();
    for i in 0..n
        invariant
            v@ == all_true(i as nat),
    {
        v.push(true);
        assert(v@ =~= all_true((i + 1) as nat));
    }
    v
}

fn set_all(v: &mut Vec<bool>)
    ensures
        final(v)@ == all_true(old(v)@.len()),
{
    let n = v.len();
    for i in 0..n
        invariant
            n == v@.len(),
            forall|j: int| 0 <= j < i ==> v@[j],
    {
        v.set(i, true);
    }
    assert(v@ =~= all_true(n as nat));
}

fn narrow(flags: &mut Vec<bool>, matched: &Vec<bool>)
    requires
        old(flags)@.len() == matched@.len(),
    ensures
        final(flags)@ == narrowed(old(flags)@, matched@),
{
    let ghost orig = flags@;
    let n = flags.len();
    let mut i: usize = 0;
    while i < n
        invariant
            n == flags@.len(),
            n == matched@.len(),
            n == orig.len(),
            i <= n,
            forall|j: int| 0 <= j < i ==> #[trigger] flags@[j] == (orig[j] && matched@[j]),
            forall|j: int| i <= j < n ==> flags@[j] == orig[j],
        decreases n - i,
    {
        assert(flags@[i as int] == orig[i as int]);
        if flags[i] && !matched[i] {
            flags.set(i, false);
        }
        assert(flags@[i as int] == (orig[i as int] && matched@[i as int]));
        i = i + 1;
    }
    assert(flags@ =~= narrowed(orig, matched@));
}

fn match_all(p: &SearchPattern, names: &Vec<String>) -> (m: Vec<bool>)
    ensures
        m@ == matches_of(p.source(), strings_view(names@)),
{
    let mut m: Vec<bool> = Vec::new();
    let n = names.len();
    for i in 0..n
        invariant
            n == names@.len(),
            m@.len() == i,
            forall|j: int| 0 <= j < i ==> m@[j] == regex_is_match(p.source(), names@[j]@),
    {
        m.push(p.is_match(names[i].as_str()));
    }
    assert(m@ =~= matches_of(p.source(), strings_view(names@)));
    m
}

fn match_all_str(p: &SearchPattern, names: &Vec<&str>) -> (m: Vec<bool>)
    ensures
        m@ == matches_of(p.source(), names@.map_values(|s: &str| s@)),
{
    let mut m: Vec<bool> = Vec::new();
    let n = names.len();
    for i in 0..n
        invariant
            n == names@.len(),
            m@.len() == i,
            forall|j: int| 0 <= j < i ==> m@[j] == regex_is_match(p.source(), names@[j]@),
    {
        m.push(p.is_match(names[i]));
    }
    assert(m@ =~= matches_of(p.source(), names@.map_values(|s: &str| s@)));
    m
}

fn push_hits(res: &mut Vec<(usize, CommandType)>, flags: &Vec<bool>, t: CommandType)
    ensures
        final(res)@ == old(res)@ + hits(flags@, t),
{
    let n = flags.len();
    for i in 0..n
        invariant
            n == flags@.len(),
            res@ == old(res)@ + hits(flags@.take(i as int), t),
    {
        proof {
            assert(flags@.take(i + 1).drop_last() =~= flags@.take(i as int));
        }
        if flags[i] {
            res.push((i, t));
        }
        assert(res@ =~= old(res)@ + hits(flags@.take(i + 1), t));
    }
    assert(flags@.take(n as int) =~= flags@);
}

/// A search only drops candidates: a name that is a candidate after it
/// was one before.
pub proof fn lemma_narrowing_only_drops(flags: Seq<bool>, matched: Seq<bool>, i: int)
    requires
        matched.len() == flags.len(),
        0 <= i < flags.len(),
        narrowed(flags, matched)[i],
    ensures
        flags[i],
{
}

/// Two searches in a row keep the names that both searches keep.
pub proof fn lemma_narrowing_composes(flags: Seq<bool>, m1: Seq<bool>, m2: Seq<bool>)
    requires
        m1.len() == flags.len(),
        m2.len() == flags.len(),
    ensures
        narrowed(narrowed(flags, m1), m2) == narrowed(
            flags,
            Seq::new(flags.len(), |i: int| m1[i] && m2[i]),
        ),
{
    assert(narrowed(narrowed(flags, m1), m2) =~= narrowed(
        flags,
        Seq::new(flags.len(), |i: int| m1[i] && m2[i]),
    ));
}

/// A search keeps a name exactly when it was a candidate and matches the
/// pattern.
pub proof fn lemma_search_keeps_matching(flags: Seq<bool>, pattern: Seq<char>, names: Seq<Seq<char>>)
    requires
        flags.len() == names.len(),
    ensures
        narrowed(flags, matches_of(pattern, names)).len() == flags.len(),
        forall|i: int|
            0 <= i < flags.len() ==> (#[trigger] narrowed(flags, matches_of(pattern, names))[i] <==> (
            flags[i] && regex_is_match(pattern, names[i]))),
{
}

/// After a reset every name is a candidate.
pub proof fn lemma_reset_offers_all(n: nat)
    ensures
        all_true(n).len() == n,
        forall|i: int| 0 <= i < n ==> #[trigger] all_true(n)[i],
{
}

/// The candidates of one list come in the order of the list (of any list
/// that a vector can hold).
pub proof fn lemma_hits_in_order(flags: Seq<bool>, t: CommandType)
    requires
        flags.len() <= usize::MAX,
    ensures
        forall|a: int, b: int|
            0 <= a < b < hits(flags, t).len() ==> #[trigger] hits(flags, t)[a].0 < #[trigger] hits(
                flags,
                t,
            )[b].0,
        forall|a: int| 0 <= a < hits(flags, t).len() ==> #[trigger] hits(flags, t)[a].0 < flags.len(),
    decreases flags.len(),
{
    if flags.len() > 0 {
        let rest = flags.drop_last();
        lemma_hits_in_order(rest, t);
        let h = hits(flags, t);
        let hr = hits(rest, t);
        assert forall|a: int| 0 <= a < h.len() implies #[trigger] h[a].0 < flags.len() by {
            if a < hr.len() {
                assert(h[a] == hr[a]);
            }
        }
        assert forall|a: int, b: int| 0 <= a < b < h.len() implies #[trigger] h[a].0 < #[trigger] h[b].0 by {
            assert(h[a] == hr[a]);
            if b < hr.len() {
                assert(h[b] == hr[b]);
            } else {
                assert(h[b].0 == flags.len() - 1);
            }
        }
    }
}

/// The candidate list of a list of flags holds `(i, t)` exactly for the
/// indices `i` whose flag is set, and only such pairs.
pub proof fn lemma_hits_exact(flags: Seq<bool>, t: CommandType)
    requires
        flags.len() <= usize::MAX,
    ensures
        forall|i: int| 0 <= i < flags.len() ==> (flags[i] <==> hits(flags, t).contains((i as usize, t))),
        forall|k: int| 0 <= k < hits(flags, t).len() ==> {
            let h = #[trigger] hits(flags, t)[k];
            &&& h.1 == t
            &&& h.0 < flags.len()
            &&& flags[h.0 as int]
        },
    decreases flags.len(),
{
    if flags.len() > 0 {
        let rest = flags.drop_last();
        lemma_hits_exact(rest, t);
        let n = flags.len() - 1;
        assert forall|i: int| 0 <= i < flags.len() implies (flags[i] <==> hits(flags, t).contains(
            (i as usize, t),
        )) by {
            if i < n {
                assert(rest[i] == flags[i]);
                if hits(flags, t).contains((i as usize, t)) {
                    let k = choose|k: int|
                        0 <= k < hits(flags, t).len() && hits(flags, t)[k] == (i as usize, t);
                    if k < hits(rest, t).len() {
                        assert(hits(rest, t)[k] == (i as usize, t));
                    } else {
                        assert(hits(flags, t)[k] == (n as usize, t));
                        assert(false);
                    }
                }
                if flags[i] {
                    let k = choose|k: int|
                        0 <= k < hits(rest, t).len() && hits(rest, t)[k] == (i as usize, t);
                    assert(hits(flags, t)[k] == (i as usize, t));
                }
            } else {
                if flags[i] {
                    assert(hits(flags, t)[hits(flags, t).len() - 1] == (i as usize, t));
                } else {
                    if hits(flags, t).contains((i as usize, t)) {
                        let k = choose|k: int|
                            0 <= k < hits(flags, t).len() && hits(flags, t)[k] == (i as usize, t);
                        assert(hits(rest, t)[k] == (i as usize, t));
                    }
                }
            }
        }
        assert forall|k: int| 0 <= k < hits(flags, t).len() implies {
            let h = #[trigger] hits(flags, t)[k];
            &&& h.1 == t
            &&& h.0 < flags.len()
            &&& flags[h.0 as int]
        } by {
            if k < hits(rest, t).len() {
                assert(hits(flags, t)[k] == hits(rest, t)[k]);
                assert(rest[hits(rest, t)[k].0 as int] == flags[hits(rest, t)[k].0 as int]);
            }
        }
    }
}

impl<'a> FuguEnv<'a> {
    /// Well-formedness: see `env_wf`.
    pub open spec fn wf(&self) -> bool {
        env_wf(self@)
    }

    /// The search over the programs `path_cmds` and the built-in commands,
    /// with every name a candidate.
    pub fn with_path_cmds(path_cmds: Vec<String>) -> (e: FuguEnv<'a>)
        ensures
            e@ == (FuguEnvSpec {
                path_cmds: strings_view(path_cmds@),
                builtin_cmds: builtin_names(),
                path_cache: all_true(path_cmds@.len()),
                builtin_cache: all_true(builtin_names().len()),
            }),
            e.wf(),
    {
        let builtin_cmds: Vec<&'a str> = builtin_commands();
        let path_cache = all_set(path_cmds.len());
        let builtin_cache = all_set(builtin_cmds.len());
        FuguEnv {
            path_cache: path_cache,
            builtin_cache: builtin_cache,
            path_cmds: path_cmds,
            builtin_cmds: builtin_cmds,
            fugu_vars: Vec::new(),
            env_vars: Vec::new(),
        }
    }

    /// Makes every name a candidate again.
    pub fn reset_search(&mut self)
        ensures
            final(self)@ == (FuguEnvSpec {
                path_cache: all_true(old(self)@.path_cache.len()),
                builtin_cache: all_true(old(self)@.builtin_cache.len()),
                ..old(self)@
            }),
    {
        set_all(&mut self.path_cache);
        set_all(&mut self.builtin_cache);
    }

    /// Keeps as candidates the names that were candidates and whose flag
    /// in `path_hits` (for programs) or `builtin_hits` (for built-ins) is
    /// set.
    pub fn narrow_search(&mut self, path_hits: &Vec<bool>, builtin_hits: &Vec<bool>)
        requires
            old(self).wf(),
            path_hits@.len() == old(self)@.path_cmds.len(),
            builtin_hits@.len() == old(self)@.builtin_cmds.len(),
        ensures
            final(self)@ == (FuguEnvSpec {
                path_cache: narrowed(old(self)@.path_cache, path_hits@),
                builtin_cache: narrowed(old(self)@.builtin_cache, builtin_hits@),
                ..old(self)@
            }),
    {
        narrow(&mut self.path_cache, path_hits);
        narrow(&mut self.builtin_cache, builtin_hits);
    }

    /// Keeps as candidates the names that match the regular expression
    /// `search_str`; a pattern that does not compile changes nothing.
    pub fn search_cmd(&mut self, search_str: &str)
        requires
            old(self).wf(),
        ensures
            regex_compiles(search_str@) ==> final(self)@ == (FuguEnvSpec {
                path_cache: narrowed(
                    old(self)@.path_cache,
                    matches_of(search_str@, old(self)@.path_cmds),
                ),
                builtin_cache: narrowed(
                    old(self)@.builtin_cache,
                    matches_of(search_str@, old(self)@.builtin_cmds),
                ),
                ..old(self)@
            }),
            !regex_compiles(search_str@) ==> final(self)@ == old(self)@,
    {
        let re = match SearchPattern::compile(search_str) {
            Ok(r) => r,
            Err(_) => {
                return;
            },
        };
        let path_hits = match_all(&re, &self.path_cmds);
        let builtin_hits = match_all_str(&re, &self.builtin_cmds);
        self.narrow_search(&path_hits, &builtin_hits);
    }

    /// The candidates: the programs still matching, by index, then the
    /// built-ins still matching.
    pub fn search_to_vec(&self) -> (v: Vec<(usize, CommandType)>)
        ensures
            v@ == hits(self@.path_cache, CommandType::Path) + hits(
                self@.builtin_cache,
                CommandType::Builtin,
            ),
    {
        let mut res: Vec<(usize, CommandType)> = Vec::new();
        push_hits(&mut res, &self.path_cache, CommandType::Path);
        push_hits(&mut res, &self.builtin_cache, CommandType::Builtin);
        assert(res@ =~= hits(self@.path_cache, CommandType::Path) + hits(
            self@.builtin_cache,
            CommandType::Builtin,
        ));
        res
    }

    /// The name of the candidate `id`.
    pub fn get_cmd_str(&self, id: (usize, CommandType)) -> (s: Option<&str>)
        requires
            candidate_in(self@, id),
        ensures
            s is Some,
            s.unwrap()@ == name_in(self@, id),
    {
        match id.1 {
            CommandType::Path => Some(self.path_cmds[id.0].as_str()),
            CommandType::Builtin => Some(self.builtin_cmds[id.0]),
            CommandType::User => vstd::pervasive::unreached(),
        }
    }
}

} // verus!
