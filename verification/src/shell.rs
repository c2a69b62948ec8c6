//! What the interactive loop decides for each key press: which parts of
//! the shell state change, what must be redrawn, and which commands to
//! run.  Reading keys, drawing and running commands are left to the
//! caller.

use vstd::prelude::*;
use crate::editor::{
    cur_line, edit_step, editor_wf, joined_lines, key_ok, with_line, word_start, EditResult,
    Editor, EditorSpec, Key, Point,
};
use crate::strings::{
    at_boundary, byte_len, byte_pos, char_index, lemma_byte_pos_monotone, lemma_char_index,
    lemma_char_index_of_pos,
};
use crate::exec::{CommandSpec, CommandStore};
use crate::fugu_env::{
    all_true, candidate_in, env_wf, hits, name_in, lemma_hits_exact, matches_of, narrowed, CommandType, FuguEnv,
    FuguEnvSpec,
};
use crate::parser::{
    add_cmd_spec, initial_parser, is_delimiter, read_all, read_char, ParseStatus, Parser, ParserSpec,
    DELIMITERS,
};
use crate::pattern::{regex_compiles, regex_is_match};
use crate::selector::{
    down_spec, lemma_moves_keep_wf, new_selector, selected, selector_wf, up_spec, Selector,
    SelectorSpec,
};

verus! {

/// The characters that end a word, as a sequence.
pub open spec fn delimiter_chars() -> Seq<char> {
    seq![' ', ';', '|', '&', '<', '>', '^']
}

/// The state of the shell: the editor, the parser, the candidate list
/// and the completion search.
pub struct ShellSpec {
    pub editor: EditorSpec,
    pub parser: ParserSpec,
    pub selector: SelectorSpec,
    pub env: FuguEnvSpec,
}

/// What the caller must do after a key press.
pub struct ReactionSpec {
    pub draw_editor: bool,
    pub move_cursor: bool,
    pub draw_selector: bool,
    pub execute: Option<Seq<CommandSpec>>,
}

/// The parts agree: the editor and the search are well formed, the
/// selector is well formed and lists only existing candidates.
pub open spec fn shell_wf(s: ShellSpec) -> bool {
    &&& editor_wf(s.editor)
    &&& env_wf(s.env)
    &&& selector_wf(s.selector)
    &&& s.selector.buf.len() <= usize::MAX
    &&& forall|i: int| 0 <= i < s.selector.buf.len() ==> candidate_in(s.env, #[trigger] s.selector.buf[i])
}

/// The search after a key press: every name offered again, then only
/// those matching `pattern` (all of them when it does not compile).
pub open spec fn search_spec(env: FuguEnvSpec, pattern: Seq<char>) -> FuguEnvSpec {
    let reset = FuguEnvSpec {
        path_cache: all_true(env.path_cache.len()),
        builtin_cache: all_true(env.builtin_cache.len()),
        ..env
    };
    if regex_compiles(pattern) {
        FuguEnvSpec {
            path_cache: narrowed(reset.path_cache, matches_of(pattern, reset.path_cmds)),
            builtin_cache: narrowed(reset.builtin_cache, matches_of(pattern, reset.builtin_cmds)),
            ..reset
        }
    } else {
        reset
    }
}

/// The candidates of a search, programs first.
pub open spec fn candidates(env: FuguEnvSpec) -> Seq<(usize, CommandType)> {
    hits(env.path_cache, CommandType::Path) + hits(env.builtin_cache, CommandType::Builtin)
}

/// No redraw and nothing to run.
pub open spec fn quiet() -> ReactionSpec {
    ReactionSpec { draw_editor: false, move_cursor: false, draw_selector: false, execute: None }
}

/// Enter: completes the word before the cursor with the selected
/// candidate, if any, then ends the line and runs every command read so
/// far.
pub open spec fn enter_step(s: ShellSpec) -> (ShellSpec, ReactionSpec) {
    match selected(s.selector) {
        Some(id) => {
            let e = s.editor;
            let l = cur_line(e);
            let k = char_index(l, e.cursor.x as int);
            let j = word_start(l, k, delimiter_chars());
            let name = name_in(s.env, id);
            let e2 = with_line(e, l.take(j) + name + l.skip(k), byte_pos(l, j) + byte_len(name));
            let p1 = ParserSpec { token: Seq::empty(), ..s.parser };
            let p2 = add_cmd_spec(read_all(p1, joined_lines(e2.lines)));
            let p3 = read_char(p2, ';');
            (
                ShellSpec { editor: e2, parser: p3, ..s },
                ReactionSpec { draw_editor: true, execute: Some(p3.parsed), ..quiet() },
            )
        },
        None => {
            let p3 = read_char(s.parser, ';');
            (ShellSpec { parser: p3, ..s }, ReactionSpec { execute: Some(p3.parsed), ..quiet() })
        },
    }
}

/// Any other key: the editor takes it; the parser follows the change,
/// reading the typed character or the whole text again; when the text
/// changed and a command name is expected, the search restarts with the
/// current word and the candidate list is rebuilt.
pub open spec fn edit_key_step(s: ShellSpec, k: Key) -> (ShellSpec, ReactionSpec) {
    let (e1, r) = edit_step(s.editor, k);
    let changed = r is JustTailAdd || r is JustAdd || r is Edited;
    let p1 = match r {
        EditResult::JustTailAdd(c) => read_char(s.parser, c),
        EditResult::JustAdd => add_cmd_spec(read_all(initial_parser(), joined_lines(e1.lines))),
        EditResult::Edited => add_cmd_spec(read_all(initial_parser(), joined_lines(e1.lines))),
        _ => s.parser,
    };
    let reaction = ReactionSpec { draw_editor: changed, move_cursor: r is Moved, ..quiet() };
    if changed && p1.status == ParseStatus::WaitCommand {
        let env1 = search_spec(s.env, p1.token);
        (
            ShellSpec {
                editor: e1,
                parser: p1,
                env: env1,
                selector: new_selector(candidates(env1)),
            },
            ReactionSpec { draw_selector: true, ..reaction },
        )
    } else {
        (ShellSpec { editor: e1, parser: p1, ..s }, reaction)
    }
}

/// The keys that move through the candidate list.
pub open spec fn is_list_key(k: Key) -> bool {
    k == Key::Ctrl('p') || k == Key::Up || k == Key::Ctrl('n') || k == Key::Down
}

/// The key press `k` does not panic: an editing key must suit the editor
/// (see `key_ok`); for Enter with a selected candidate the cursor must be
/// on a character boundary and stay representable once the name is in.
pub open spec fn shell_key_ok(s: ShellSpec, k: Key) -> bool {
    if is_list_key(k) {
        true
    } else if k == Key::Char('\n') {
        match selected(s.selector) {
            Some(id) => {
                &&& at_boundary(cur_line(s.editor), s.editor.cursor.x as int)
                &&& s.editor.cursor.x + byte_len(name_in(s.env, id)) <= usize::MAX
            },
            None => true,
        }
    } else {
        key_ok(s.editor, k)
    }
}

/// The shell after the key press `k`, and what must be done.
pub open spec fn shell_step(s: ShellSpec, k: Key) -> (ShellSpec, ReactionSpec) {
    if k == Key::Ctrl('p') || k == Key::Up {
        (ShellSpec { selector: up_spec(s.selector), ..s }, ReactionSpec { draw_selector: true, ..quiet() })
    } else if k == Key::Ctrl('n') || k == Key::Down {
        (ShellSpec { selector: down_spec(s.selector), ..s }, ReactionSpec { draw_selector: true, ..quiet() })
    } else if k == Key::Char('\n') {
        enter_step(s)
    } else {
        edit_key_step(s, k)
    }
}

/// The word delimiters are exactly the characters that end a word for
/// the parser.
pub proof fn lemma_delimiters_end_words(c: char)
    ensures
        delimiter_chars().contains(c) <==> is_delimiter(c),
{
    let d = delimiter_chars();
    if is_delimiter(c) {
        if c == ' ' { assert(d[0] == c); }
        else if c == ';' { assert(d[1] == c); }
        else if c == '|' { assert(d[2] == c); }
        else if c == '&' { assert(d[3] == c); }
        else if c == '<' { assert(d[4] == c); }
        else if c == '>' { assert(d[5] == c); }
        else { assert(d[6] == c); }
    }
}

/// An editing key keeps the parser in step with the text: a character
/// typed at the end is read on; any other change of the text has the
/// text parsed again from a fresh parser, so nothing deleted is left in
/// it; a key that changes no text leaves the parser, the search and the
/// candidate list alone.
pub proof fn lemma_edit_keeps_parser_in_step(s: ShellSpec, k: Key)
    requires
        !is_list_key(k),
        k != Key::Char('\n'),
    ensures
        ({
            let (e1, r) = edit_step(s.editor, k);
            let s1 = shell_step(s, k).0;
            &&& s1.editor == e1
            &&& (r is JustAdd || r is Edited) ==> s1.parser == add_cmd_spec(
                read_all(initial_parser(), joined_lines(e1.lines)),
            )
            &&& (r matches EditResult::JustTailAdd(c) ==> s1.parser == read_char(s.parser, c))
            &&& (r is Moved || r is Nothing) ==> s1.parser == s.parser && s1.env == s.env
                && s1.selector == s.selector
        }),
{
}

/// After a key press that changes the text while a command name is
/// expected, the search starts afresh over all names: a name is a
/// candidate exactly when it matches the current word (every name, when
/// the word is no valid pattern), whatever earlier searches kept.  The
/// candidate list then holds exactly these candidates, programs before
/// built-ins, with no row selected.
pub proof fn lemma_search_over_all_names(s: ShellSpec, k: Key)
    requires
        !is_list_key(k),
        k != Key::Char('\n'),
        env_wf(s.env),
        ({
            let r = edit_step(s.editor, k).1;
            r is JustTailAdd || r is JustAdd || r is Edited
        }),
        shell_step(s, k).0.parser.status == ParseStatus::WaitCommand,
    ensures
        ({
            let s1 = shell_step(s, k).0;
            let t = s1.parser.token;
            let env = s1.env;
            let buf = s1.selector.buf;
            &&& env.path_cmds == s.env.path_cmds
            &&& env.builtin_cmds == s.env.builtin_cmds
            &&& env.path_cache.len() == env.path_cmds.len()
            &&& env.builtin_cache.len() == env.builtin_cmds.len()
            &&& forall|i: int|
                0 <= i < env.path_cmds.len() ==> (#[trigger] env.path_cache[i] <==> (
                !regex_compiles(t) || regex_is_match(t, env.path_cmds[i])))
            &&& forall|i: int|
                0 <= i < env.builtin_cmds.len() ==> (#[trigger] env.builtin_cache[i] <==> (
                !regex_compiles(t) || regex_is_match(t, env.builtin_cmds[i])))
            &&& forall|i: int|
                0 <= i < env.path_cmds.len() ==> (buf.contains((i as usize, CommandType::Path))
                <==> #[trigger] env.path_cache[i])
            &&& forall|i: int|
                0 <= i < env.builtin_cmds.len() ==> (buf.contains(
                (i as usize, CommandType::Builtin),
            ) <==> #[trigger] env.builtin_cache[i])
            &&& forall|a: int, b: int|
                0 <= a < b < buf.len() && #[trigger] buf[b].1 == CommandType::Path ==> #[trigger] buf[a].1
                    == CommandType::Path
            &&& s1.selector.cursor is None
        }),
{
    let s1 = shell_step(s, k).0;
    let env = s1.env;
    let buf = s1.selector.buf;
    let ph = hits(env.path_cache, CommandType::Path);
    let bh = hits(env.builtin_cache, CommandType::Builtin);
    lemma_hits_exact(env.path_cache, CommandType::Path);
    lemma_hits_exact(env.builtin_cache, CommandType::Builtin);
    assert(buf == ph + bh);
    assert forall|i: int| 0 <= i < env.path_cmds.len() implies (buf.contains(
        (i as usize, CommandType::Path),
    ) <==> #[trigger] env.path_cache[i]) by {
        let id = (i as usize, CommandType::Path);
        if buf.contains(id) {
            let m = choose|m: int| 0 <= m < buf.len() && buf[m] == id;
            if m < ph.len() {
                assert(ph[m] == id);
            } else {
                assert(bh[m - ph.len()] == id);
            }
        }
        if env.path_cache[i] {
            let m = choose|m: int| 0 <= m < ph.len() && ph[m] == id;
            assert(buf[m] == id);
        }
    }
    assert forall|i: int| 0 <= i < env.builtin_cmds.len() implies (buf.contains(
        (i as usize, CommandType::Builtin),
    ) <==> #[trigger] env.builtin_cache[i]) by {
        let id = (i as usize, CommandType::Builtin);
        if buf.contains(id) {
            let m = choose|m: int| 0 <= m < buf.len() && buf[m] == id;
            if m < ph.len() {
                assert(ph[m] == id);
            } else {
                assert(bh[m - ph.len()] == id);
            }
        }
        if env.builtin_cache[i] {
            let m = choose|m: int| 0 <= m < bh.len() && bh[m] == id;
            assert(buf[m + ph.len()] == id);
        }
    }
    assert forall|a: int, b: int|
        0 <= a < b < buf.len() && #[trigger] buf[b].1 == CommandType::Path implies #[trigger] buf[a].1
            == CommandType::Path by {
        if b >= ph.len() {
            assert(buf[b] == bh[b - ph.len()]);
        }
        assert(buf[a] == ph[a]);
    }
}

/// Enter with a selected candidate replaces the word before the cursor
/// (back to the nearest delimiter) by the candidate's name, puts the
/// cursor after it, and has the parser, its current word dropped, read
/// the completed text; without a selection the text stays.  Either way the
/// parser then waits for a command and what is run is its list of
/// finished commands.
pub proof fn lemma_enter_completes_word(s: ShellSpec)
    requires
        shell_wf(s),
        shell_key_ok(s, Key::Char('\n')),
    ensures
        ({
            let (s1, r) = shell_step(s, Key::Char('\n'));
            let e = s.editor;
            let l = cur_line(e);
            let k = char_index(l, e.cursor.x as int);
            &&& r.execute == Some(s1.parser.parsed)
            &&& s1.parser.status == ParseStatus::WaitCommand
            &&& s1.env == s.env
            &&& s1.selector == s.selector
            &&& match selected(s.selector) {
                Some(id) => {
                    let j = word_start(l, k, delimiter_chars());
                    let name = name_in(s.env, id);
                    &&& 0 <= j <= k <= l.len()
                    &&& forall|i: int| j <= i < k ==> !is_delimiter(#[trigger] l[i])
                    &&& (j == 0 || is_delimiter(l[j - 1]))
                    &&& s1.editor.lines == e.lines.update(
                        e.cursor.y as int,
                        l.take(j) + name + l.skip(k),
                    )
                    &&& s1.editor.cursor == Point {
                        x: byte_len(l.take(j) + name) as usize,
                        y: e.cursor.y,
                    }
                    &&& s1.parser == read_char(
                        add_cmd_spec(
                            read_all(
                                ParserSpec { token: Seq::empty(), ..s.parser },
                                joined_lines(s1.editor.lines),
                            ),
                        ),
                        ';',
                    )
                },
                None => s1.editor == e && s1.parser == read_char(s.parser, ';'),
            }
        }),
{
    match selected(s.selector) {
        Some(id) => {
            let e = s.editor;
            let l = cur_line(e);
            lemma_char_index(l, e.cursor.x as int);
            let k = char_index(l, e.cursor.x as int);
            let j = word_start(l, k, delimiter_chars());
            crate::editor::lemma_word_start_stops_at_delimiter(l, k, delimiter_chars());
            assert forall|i: int| j <= i < k implies !is_delimiter(#[trigger] l[i]) by {
                lemma_delimiters_end_words(l[i]);
            }
            if j > 0 {
                lemma_delimiters_end_words(l[j - 1]);
            }
            let name = name_in(s.env, id);
            crate::strings::lemma_encode_concat(l.take(j), name);
        },
        None => {},
    }
}

/// Moving through the candidate list never touches the text, the parser
/// or the search.
pub proof fn lemma_list_keys_keep_text(s: ShellSpec, k: Key)
    requires
        k == Key::Ctrl('p') || k == Key::Up || k == Key::Ctrl('n') || k == Key::Down,
    ensures
        shell_step(s, k).0.editor == s.editor,
        shell_step(s, k).0.parser == s.parser,
        shell_step(s, k).0.env == s.env,
        shell_step(s, k).1.execute is None,
{
}

/// When Enter runs commands, the parser afterwards waits for a new
/// command, and what is run is exactly the parser's list of finished
/// commands.
pub proof fn lemma_enter_runs_finished_commands(s: ShellSpec)
    requires
        shell_step(s, Key::Char('\n')).1.execute is Some,
    ensures
        shell_step(s, Key::Char('\n')).0.parser.status == ParseStatus::WaitCommand,
        shell_step(s, Key::Char('\n')).1.execute == Some(
            shell_step(s, Key::Char('\n')).0.parser.parsed,
        ),
{
}

/// Only Enter runs commands.
pub proof fn lemma_only_enter_runs(s: ShellSpec, k: Key)
    requires
        k != Key::Char('\n'),
    ensures
        shell_step(s, k).1.execute is None,
{
}

/// What the caller must do after a key press: redraw the edited line,
/// move the cursor, redraw the candidate list, and run commands.
pub struct Reaction {
    pub draw_editor: bool,
    pub move_cursor: bool,
    pub draw_selector: bool,
    pub execute: Option<Vec<CommandStore>>,
}

impl View for Reaction {
    type V = ReactionSpec;

    open spec fn view(&self) -> ReactionSpec {
        ReactionSpec {
            draw_editor: self.draw_editor,
            move_cursor: self.move_cursor,
            draw_selector: self.draw_selector,
            execute: match self.execute {
                Some(v) => Some(v@.map_values(|c: CommandStore| c@)),
                None => None,
            },
        }
    }
}

/// The interactive shell: the editor, the parser, the candidate list and
/// the completion search.
pub struct Shell<'a> {
    pub editor: Editor,
    pub parser: Parser,
    pub selector: Selector,
    pub env: FuguEnv<'a>,
}

impl<'a> View for Shell<'a> {
    type V = ShellSpec;

    open spec fn view(&self) -> ShellSpec {
        ShellSpec {
            editor: self.editor@,
            parser: self.parser@,
            selector: self.selector@,
            env: self.env@,
        }
    }
}

fn quiet_reaction() -> (r: Reaction)
    ensures
        r@ == quiet(),
{
    Reaction { draw_editor: false, move_cursor: false, draw_selector: false, execute: None }
}

impl<'a> Shell<'a> {
    /// A shell whose editor is drawn from `base` on, with a fresh parser,
    /// an empty candidate list and the search `env`.
    pub fn new(base: Point, env: FuguEnv<'a>) -> (s: Shell<'a>)
        requires
            env.wf(),
        ensures
            shell_wf(s@),
            s@.editor == (EditorSpec {
                lines: seq![Seq::<char>::empty()],
                base: base,
                cursor: Point { x: 0, y: 0 },
                yank: None,
            }),
            s@.parser == initial_parser(),
            s@.selector == (SelectorSpec {
                buf: Seq::empty(),
                range: (0usize, 1usize),
                max_print: 1,
                cursor: None,
            }),
            s@.env == env@,
    {
        Shell { editor: Editor::new(base), parser: Parser::new(), selector: Selector::default(), env }
    }

    /// Whether `handle_key` may be given `key` now (see `shell_key_ok`).
    pub fn accepts_key(&self, key: &Key) -> (b: bool)
        requires
            shell_wf(self@),
        ensures
            b == shell_key_ok(self@, *key),
    {
        let k = *key;
        if k == Key::Ctrl('p') || k == Key::Up || k == Key::Ctrl('n') || k == Key::Down {
            true
        } else if k == Key::Char('\n') {
            match self.selector.get_idx() {
                Some(id) => {
                    assert(candidate_in(self.env@, id));
                    let name = self.env.get_cmd_str(id).unwrap();
                    self.editor.accepts_str(name)
                },
                None => true,
            }
        } else {
            self.editor.accepts_key(key)
        }
    }

    /// Reacts to one key press as `shell_step` says.
    pub fn handle_key(&mut self, key: &Key) -> (r: Reaction)
        requires
            shell_wf(old(self)@),
            shell_key_ok(old(self)@, *key),
        ensures
            shell_wf(final(self)@),
            (final(self)@, r@) == shell_step(old(self)@, *key),
    {
        let k = *key;
        if k == Key::Ctrl('p') || k == Key::Up {
            proof {
                lemma_moves_keep_wf(self.selector@);
            }
            self.selector.csr_up();
            return Reaction { draw_selector: true, ..quiet_reaction() };
        }
        if k == Key::Ctrl('n') || k == Key::Down {
            proof {
                lemma_moves_keep_wf(self.selector@);
            }
            self.selector.csr_down();
            return Reaction { draw_selector: true, ..quiet_reaction() };
        }
        if k == Key::Char('\n') {
            return self.enter();
        }
        self.edit_key(key)
    }

    fn enter(&mut self) -> (r: Reaction)
        requires
            shell_wf(old(self)@),
            shell_key_ok(old(self)@, Key::Char('\n')),
        ensures
            shell_wf(final(self)@),
            (final(self)@, r@) == enter_step(old(self)@),
    {
        let mut draw_editor = false;
        if let Some(id) = self.selector.get_idx() {
            let ghost e = self.editor@;
            let ghost l = cur_line(e);
            let ghost k = char_index(l, e.cursor.x as int);
            let delims: &[char] = &DELIMITERS;
            assert(delims@ == delimiter_chars());
            self.editor.delete_untill(delims);
            assert(candidate_in(self.env@, id));
            let name = self.env.get_cmd_str(id).unwrap();
            proof {
                let j = word_start(l, k, delimiter_chars());
                lemma_char_index(l, e.cursor.x as int);
                crate::editor::lemma_word_start_bounds(l, k, delimiter_chars());
                lemma_byte_pos_monotone(l, j, k);
                let l1 = l.take(j) + l.skip(k);
                assert(l1.take(j) =~= l.take(j));
                assert(l1.skip(j) =~= l.skip(k));
                assert(byte_pos(l1, j) == byte_pos(l, j));
                lemma_char_index_of_pos(l1, j);
            }
            self.editor.insert_str(name);
            proof {
                let j = word_start(l, k, delimiter_chars());
                assert(self.editor@.lines =~= e.lines.update(
                    e.cursor.y as int,
                    l.take(j) + name@ + l.skip(k),
                ));
            }
            self.parser.remove_cur_token();
            let text = self.editor.to_str();
            self.parser.add_str(text.as_str());
            draw_editor = true;
        }
        let parsed = self.parser.enter();
        Reaction { draw_editor: draw_editor, execute: Some(parsed), ..quiet_reaction() }
    }

    fn edit_key(&mut self, key: &Key) -> (r: Reaction)
        requires
            shell_wf(old(self)@),
            key_ok(old(self)@.editor, *key),
            *key != Key::Ctrl('p'),
            *key != Key::Up,
            *key != Key::Ctrl('n'),
            *key != Key::Down,
            *key != Key::Char('\n'),
        ensures
            shell_wf(final(self)@),
            (final(self)@, r@) == edit_key_step(old(self)@, *key),
    {
        let res = self.editor.handle_key(key);
        let changed = match res {
            EditResult::JustTailAdd(_) | EditResult::JustAdd | EditResult::Edited => true,
            _ => false,
        };
        match res {
            EditResult::JustTailAdd(c) => {
                self.parser.read1(c);
            },
            EditResult::JustAdd | EditResult::Edited => {
                self.parser = Parser::new();
                let text = self.editor.to_str();
                self.parser.add_str(text.as_str());
            },
            _ => {},
        }
        let moved = match res {
            EditResult::Moved => true,
            _ => false,
        };
        let mut draw_selector = false;
        if changed && self.parser.get_status() == ParseStatus::WaitCommand {
            self.env.reset_search();
            self.env.search_cmd(self.parser.get_cur_token());
            let v = self.env.search_to_vec();
            proof {
                lemma_hits_exact(self.env@.path_cache, CommandType::Path);
                lemma_hits_exact(self.env@.builtin_cache, CommandType::Builtin);
            }
            self.selector = Selector::new(v);
            proof {
                let env1 = self.env@;
                let ph = hits(env1.path_cache, CommandType::Path);
                let bh = hits(env1.builtin_cache, CommandType::Builtin);
                assert forall|i: int| 0 <= i < self.selector@.buf.len() implies candidate_in(
                    env1,
                    #[trigger] self.selector@.buf[i],
                ) by {
                    if i < ph.len() {
                        assert(self.selector@.buf[i] == ph[i]);
                    } else {
                        assert(self.selector@.buf[i] == bh[i - ph.len()]);
                    }
                }
            }
            draw_selector = true;
        }
        Reaction {
            draw_editor: changed,
            move_cursor: moved,
            draw_selector: draw_selector,
            execute: None,
        }
    }
}

} // verus!
