//! The keybinding table: which accelerator each command is invoked by.
//!
//! A keybinding definition is a line-oriented text: blank lines and lines
//! starting with `#` are ignored, every other line must read
//! `command = accelerator`, naming one of the fixed commands and a
//! well-formed accelerator such as `<Control>o`. The definition is a user
//! convenience, so loading fails open: whatever goes wrong — no file, or any
//! malformed line — yields the empty table, and lookup falls back to a
//! built-in default accelerator per command. Lookup is therefore total and
//! never fails.

use vstd::prelude::*;

use crate::command::Command;
use crate::text::find_from;
use crate::text::find_char_from;
use crate::text::lemma_find_from;
use crate::text::trim_str;
use crate::text::is_alpha;
use crate::text::trim;

verus! {

/// A character allowed in the key part of an accelerator.
pub open spec fn is_key_char(c: char) -> bool {
    c != '<' && c != '>' && c != ' '
}

/// A well-formed accelerator: zero or more `<Modifier>` prefixes, each a
/// nonempty run of letters, followed by a nonempty key token without
/// angle brackets or spaces.
pub open spec fn accel_wf(s: Seq<char>) -> bool
    decreases s.len(),
{
    if s.len() == 0 {
        false
    } else if s[0] == '<' {
        let close = find_from(s, '>', 0);
        if 1 < close && close < s.len() {
            (forall|i: int| 1 <= i < close ==> is_alpha(s[i])) && accel_wf(
                s.subrange(close + 1, s.len() as int),
            )
        } else {
            false
        }
    } else {
        forall|i: int| 0 <= i < s.len() ==> is_key_char(s[i])
    }
}

/// The built-in default accelerator of each command, used whenever the
/// table has no entry for it.
pub open spec fn spec_default_accel(c: Command) -> Seq<char> {
    match c {
        Command::Open => "<Control>o"@,
        Command::Save => "<Control>s"@,
        Command::SaveAs => "<Shift><Control>s"@,
        Command::OpenExternal => "<Control>e"@,
        Command::Preferences => "<Control>comma"@,
        Command::About => "F1"@,
        Command::Quit => "<Control>q"@,
    }
}

/// No built-in default accelerator is empty.
pub proof fn lemma_default_accel_nonempty(c: Command)
    ensures
        spec_default_accel(c).len() > 0,
{
    reveal_strlit("<Control>o");
    reveal_strlit("<Control>s");
    reveal_strlit("<Shift><Control>s");
    reveal_strlit("<Control>e");
    reveal_strlit("<Control>comma");
    reveal_strlit("F1");
    reveal_strlit("<Control>q");
}

/// The built-in default accelerator of each command.
pub fn default_accel(c: Command) -> (r: &'static str)
    ensures
        r@ == spec_default_accel(c),
{
    match c {
        Command::Open => "<Control>o",
        Command::Save => "<Control>s",
        Command::SaveAs => "<Shift><Control>s",
        Command::OpenExternal => "<Control>e",
        Command::Preferences => "<Control>comma",
        Command::About => "F1",
        Command::Quit => "<Control>q",
    }
}

/// The keybinding table: at most one stored accelerator per command. Viewed
/// as a map from command to accelerator characters.
pub struct Keys {
    pub open: Option<String>,
    pub save: Option<String>,
    pub save_as: Option<String>,
    pub open_external: Option<String>,
    pub preferences: Option<String>,
    pub about: Option<String>,
    pub quit: Option<String>,
}

impl View for Keys {
    type V = Map<Command, Seq<char>>;

    open spec fn view(&self) -> Map<Command, Seq<char>> {
        Map::new(|c: Command| self.entry(c) is Some, |c: Command| self.entry(c)->0)
    }
}

impl Keys {
    /// The stored accelerator of `c`, if the table has one.
    pub open spec fn entry(&self, c: Command) -> Option<Seq<char>> {
        let field = match c {
            Command::Open => &self.open,
            Command::Save => &self.save,
            Command::SaveAs => &self.save_as,
            Command::OpenExternal => &self.open_external,
            Command::Preferences => &self.preferences,
            Command::About => &self.about,
            Command::Quit => &self.quit,
        };
        match field {
            Some(a) => Some(a@),
            None => None,
        }
    }

    /// Every stored accelerator is nonempty. Parsing only ever stores
    /// well-formed accelerators, which are never empty.
    pub open spec fn wf(&self) -> bool {
        forall|c: Command| #[trigger] self@.contains_key(c) ==> self@[c].len() > 0
    }

    /// What a lookup returns: the stored accelerator when the table has
    /// one, the built-in default otherwise.
    pub open spec fn spec_get(&self, c: Command) -> Seq<char> {
        if self@.contains_key(c) {
            self@[c]
        } else {
            spec_default_accel(c)
        }
    }

    /// Stores `a` as the accelerator of `c`, replacing any earlier entry.
    fn set(&mut self, c: Command, a: String)
        ensures
            final(self)@ == old(self)@.insert(c, a@),
    {
        match c {
            Command::Open => self.open = Some(a),
            Command::Save => self.save = Some(a),
            Command::SaveAs => self.save_as = Some(a),
            Command::OpenExternal => self.open_external = Some(a),
            Command::Preferences => self.preferences = Some(a),
            Command::About => self.about = Some(a),
            Command::Quit => self.quit = Some(a),
        }
        proof {
            assert(self@ =~= old(self)@.insert(c, a@));
        }
    }

    /// Looks the accelerator of `c` up, falling back to the built-in
    /// default when the table has no entry. Total: every command always
    /// has an accelerator.
    pub fn get(&self, c: Command) -> (r: String)
        ensures
            r@ == self.spec_get(c),
    {
        let field: &Option<String> = match c {
            Command::Open => &self.open,
            Command::Save => &self.save,
            Command::SaveAs => &self.save_as,
            Command::OpenExternal => &self.open_external,
            Command::Preferences => &self.preferences,
            Command::About => &self.about,
            Command::Quit => &self.quit,
        };
        match field {
            Some(a) => a.clone(),
            None => String::from_str(default_accel(c)),
        }
    }
}

/// Lookup in a table with nonempty entries never yields an empty
/// accelerator: the entry is nonempty, and so is every built-in default.
pub proof fn lemma_get_nonempty(k: Keys, c: Command)
    requires
        k.wf(),
    ensures
        k.spec_get(c).len() > 0,
{
    if !k@.contains_key(c) {
        lemma_default_accel_nonempty(c);
    }
}

/// Lookup returns a stored override exactly as stored; the built-in
/// default only ever stands in where the table has no entry.
pub proof fn lemma_get_override(k: Keys, c: Command)
    requires
        k@.contains_key(c),
    ensures
        k.spec_get(c) == k@[c],
{
}

/// Lookup in the empty table yields the built-in default of every command.
pub proof fn lemma_empty_get_default(k: Keys, c: Command)
    requires
        k@ == Map::<Command, Seq<char>>::empty(),
    ensures
        k.spec_get(c) == spec_default_accel(c),
{
}

/// A line that carries no binding: empty or spaces only, or a comment.
pub open spec fn line_blank(line: Seq<char>) -> bool {
    trim(line).len() == 0 || trim(line)[0] == '#'
}

/// The binding a line carries: `command = accelerator`, each side trimmed,
/// the command one of the fixed set and the accelerator well-formed.
/// `None` for a blank line or a malformed one.
pub open spec fn line_binding(line: Seq<char>) -> Option<(Command, Seq<char>)> {
    let t = trim(line);
    if t.len() == 0 || t[0] == '#' {
        None
    } else {
        let eq = find_from(t, '=', 0);
        if eq < t.len() {
            let name = Command::of_name(trim(t.subrange(0, eq)));
            let accel = trim(t.subrange(eq + 1, t.len() as int));
            if name is Some && accel_wf(accel) {
                Some((name->0, accel))
            } else {
                None
            }
        } else {
            None
        }
    }
}

/// A line the parser accepts: blank, or carrying a binding.
pub open spec fn line_ok(line: Seq<char>) -> bool {
    line_blank(line) || line_binding(line) is Some
}

/// The table a definition text denotes, folded line by line onto `acc`:
/// `None` as soon as any line is malformed, later bindings replacing
/// earlier ones for the same command.
pub open spec fn keys_of_rec(s: Seq<char>, acc: Map<Command, Seq<char>>) -> Option<
    Map<Command, Seq<char>>,
>
    decreases s.len(),
    via keys_of_rec_decreases
{
    if s.len() == 0 {
        Some(acc)
    } else {
        let nl = find_from(s, '\n', 0);
        let line = s.subrange(0, nl);
        let rest = if nl < s.len() {
            s.subrange(nl + 1, s.len() as int)
        } else {
            Seq::empty()
        };
        if !line_ok(line) {
            None
        } else {
            match line_binding(line) {
                Some(b) => keys_of_rec(rest, acc.insert(b.0, b.1)),
                None => keys_of_rec(rest, acc),
            }
        }
    }
}

#[via_fn]
proof fn keys_of_rec_decreases(s: Seq<char>, acc: Map<Command, Seq<char>>) {
    if s.len() > 0 {
        lemma_find_from(s, '\n', 0);
    }
}

/// The table a whole keybinding definition denotes, or `None` when any of
/// its lines is malformed.
pub open spec fn keys_of(s: Seq<char>) -> Option<Map<Command, Seq<char>>> {
    keys_of_rec(s, Map::empty())
}

/// Whether `s` is a well-formed accelerator.
pub(crate) fn accel_check(s: &str) -> (r: bool)
    ensures
        r == accel_wf(s@),
    decreases s@.len(),
{
    let n = s.unicode_len();
    if n == 0 {
        return false;
    }
    if s.get_char(0) == '<' {
        let close = find_char_from(s, '>', 0);
        proof {
            lemma_find_from(s@, '>', 0);
        }
        if close <= 1 || close >= n {
            return false;
        }
        let mut i: usize = 1;
        while i < close
            invariant
                n == s@.len(),
                1 <= i <= close < n,
                s@[0] == '<',
                close as int == find_from(s@, '>', 0),
                forall|j: int| 1 <= j < i ==> is_alpha(s@[j]),
            decreases close - i,
        {
            let c = s.get_char(i);
            if !(('a' <= c && c <= 'z') || ('A' <= c && c <= 'Z')) {
                proof {
                    assert(!is_alpha(s@[i as int]));
                }
                return false;
            }
            i += 1;
        }
        let rest = s.substring_char(close + 1, n);
        accel_check(rest)
    } else {
        let mut i: usize = 0;
        while i < n
            invariant
                n == s@.len(),
                i <= n,
                s@[0] != '<',
                forall|j: int| 0 <= j < i ==> is_key_char(s@[j]),
            decreases n - i,
        {
            let c = s.get_char(i);
            if c == '<' || c == '>' || c == ' ' {
                proof {
                    assert(!is_key_char(s@[i as int]));
                }
                return false;
            }
            i += 1;
        }
        true
    }
}

impl Keys {
    /// Parses a keybinding definition text, failing closed: `None` as soon
    /// as any line is malformed.
    pub fn parse(contents: &str) -> (r: Option<Keys>)
        ensures
            match r {
                Some(k) => Some(k@) == keys_of(contents@) && k.wf(),
                None => keys_of(contents@) is None,
            },
    {
        let mut keys = Keys::default();
        let mut rest: &str = contents;
        while rest.unicode_len() > 0
            invariant
                keys_of(contents@) == keys_of_rec(rest@, keys@),
                keys.wf(),
            decreases rest@.len(),
        {
            let n = rest.unicode_len();
            let nl = find_char_from(rest, '\n', 0);
            proof {
                lemma_find_from(rest@, '\n', 0);
            }
            let line = rest.substring_char(0, nl);
            let t = trim_str(line);
            let tn = t.unicode_len();
            let mut binding: Option<(Command, String)> = None;
            let mut bad = false;
            if tn == 0 {
                // blank line
            } else if t.get_char(0) == '#' {
                // comment line
            } else {
                let eq = find_char_from(t, '=', 0);
                proof {
                    lemma_find_from(t@, '=', 0);
                }
                if eq >= tn {
                    bad = true;
                } else {
                    let name_part = trim_str(t.substring_char(0, eq));
                    let accel_part = trim_str(t.substring_char(eq + 1, tn));
                    match Command::from_name(name_part) {
                        None => {
                            bad = true;
                        },
                        Some(c) => {
                            if accel_check(accel_part) {
                                binding = Some((c, String::from_str(accel_part)));
                            } else {
                                bad = true;
                            }
                        },
                    }
                }
            }
            if bad {
                return None;
            }
            proof {
                assert(line_ok(rest@.subrange(0, nl as int)));
            }
            match binding {
                None => {
                    proof {
                        assert(line_binding(rest@.subrange(0, nl as int)) is None);
                    }
                },
                Some(b) => {
                    let (c, a) = b;
                    proof {
                        assert(line_binding(rest@.subrange(0, nl as int)) == Some((c, a@)));
                        assert(a@.len() > 0);
                    }
                    keys.set(c, a);
                },
            }
            if nl < n {
                rest = rest.substring_char(nl + 1, n);
            } else {
                rest = rest.substring_char(n, n);
                proof {
                    assert(rest@ =~= Seq::<char>::empty());
                }
            }
        }
        Some(keys)
    }

    /// Resolves a keybinding source to a table, failing open: a missing
    /// source or a malformed definition yields the empty table, so a broken
    /// keybinding file can never prevent startup.
    pub fn resolve(contents: Option<&str>) -> (r: Keys)
        ensures
            r.wf(),
            match contents {
                Some(text) => match keys_of(text@) {
                    Some(m) => r@ == m,
                    None => r@ == Map::<Command, Seq<char>>::empty(),
                },
                None => r@ == Map::<Command, Seq<char>>::empty(),
            },
    {
        match contents {
            None => Keys::default(),
            Some(text) => match Keys::parse(text) {
                Some(k) => k,
                None => Keys::default(),
            },
        }
    }
}

impl Default for Keys {
    /// The empty table: every lookup falls back to its built-in default.
    fn default() -> (r: Self)
        ensures
            r@ == Map::<Command, Seq<char>>::empty(),
    {
        let r = Keys {
            open: None,
            save: None,
            save_as: None,
            open_external: None,
            preferences: None,
            about: None,
            quit: None,
        };
        proof {
            assert(r@ =~= Map::<Command, Seq<char>>::empty());
        }
        r
    }
}

} // verus!
