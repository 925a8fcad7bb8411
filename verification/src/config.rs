//! Project-scoped configuration: the write-permission level.
//!
//! Resolution order, highest priority first: env `NTUCOOL_WRITE_LEVEL`, the
//! nearest `.ntucool.json` walking up from the current directory, then the
//! built-in default `WriteLevel::Off`. Reading the environment and the file
//! is left to the caller; this module parses and walks.

use vstd::prelude::*;

use crate::strs::{ascii_lower_seq, spec_is_whitespace, spec_trim};

verus! {

/// How much the submit (write) path is allowed to do. Ordinal — each level
/// is a strict superset of the previous one.
#[derive(Debug, Clone, Copy, PartialEq, Eq, Structural)]
pub enum WriteLevel {
    /// No writes at all (canonical name `none`). Submission is refused outright. (default)
    Off,
    /// Writes allowed, but any flagged risk aborts.
    Safe,
    /// Writes allowed; soft risks proceed when `i_understand` is set.
    Guarded,
    /// Writes allowed, every preflight check skipped.
    Unguarded,
}

/// Canonical name of a level, as written in `.ntucool.json`.
pub open spec fn level_name(l: WriteLevel) -> Seq<char> {
    match l {
        WriteLevel::Off => "none"@,
        WriteLevel::Safe => "safe"@,
        WriteLevel::Guarded => "guarded"@,
        WriteLevel::Unguarded => "unguarded"@,
    }
}

/// The ordinal alias of a level (`"0"` … `"3"`).
pub open spec fn level_ordinal(l: WriteLevel) -> Seq<char> {
    match l {
        WriteLevel::Off => "0"@,
        WriteLevel::Safe => "1"@,
        WriteLevel::Guarded => "2"@,
        WriteLevel::Unguarded => "3"@,
    }
}

/// The level a string names: after trimming and ASCII-lowercasing, one of the
/// canonical names or ordinals.
pub open spec fn spec_parse_level(s: Seq<char>) -> Option<WriteLevel> {
    let t = ascii_lower_seq(spec_trim(s));
    if t == level_name(WriteLevel::Off) || t == level_ordinal(WriteLevel::Off) {
        Some(WriteLevel::Off)
    } else if t == level_name(WriteLevel::Safe) || t == level_ordinal(WriteLevel::Safe) {
        Some(WriteLevel::Safe)
    } else if t == level_name(WriteLevel::Guarded) || t == level_ordinal(WriteLevel::Guarded) {
        Some(WriteLevel::Guarded)
    } else if t == level_name(WriteLevel::Unguarded) || t == level_ordinal(WriteLevel::Unguarded) {
        Some(WriteLevel::Unguarded)
    } else {
        None
    }
}

impl WriteLevel {
    /// Parse a level from a string. Accepts the canonical names and the
    /// ordinals `0`-`3` as aliases. Case-insensitive.
    pub fn parse(s: &str) -> (r: Option<WriteLevel>)
        ensures
            r == spec_parse_level(s@),
    {
        let v = crate::strs::chars_of(s);
        let t0 = crate::strs::trim_chars(&v);
        let t = crate::strs::to_ascii_lowercase_chars(&t0);
        if crate::strs::chars_eq_str(&t, "none") || crate::strs::chars_eq_str(&t, "0") {
            Some(WriteLevel::Off)
        } else if crate::strs::chars_eq_str(&t, "safe") || crate::strs::chars_eq_str(&t, "1") {
            Some(WriteLevel::Safe)
        } else if crate::strs::chars_eq_str(&t, "guarded") || crate::strs::chars_eq_str(&t, "2") {
            Some(WriteLevel::Guarded)
        } else if crate::strs::chars_eq_str(&t, "unguarded") || crate::strs::chars_eq_str(
            &t,
            "3",
        ) {
            Some(WriteLevel::Unguarded)
        } else {
            None
        }
    }

    /// Canonical name, as written in `.ntucool.json`.
    pub fn as_str(self) -> (r: &'static str)
        ensures
            r@ == level_name(self),
    {
        match self {
            WriteLevel::Off => "none",
            WriteLevel::Safe => "safe",
            WriteLevel::Guarded => "guarded",
            WriteLevel::Unguarded => "unguarded",
        }
    }
}

proof fn lemma_trim_letters(s: Seq<char>)
    requires
        s.len() > 0,
        !spec_is_whitespace(s[0]),
        !spec_is_whitespace(s.last()),
    ensures
        spec_trim(s) == s,
{
    assert(crate::strs::trim_start(s) == s);
    assert(crate::strs::trim_end(s) == s);
}

/// A level's canonical name is one of `none`, `safe`, `guarded`,
/// `unguarded`, and it parses back to that level, in any ASCII case (so
/// also upper-cased).
pub proof fn law_level_name_round_trip(l: WriteLevel, s: Seq<char>)
    requires
        ascii_lower_seq(s) == level_name(l),
    ensures
        level_name(l) == "none"@ || level_name(l) == "safe"@ || level_name(l) == "guarded"@
            || level_name(l) == "unguarded"@,
        spec_parse_level(level_name(l)) == Some(l),
        spec_parse_level(s) == Some(l),
{
    reveal_strlit("none");
    reveal_strlit("safe");
    reveal_strlit("guarded");
    reveal_strlit("unguarded");
    reveal_strlit("0");
    reveal_strlit("1");
    reveal_strlit("2");
    reveal_strlit("3");
    let n = level_name(l);
    assert(s.len() == n.len());
    assert(ascii_lower_seq(s)[0] == n[0]);
    assert(ascii_lower_seq(s)[s.len() - 1] == n[n.len() - 1]);
    assert(!spec_is_whitespace(s[0]));
    assert(!spec_is_whitespace(s.last()));
    lemma_trim_letters(s);
    assert(!spec_is_whitespace(n[0]));
    assert(!spec_is_whitespace(n.last()));
    lemma_trim_letters(n);
    assert(ascii_lower_seq(n) =~= n);
}

/// The level a `.ntucool.json` names: exactly one of the canonical names,
/// nothing else (no ordinals, no other case, no spaces).
pub fn from_config_name(s: &str) -> (r: Option<WriteLevel>)
    ensures
        match r {
            Some(l) => level_name(l) == s@,
            None => forall|l: WriteLevel| level_name(l) != s@,
        },
{
    if crate::strs::str_eq(s, "none") {
        Some(WriteLevel::Off)
    } else if crate::strs::str_eq(s, "safe") {
        Some(WriteLevel::Safe)
    } else if crate::strs::str_eq(s, "guarded") {
        Some(WriteLevel::Guarded)
    } else if crate::strs::str_eq(s, "unguarded") {
        Some(WriteLevel::Unguarded)
    } else {
        proof {
            assert forall|l: WriteLevel| level_name(l) != s@ by {
                match l {
                    WriteLevel::Off => {},
                    WriteLevel::Safe => {},
                    WriteLevel::Guarded => {},
                    WriteLevel::Unguarded => {},
                }
            }
        }
        None
    }
}

/// A level's canonical name, upper-cased, parses back to that level (what
/// `to_uppercase` gives for these ASCII names).
pub proof fn law_level_name_upper_round_trip(l: WriteLevel)
    ensures
        crate::strs::all_ascii(level_name(l)),
        spec_parse_level(crate::strs::ascii_upper_seq(level_name(l))) == Some(l),
{
    reveal_strlit("none");
    reveal_strlit("safe");
    reveal_strlit("guarded");
    reveal_strlit("unguarded");
    let n = level_name(l);
    let u = crate::strs::ascii_upper_seq(n);
    assert(ascii_lower_seq(u) =~= n);
    law_level_name_round_trip(l, u);
}

/// On-disk shape of `.ntucool.json`. Every field defaults.
#[derive(Debug, Clone, Copy)]
pub struct Config {
    pub write_level: WriteLevel,
}

impl Config {
    /// The built-in default: writes disabled.
    pub fn new() -> (c: Config)
        ensures
            c.write_level == WriteLevel::Off,
    {
        Config { write_level: WriteLevel::Off }
    }
}

/// The effective write level: the `NTUCOOL_WRITE_LEVEL` value when it is
/// set and valid, else the config file's level.
pub fn effective_write_level(env: Option<&str>, file: Config) -> (r: WriteLevel)
    ensures
        r == match env {
            Some(v) => match spec_parse_level(v@) {
                Some(l) => l,
                None => file.write_level,
            },
            None => file.write_level,
        },
{
    match env {
        Some(v) => match WriteLevel::parse(v) {
            Some(l) => l,
            None => file.write_level,
        },
        None => file.write_level,
    }
}

/// Filename looked up when walking parent directories.
pub const CONFIG_FILENAME: &'static str = ".ntucool.json";

// ───────────────────────────── walking up ─────────────────────────────

/// A path in the plain form the walk works on: no empty component (`//`) and
/// no trailing `/` except for the root `/` itself.
pub open spec fn is_plain_path(p: Seq<char>) -> bool {
    &&& forall|i: int| 0 <= i < p.len() - 1 ==> !(#[trigger] p[i] == '/' && p[i + 1] == '/')
    &&& (p.len() > 1 ==> p.last() != '/')
}

/// The last index of `/` in `p`, or -1.
pub open spec fn last_slash(p: Seq<char>) -> int
    decreases p.len(),
{
    if p.len() == 0 {
        -1
    } else if p.last() == '/' {
        p.len() - 1
    } else {
        last_slash(p.drop_last())
    }
}

/// `Path::parent` of a plain path: the root and the empty path have none; a
/// single relative component has the empty path as parent.
pub open spec fn spec_parent(p: Seq<char>) -> Option<Seq<char>> {
    if p.len() == 0 || p =~= seq!['/'] {
        None
    } else {
        let i = last_slash(p);
        if i < 0 {
            Some(seq![])
        } else if i == 0 {
            Some(seq!['/'])
        } else {
            Some(p.take(i))
        }
    }
}

/// `Path::join` of a directory and a relative file name.
pub open spec fn spec_join(dir: Seq<char>, name: Seq<char>) -> Seq<char> {
    if dir.len() == 0 {
        name
    } else if dir.last() == '/' {
        dir + name
    } else {
        dir + seq!['/'] + name
    }
}

/// The candidates `find_config_file` probes, nearest first: the config file
/// name joined to `start` and to each of its ancestors.
pub open spec fn config_candidates_spec(start: Seq<char>, name: Seq<char>) -> Seq<Seq<char>>
    decreases start.len(),
{
    let here = seq![spec_join(start, name)];
    match spec_parent(start) {
        None => here,
        Some(up) => if up.len() < start.len() {
            here + config_candidates_spec(up, name)
        } else {
            here
        },
    }
}

proof fn lemma_last_slash_bounds(p: Seq<char>)
    ensures
        -1 <= last_slash(p) < p.len(),
        last_slash(p) >= 0 ==> p[last_slash(p)] == '/',
        forall|k: int| last_slash(p) < k < p.len() ==> p[k] != '/',
    decreases p.len(),
{
    if p.len() > 0 && p.last() != '/' {
        lemma_last_slash_bounds(p.drop_last());
        assert forall|k: int| last_slash(p) < k < p.len() implies p[k] != '/' by {
            if k < p.len() - 1 {
                assert(p.drop_last()[k] == p[k]);
            }
        }
    }
}

/// The last `/` of `v`, if any.
fn last_slash_exec(v: &Vec<char>) -> (r: Option<usize>)
    ensures
        match r {
            Some(i) => i == last_slash(v@),
            None => last_slash(v@) == -1,
        },
{
    let mut j = v.len();
    assert(v@.take(j as int) =~= v@);
    while j > 0
        invariant
            j <= v.len(),
            last_slash(v@) == last_slash(v@.take(j as int)),
        decreases j,
    {
        assert(v@.take(j as int).drop_last() =~= v@.take(j - 1));
        if v[j - 1] == '/' {
            return Some(j - 1);
        }
        j = j - 1;
    }
    None
}

/// `spec_join` of a directory and a name.
pub fn join_path(dir: &Vec<char>, name: &str) -> (r: String)
    ensures
        r@ == spec_join(dir@, name@),
{
    let mut r = crate::strs::string_of(dir);
    if dir.len() == 0 {
    } else if dir[dir.len() - 1] == '/' {
    } else {
        crate::strs::push_char(&mut r, '/');
    }
    crate::strs::push_str(&mut r, name);
    r
}

/// Every config-file location `find_config_file` probes, nearest first:
/// `start/.ntucool.json`, then the same under each parent directory.
/// The caller returns the first one that is a file.
pub fn find_config_file(start: &str) -> (r: Vec<String>)
    requires
        is_plain_path(start@),
    ensures
        r@.map_values(|s: String| s@) == config_candidates_spec(start@, CONFIG_FILENAME@),
{
    let mut cur = crate::strs::chars_of(start);
    let mut out: Vec<String> = Vec::new();
    loop
        invariant
            is_plain_path(cur@),
            out@.map_values(|s: String| s@) + config_candidates_spec(cur@, CONFIG_FILENAME@)
                == config_candidates_spec(start@, CONFIG_FILENAME@),
        decreases cur@.len(),
    {
        let ghost old_out = out@.map_values(|s: String| s@);
        let here = join_path(&cur, CONFIG_FILENAME);
        out.push(here);
        assert(out@.map_values(|s: String| s@) =~= old_out.push(spec_join(cur@, CONFIG_FILENAME@)));
        let n = cur.len();
        if n == 0 || (n == 1 && cur[0] == '/') {
            proof {
                if n == 1 {
                    assert(cur@ =~= seq!['/']);
                }
                assert(config_candidates_spec(cur@, CONFIG_FILENAME@) =~= seq![
                    spec_join(cur@, CONFIG_FILENAME@),
                ]);
                assert(old_out + seq![spec_join(cur@, CONFIG_FILENAME@)] =~= out@.map_values(
                    |s: String| s@,
                ));
                assert(out@.map_values(|s: String| s@) + Seq::<Seq<char>>::empty() =~= out@.map_values(
                    |s: String| s@,
                ));
            }
            return out;
        }
        proof {
            lemma_last_slash_bounds(cur@);
            assert(!(cur@ =~= seq!['/']));
        }
        let next: Vec<char> = match last_slash_exec(&cur) {
            None => Vec::new(),
            Some(0) => {
                let mut w: Vec<char> = Vec::new();
                w.push('/');
                w
            },
            Some(i) => {
                let mut w: Vec<char> = Vec::new();
                let mut k: usize = 0;
                while k < i
                    invariant
                        k <= i < cur.len(),
                        w@ == cur@.take(k as int),
                    decreases i - k,
                {
                    w.push(cur[k]);
                    k = k + 1;
                    assert(w@ =~= cur@.take(k as int));
                }
                w
            },
        };
        proof {
            assert(spec_parent(cur@) == Some(next@)) by {
                if last_slash(cur@) == 0 {
                    assert(next@ =~= seq!['/']);
                }
                if last_slash(cur@) < 0 {
                    assert(next@ =~= Seq::<char>::empty());
                }
            }
            assert(next@.len() < cur@.len()) by {
                if last_slash(cur@) == 0 {
                    assert(cur@.len() > 1);
                }
            }
            assert(is_plain_path(next@)) by {
                let i = last_slash(cur@);
                if i > 0 {
                    assert(cur@[i] == '/');
                    assert(cur@[i - 1] != '/');
                    assert(next@.last() == cur@[i - 1]);
                }
            }
            let rest = config_candidates_spec(next@, CONFIG_FILENAME@);
            assert(config_candidates_spec(cur@, CONFIG_FILENAME@) == seq![
                spec_join(cur@, CONFIG_FILENAME@),
            ] + rest);
            assert(old_out + (seq![spec_join(cur@, CONFIG_FILENAME@)] + rest) =~= out@.map_values(
                |s: String| s@,
            ) + rest);
        }
        cur = next;
    }
}

} // verus!
