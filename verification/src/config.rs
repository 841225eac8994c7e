//! The configuration-string parser: a comma-separated list of `MODULE=LEVEL`
//! entries becomes a [`ModLevelMap`]. Parsing never fails: an entry without
//! an `=`, with an empty module name, or with an unrecognized level token is
//! silently skipped, and a later entry for a module overwrites an earlier one.

use vstd::prelude::*;

use crate::level::Level;
use crate::level_map::ModLevelMap;
use crate::text::{chars_eq_ignore_case, chars_subrange, eq_ignore_ascii_case, str_to_chars};

verus! {

/// The level denoted by a token, matched case-insensitively against the
/// fixed synonym table; `None` for an unrecognized token.
pub open spec fn level_of_token(t: Seq<char>) -> Option<Level> {
    if eq_ignore_ascii_case(t, "trace"@) {
        Some(Level::Trace)
    } else if eq_ignore_ascii_case(t, "debug"@) {
        Some(Level::Debug)
    } else if eq_ignore_ascii_case(t, "info"@) {
        Some(Level::Info)
    } else if eq_ignore_ascii_case(t, "warn"@) || eq_ignore_ascii_case(t, "warning"@) {
        Some(Level::Warning)
    } else if eq_ignore_ascii_case(t, "err"@) || eq_ignore_ascii_case(t, "error"@) {
        Some(Level::Error)
    } else if eq_ignore_ascii_case(t, "crit"@) || eq_ignore_ascii_case(t, "critical"@) {
        Some(Level::Critical)
    } else {
        None
    }
}

/// The index of the first `=` in `e`, or -1 if there is none.
pub open spec fn find_eq(e: Seq<char>) -> int
    decreases e.len(),
{
    if e.len() == 0 {
        -1
    } else if e[0] == '=' {
        0
    } else {
        let r = find_eq(e.drop_first());
        if r < 0 {
            -1
        } else {
            r + 1
        }
    }
}

/// The module name and level of a single entry: the part before the first
/// `=` and the level its token denotes. `None` if the entry has no `=`, an
/// empty module name, or an unrecognized level token.
pub open spec fn entry_kv(e: Seq<char>) -> Option<(Seq<char>, Level)> {
    let i = find_eq(e);
    if i <= 0 {
        None
    } else {
        let token = e.subrange(i + 1, e.len() as int);
        match level_of_token(token) {
            Some(l) => Some((e.subrange(0, i), l)),
            None => None,
        }
    }
}

/// What a single entry contributes: one binding, or nothing.
pub open spec fn entry_map(e: Seq<char>) -> Map<Seq<char>, Level> {
    match entry_kv(e) {
        Some(kv) => Map::empty().insert(kv.0, kv.1),
        None => Map::empty(),
    }
}

/// Parses the rest of a configuration string, `cur` being the part of the
/// current entry already read: entries are cut at each comma, and a later
/// entry for a module overwrites an earlier one.
pub open spec fn parse_rec(s: Seq<char>, cur: Seq<char>) -> Map<Seq<char>, Level>
    decreases s.len(),
{
    if s.len() == 0 {
        entry_map(cur)
    } else if s[0] == ',' {
        entry_map(cur).union_prefer_right(parse_rec(s.drop_first(), Seq::empty()))
    } else {
        parse_rec(s.drop_first(), cur.push(s[0]))
    }
}

/// The module-level map denoted by a configuration string.
pub open spec fn parse_levels(s: Seq<char>) -> Map<Seq<char>, Level> {
    parse_rec(s, Seq::empty())
}

proof fn lemma_upr_empty_left(m: Map<Seq<char>, Level>)
    ensures
        Map::<Seq<char>, Level>::empty().union_prefer_right(m) == m,
{
    assert(Map::<Seq<char>, Level>::empty().union_prefer_right(m) =~= m);
}

proof fn lemma_upr_empty_right(m: Map<Seq<char>, Level>)
    ensures
        m.union_prefer_right(Map::<Seq<char>, Level>::empty()) == m,
{
    assert(m.union_prefer_right(Map::<Seq<char>, Level>::empty()) =~= m);
}

proof fn lemma_upr_assoc(a: Map<Seq<char>, Level>, b: Map<Seq<char>, Level>, c: Map<Seq<char>, Level>)
    ensures
        a.union_prefer_right(b).union_prefer_right(c) == a.union_prefer_right(
            b.union_prefer_right(c),
        ),
{
    assert(a.union_prefer_right(b).union_prefer_right(c) =~= a.union_prefer_right(
        b.union_prefer_right(c),
    ));
}

proof fn lemma_upr_insert(m: Map<Seq<char>, Level>, k: Seq<char>, v: Level)
    ensures
        m.union_prefer_right(Map::empty().insert(k, v)) == m.insert(k, v),
{
    assert(m.union_prefer_right(Map::empty().insert(k, v)) =~= m.insert(k, v));
}

proof fn lemma_find_eq_at(e: Seq<char>, j: int)
    requires
        0 <= j < e.len(),
        e[j] == '=',
        forall|jj: int| 0 <= jj < j ==> e[jj] != '=',
    ensures
        find_eq(e) == j,
    decreases j,
{
    if j > 0 {
        let t = e.drop_first();
        assert(t[j - 1] == e[j]);
        assert forall|jj: int| 0 <= jj < j - 1 implies t[jj] != '=' by {
            assert(t[jj] == e[jj + 1]);
        }
        lemma_find_eq_at(t, j - 1);
    }
}

proof fn lemma_find_eq_none(e: Seq<char>)
    requires
        forall|j: int| 0 <= j < e.len() ==> e[j] != '=',
    ensures
        find_eq(e) == -1,
    decreases e.len(),
{
    if e.len() > 0 {
        let t = e.drop_first();
        assert forall|j: int| 0 <= j < t.len() implies t[j] != '=' by {
            assert(t[j] == e[j + 1]);
        }
        lemma_find_eq_none(t);
    }
}

/// Executable form of [`find_eq`].
fn find_eq_index(entry: &Vec<char>) -> (r: Option<usize>)
    ensures
        match r {
            Some(j) => j < entry@.len() && find_eq(entry@) == j,
            None => find_eq(entry@) == -1,
        },
{
    let n = entry.len();
    let mut j: usize = 0;
    while j < n
        invariant
            j <= n,
            n == entry@.len(),
            forall|jj: int| 0 <= jj < j ==> entry@[jj] != '=',
        decreases n - j,
    {
        if entry[j] == '=' {
            proof {
                lemma_find_eq_at(entry@, j as int);
            }
            return Some(j);
        }
        j = j + 1;
    }
    proof {
        lemma_find_eq_none(entry@);
    }
    None
}

/// Executable form of [`level_of_token`].
fn level_for_token(token: &Vec<char>) -> (r: Option<Level>)
    ensures
        r == level_of_token(token@),
{
    if chars_eq_ignore_case(token, "trace") {
        Some(Level::Trace)
    } else if chars_eq_ignore_case(token, "debug") {
        Some(Level::Debug)
    } else if chars_eq_ignore_case(token, "info") {
        Some(Level::Info)
    } else if chars_eq_ignore_case(token, "warn") || chars_eq_ignore_case(token, "warning") {
        Some(Level::Warning)
    } else if chars_eq_ignore_case(token, "err") || chars_eq_ignore_case(token, "error") {
        Some(Level::Error)
    } else if chars_eq_ignore_case(token, "crit") || chars_eq_ignore_case(token, "critical") {
        Some(Level::Critical)
    } else {
        None
    }
}

/// Adds to `m` whatever the single entry `entry` contributes.
fn apply_entry(m: &mut ModLevelMap, entry: &Vec<char>)
    ensures
        final(m)@ == old(m)@.union_prefer_right(entry_map(entry@)),
{
    let ghost m0 = m@;
    let n = entry.len();
    match find_eq_index(entry) {
        Some(j) => {
            if j > 0 {
                let token = chars_subrange(entry, j + 1, n);
                match level_for_token(&token) {
                    Some(level) => {
                        let module = chars_subrange(entry, 0, j);
                        let ghost k = module@;
                        m.insert_chars(module, level);
                        proof {
                            lemma_upr_insert(m0, k, level);
                        }
                    },
                    None => {
                        proof {
                            lemma_upr_empty_right(m0);
                        }
                    },
                }
            } else {
                proof {
                    lemma_upr_empty_right(m0);
                }
            }
        },
        None => {
            proof {
                lemma_upr_empty_right(m0);
            }
        },
    }
}

/// A comma-separated list of `MODULE=LEVEL` entries configuring per-module
/// minimum severity levels.
#[derive(Debug, Clone)]
pub struct ModLevelFilterConfig(pub String);

impl ModLevelFilterConfig {
    /// Parses the configuration string into a module-level map. Parsing
    /// never fails: malformed entries contribute nothing, and at worst the
    /// map comes out empty.
    pub fn parse(&self) -> (m: ModLevelMap)
        ensures
            m@ == parse_levels(self.0@),
    {
        let cs = str_to_chars(self.0.as_str());
        let mut m = ModLevelMap::new();
        let mut cur: Vec<char> = Vec::new();
        let n = cs.len();
        let mut i: usize = 0;
        proof {
            assert(cs@.skip(0) =~= cs@);
            lemma_upr_empty_left(parse_rec(cs@, Seq::empty()));
        }
        while i < n
            invariant
                i <= n,
                n == cs@.len(),
                cs@ == self.0@,
                parse_levels(cs@) == m@.union_prefer_right(parse_rec(cs@.skip(i as int), cur@)),
            decreases n - i,
        {
            let ghost m0 = m@;
            let ghost cur0 = cur@;
            let c = cs[i];
            proof {
                assert(cs@.skip(i as int)[0] == c);
                assert(cs@.skip(i as int).drop_first() =~= cs@.skip(i + 1));
            }
            if c == ',' {
                apply_entry(&mut m, &cur);
                cur = Vec::new();
                proof {
                    lemma_upr_assoc(
                        m0,
                        entry_map(cur0),
                        parse_rec(cs@.skip(i + 1), Seq::empty()),
                    );
                }
            } else {
                cur.push(c);
            }
            i = i + 1;
        }
        proof {
            assert(cs@.skip(n as int) =~= Seq::<char>::empty());
        }
        apply_entry(&mut m, &cur);
        m
    }
}

/// Parsing the concatenation of two configuration strings, a comma between
/// them, gives the two maps combined, the right-hand one winning where both
/// set a level for the same module: entries later in a configuration string
/// overwrite earlier ones.
pub proof fn lemma_parse_append(s1: Seq<char>, s2: Seq<char>)
    ensures
        parse_levels(s1 + seq![','] + s2) == parse_levels(s1).union_prefer_right(parse_levels(s2)),
{
    lemma_parse_rec_append(s1, s2, Seq::empty());
}

proof fn lemma_parse_rec_append(s1: Seq<char>, s2: Seq<char>, cur: Seq<char>)
    ensures
        parse_rec(s1 + seq![','] + s2, cur) == parse_rec(s1, cur).union_prefer_right(
            parse_levels(s2),
        ),
    decreases s1.len(),
{
    let s = s1 + seq![','] + s2;
    if s1.len() == 0 {
        assert(s[0] == ',');
        assert(s.drop_first() =~= s2);
    } else {
        assert(s[0] == s1[0]);
        assert(s.drop_first() =~= s1.drop_first() + seq![','] + s2);
        if s1[0] == ',' {
            lemma_parse_rec_append(s1.drop_first(), s2, Seq::empty());
            lemma_upr_assoc(
                entry_map(cur),
                parse_rec(s1.drop_first(), Seq::empty()),
                parse_levels(s2),
            );
        } else {
            lemma_parse_rec_append(s1.drop_first(), s2, cur.push(s1[0]));
        }
    }
}

/// Where the right-hand configuration sets a level for a module, the
/// combined configuration sets that same level: the last write wins.
pub proof fn lemma_last_write_wins(s1: Seq<char>, s2: Seq<char>, module: Seq<char>)
    requires
        parse_levels(s2).contains_key(module),
    ensures
        parse_levels(s1 + seq![','] + s2).contains_key(module),
        parse_levels(s1 + seq![','] + s2)[module] == parse_levels(s2)[module],
{
    lemma_parse_append(s1, s2);
}

} // verus!
