//! The SSH configuration tree, and what it says of a host alias.

use vstd::prelude::*;
use vstd::string::*;
use vstd::utf8::encode_utf8;
use crate::listing::{lemma_lex_total, lemma_lex_transitive, lex_lt, str_lex_lt};
use crate::text::{ascii_lowercase, spec_ascii_lower, str_eq, views};

verus! {

/// A tree of SSH configuration files, from the user's main file down through
/// its `Include`s.
#[derive(Debug)]
pub struct ConfigTree {
    pub root: FileNode,
}

/// One parsed SSH configuration file.
#[derive(Debug)]
pub struct FileNode {
    pub path: String,
    /// The `Host` blocks of this file, in order.
    pub hosts: Vec<HostEntry>,
    /// The files that this file includes, in order.
    pub includes: Vec<FileNode>,
    /// The `Match` blocks of this file, in order.
    pub matches: Vec<MatchRule>,
}

/// One `Host` block.
#[derive(Debug, Clone)]
pub struct HostEntry {
    pub patterns: Vec<String>,
    /// Parameters with lower-cased names, each name once (see `wf`), in the
    /// order first set; setting a name again replaces its value.
    pub params: Vec<(String, String)>,
    pub source: String,
    /// The line of the `Host` keyword, from 1.
    pub line: usize,
}

/// One `Match` block.
#[derive(Debug, Clone)]
pub struct MatchRule {
    pub conditions: Vec<MatchCond>,
    pub params: Vec<(String, String)>,
    pub source: String,
    pub line: usize,
}

/// The `Match` criteria that are understood.
#[derive(Debug, Clone)]
pub enum MatchCond {
    Host(Vec<String>),
    User(Vec<String>),
    All,
}

/// Each parameter name occurs once.
pub open spec fn unique_keys(params: Seq<(String, String)>) -> bool {
    forall|i: int, j: int|
        0 <= i < j < params.len() ==> (#[trigger] params[i]).0@ != (#[trigger] params[j]).0@
}

impl HostEntry {
    /// A well-formed block names each parameter once.
    pub open spec fn wf(&self) -> bool {
        unique_keys(self.params@)
    }
}

impl MatchRule {
    /// A well-formed block names each parameter once.
    pub open spec fn wf(&self) -> bool {
        unique_keys(self.params@)
    }
}

/// The value of parameter `key` (its last occurrence, the only one in a
/// well-formed block).
pub open spec fn param(params: Seq<(String, String)>, key: Seq<char>) -> Option<Seq<char>>
    decreases params.len(),
{
    if params.len() == 0 {
        None
    } else if params.last().0@ == key {
        Some(params.last().1@)
    } else {
        param(params.drop_last(), key)
    }
}

fn lookup_param<'a>(params: &'a Vec<(String, String)>, key: &str) -> (r: Option<&'a String>)
    ensures
        match r {
            Some(v) => param(params@, key@) == Some(v@),
            None => param(params@, key@) is None,
        },
{
    let mut i: usize = params.len();
    assert(params@.subrange(0, i as int) == params@);
    while i > 0
        invariant
            i <= params@.len(),
            param(params@, key@) == param(params@.subrange(0, i as int), key@),
        decreases i,
    {
        let ghost pre = params@.subrange(0, i as int);
        assert(pre.last() == params@[i - 1]);
        assert(pre.drop_last() == params@.subrange(0, i - 1));
        if str_eq(params[i - 1].0.as_str(), key) {
            return Some(&params[i - 1].1);
        }
        i = i - 1;
    }
    None
}

impl HostEntry {
    /// The parameter `key`, whose name is matched without regard to ASCII case.
    pub fn get(&self, key: &str) -> (r: Option<&str>)
        ensures
            match r {
                Some(v) => param(self.params@, spec_ascii_lower(key@)) == Some(v@),
                None => param(self.params@, spec_ascii_lower(key@)) is None,
            },
    {
        let k = ascii_lowercase(key);
        match lookup_param(&self.params, k.as_str()) {
            Some(v) => Some(v.as_str()),
            None => None,
        }
    }
}

/// Shell-style wildcard matching on bytes: `*` matches any run of bytes,
/// `?` exactly one, every other byte itself.
pub open spec fn glob(p: Seq<u8>, s: Seq<u8>) -> bool
    decreases p.len() + s.len(),
{
    if p.len() == 0 {
        s.len() == 0
    } else if p[0] == 42u8 {
        glob(p.drop_first(), s) || (s.len() > 0 && glob(p, s.drop_first()))
    } else {
        s.len() > 0 && (p[0] == 63u8 || p[0] == s[0]) && glob(p.drop_first(), s.drop_first())
    }
}

pub open spec fn glob_from(p: Seq<u8>, s: Seq<u8>, i: int, j: int) -> bool {
    glob(p.subrange(i, p.len() as int), s.subrange(j, s.len() as int))
}

proof fn lemma_glob_step(p: Seq<u8>, s: Seq<u8>, i: int, j: int)
    requires
        0 <= i <= p.len(),
        0 <= j <= s.len(),
    ensures
        glob_from(p, s, i, j) == if i == p.len() {
            j == s.len()
        } else if p[i] == 42u8 {
            glob_from(p, s, i + 1, j) || (j < s.len() && glob_from(p, s, i, j + 1))
        } else {
            j < s.len() && (p[i] == 63u8 || p[i] == s[j]) && glob_from(p, s, i + 1, j + 1)
        },
{
    let ps = p.subrange(i, p.len() as int);
    let ss = s.subrange(j, s.len() as int);
    if i < p.len() {
        assert(ps.drop_first() == p.subrange(i + 1, p.len() as int));
        assert(ps[0] == p[i]);
    }
    if j < s.len() {
        assert(ss.drop_first() == s.subrange(j + 1, s.len() as int));
        assert(ss[0] == s[j]);
    }
}

/// Whether `pattern` matches `text` as a wildcard pattern.
pub fn glob_match(pattern: &str, text: &str) -> (r: bool)
    ensures
        r == glob(pattern.spec_bytes(), text.spec_bytes()),
{
    let p = pattern.as_bytes();
    let s = text.as_bytes();
    let m = p.len();
    let n = s.len();
    // `next[j]` tells whether the pattern from `i + 1` matches the text from `j`.
    let mut next: Vec<bool> = Vec::new();
    let mut j: usize = 0;
    while j < n
        invariant
            n == s@.len(),
            m == p@.len(),
            j <= n,
            next@.len() == j,
            forall|k: int| 0 <= k < j ==> #[trigger] next@[k] == glob_from(p@, s@, m as int, k),
        decreases n - j,
    {
        proof {
            lemma_glob_step(p@, s@, m as int, j as int);
        }
        next.push(false);
        j = j + 1;
    }
    proof {
        lemma_glob_step(p@, s@, m as int, n as int);
    }
    next.push(true);
    let mut i: usize = m;
    while i > 0
        invariant
            n == s@.len(),
            m == p@.len(),
            i <= m,
            next@.len() == n + 1,
            forall|k: int| 0 <= k <= n ==> #[trigger] next@[k] == glob_from(p@, s@, i as int, k),
        decreases i,
    {
        let c = p[i - 1];
        let mut cur: Vec<bool> = Vec::new();
        let mut k: usize = 0;
        while k < n
            invariant
                k <= n,
                cur@.len() == k,
            decreases n - k,
        {
            cur.push(false);
            k = k + 1;
        }
        cur.push(false);
        let mut t: usize = n;
        loop
            invariant
                n == s@.len(),
                m == p@.len(),
                0 < i <= m,
                c == p@[i - 1],
                next@.len() == n + 1,
                forall|u: int| 0 <= u <= n ==> #[trigger] next@[u] == glob_from(p@, s@, i as int, u),
                t <= n,
                cur@.len() == n + 1,
                forall|u: int| t < u <= n ==> #[trigger] cur@[u] == glob_from(p@, s@, i - 1, u),
            ensures
                cur@.len() == n + 1,
                forall|u: int| 0 <= u <= n ==> #[trigger] cur@[u] == glob_from(p@, s@, i - 1, u),
            decreases t,
        {
            proof {
                lemma_glob_step(p@, s@, i - 1, t as int);
            }
            let v = if c == 42u8 {
                next[t] || (t < n && cur[t + 1])
            } else {
                t < n && (c == 63u8 || c == s[t]) && next[t + 1]
            };
            cur.set(t, v);
            if t == 0 {
                break;
            }
            t = t - 1;
        }
        next = cur;
        i = i - 1;
    }
    proof {
        assert(p@.subrange(0, m as int) == p@);
        assert(s@.subrange(0, n as int) == s@);
    }
    next[0]
}

/// `s` holds a bracket expression: a `[`, then one or more characters other
/// than `]`, then a `]`.
pub open spec fn has_bracket_class(s: Seq<char>) -> bool {
    exists|i: int, j: int|
        0 <= i && i + 1 < j < s.len() && #[trigger] s[i] == '[' && #[trigger] s[j] == ']' && (
        forall|k: int| i < k < j ==> s[k] != ']')
}

/// Relies on `regex::Regex::new` and `Regex::is_match` for the pattern
/// `\[[^]]+\]`, which compiles (a `]` first in a class is literal) and finds
/// a bracket expression anywhere in the text.
#[verifier::external_body]
fn bracket_class_in(s: &str) -> (r: bool)
    ensures
        r == has_bracket_class(s@),
{
    regex::Regex::new(r"\[[^]]+\]").unwrap().is_match(s)
}

/// A host pattern with wildcards or a bracket expression.
pub open spec fn is_glob(s: Seq<char>) -> bool {
    s.contains('*') || s.contains('?') || has_bracket_class(s)
}

pub fn is_glob_pattern(s: &str) -> (r: bool)
    ensures
        r == is_glob(s@),
{
    let n = s.unicode_len();
    let mut i: usize = 0;
    while i < n
        invariant
            n == s@.len(),
            i <= n,
            forall|j: int| 0 <= j < i ==> s@[j] != '*' && s@[j] != '?',
        decreases n - i,
    {
        let c = s.get_char(i);
        if c == '*' || c == '?' {
            assert(s@[i as int] == c);
            return true;
        }
        i = i + 1;
    }
    bracket_class_in(s)
}

/// A pattern of a `Host` line or `Match` criterion selects `x`: literally,
/// or as a wildcard pattern.
pub open spec fn pattern_hits(p: Seq<char>, x: Seq<char>) -> bool {
    p == x || (is_glob(p) && glob(encode_utf8(p), encode_utf8(x)))
}

pub fn pattern_matches(p: &str, x: &str) -> (r: bool)
    ensures
        r == pattern_hits(p@, x@),
{
    str_eq(p, x) || (is_glob_pattern(p) && glob_match(p, x))
}

pub open spec fn any_hits(pats: Seq<String>, x: Seq<char>) -> bool {
    exists|k: int| 0 <= k < pats.len() && pattern_hits(#[trigger] pats[k]@, x)
}

fn any_matches(pats: &Vec<String>, x: &str) -> (r: bool)
    ensures
        r == any_hits(pats@, x@),
{
    let mut k: usize = 0;
    while k < pats.len()
        invariant
            k <= pats@.len(),
            forall|t: int| 0 <= t < k ==> !pattern_hits(#[trigger] pats@[t]@, x@),
        decreases pats@.len() - k,
    {
        if pattern_matches(pats[k].as_str(), x) {
            return true;
        }
        k = k + 1;
    }
    false
}

/// A `Match` criterion holds for the alias and the user chosen so far.
pub open spec fn cond_holds(c: MatchCond, alias: Seq<char>, user: Option<Seq<char>>) -> bool {
    match c {
        MatchCond::All => true,
        MatchCond::Host(pats) => any_hits(pats@, alias),
        MatchCond::User(pats) => user is Some && any_hits(pats@, user->Some_0),
    }
}

pub open spec fn rule_holds(m: MatchRule, alias: Seq<char>, user: Option<Seq<char>>) -> bool {
    forall|k: int| 0 <= k < m.conditions@.len() ==> cond_holds(#[trigger] m.conditions@[k], alias, user)
}

fn rule_applies(m: &MatchRule, alias: &str, user: &Option<String>) -> (r: bool)
    ensures
        r == rule_holds(*m, alias@, match user {
            Some(u) => Some(u@),
            None => None,
        }),
{
    let ghost uv: Option<Seq<char>> = match user {
        Some(u) => Some(u@),
        None => None,
    };
    let mut k: usize = 0;
    while k < m.conditions.len()
        invariant
            k <= m.conditions@.len(),
            uv == match user {
                Some(u) => Some(u@),
                None => None::<Seq<char>>,
            },
            forall|t: int| 0 <= t < k ==> cond_holds(#[trigger] m.conditions@[t], alias@, uv),
        decreases m.conditions@.len() - k,
    {
        let ok = match &m.conditions[k] {
            MatchCond::All => true,
            MatchCond::Host(pats) => any_matches(pats, alias),
            MatchCond::User(pats) => match user {
                Some(u) => any_matches(pats, u.as_str()),
                None => false,
            },
        };
        if !ok {
            return false;
        }
        k = k + 1;
    }
    true
}

/// The files of a forest, each before the files it includes, depth first.
pub open spec fn flatten(s: Seq<FileNode>) -> Seq<FileNode>
    decreases s,
{
    if s.len() == 0 {
        Seq::empty()
    } else {
        seq![s[0]] + flatten(s[0].includes@) + flatten(s.subrange(1, s.len() as int))
    }
}

/// The files of a configuration tree, the main file first, depth first.
pub open spec fn tree_files(tree: ConfigTree) -> Seq<FileNode> {
    seq![tree.root] + flatten(tree.root.includes@)
}

pub open spec fn derefs(s: Seq<&FileNode>) -> Seq<FileNode> {
    s.map_values(|r: &FileNode| *r)
}

fn collect<'a>(files: &'a Vec<FileNode>, out: &mut Vec<&'a FileNode>)
    ensures
        derefs(final(out)@) == derefs(old(out)@) + flatten(files@),
    decreases files,
{
    let n = files.len();
    let mut i: usize = 0;
    assert(files@.subrange(0, n as int) == files@);
    let ghost start = derefs(out@);
    while i < n
        invariant
            n == files@.len(),
            i <= n,
            derefs(out@) + flatten(files@.subrange(i as int, n as int)) == start + flatten(files@),
        decreases n - i,
    {
        let ghost rest = files@.subrange(i as int, n as int);
        assert(rest[0] == files@[i as int]);
        assert(rest.subrange(1, rest.len() as int) == files@.subrange(i + 1, n as int));
        let ghost before = derefs(out@);
        out.push(&files[i]);
        assert(derefs(out@) == before.push(files@[i as int]));
        assert(decreases_to!(files => files[i as int]));
        collect(&files[i].includes, out);
        assert(derefs(out@) + flatten(files@.subrange(i + 1, n as int)) == before + flatten(rest));
        i = i + 1;
    }
    assert(files@.subrange(n as int, n as int) == Seq::<FileNode>::empty());
}

/// The files of `tree`, in the order that `tree_files` gives.
fn files_of<'a>(tree: &'a ConfigTree) -> (r: Vec<&'a FileNode>)
    ensures
        derefs(r@) == tree_files(*tree),
{
    let mut out: Vec<&'a FileNode> = Vec::new();
    out.push(&tree.root);
    assert(derefs(out@) == seq![tree.root]);
    collect(&tree.root.includes, &mut out);
    out
}

/// The `Host` blocks of `files`, file by file.
pub open spec fn hosts_of(files: Seq<FileNode>) -> Seq<HostEntry>
    decreases files.len(),
{
    if files.len() == 0 {
        Seq::empty()
    } else {
        hosts_of(files.drop_last()) + files.last().hosts@
    }
}

/// The `Match` blocks of `files`, file by file.
pub open spec fn rules_of(files: Seq<FileNode>) -> Seq<MatchRule>
    decreases files.len(),
{
    if files.len() == 0 {
        Seq::empty()
    } else {
        rules_of(files.drop_last()) + files.last().matches@
    }
}

pub open spec fn names_exactly(h: HostEntry, alias: Seq<char>) -> bool {
    exists|k: int| 0 <= k < h.patterns@.len() && #[trigger] h.patterns@[k]@ == alias
}

pub open spec fn names_by_glob(h: HostEntry, alias: Seq<char>) -> bool {
    exists|k: int|
        0 <= k < h.patterns@.len() && is_glob(#[trigger] h.patterns@[k]@) && glob(
            encode_utf8(h.patterns@[k]@),
            encode_utf8(alias),
        )
}

/// Whether `h` is a candidate: naming the alias exactly (`exact`), or else
/// only through a wildcard pattern.
pub open spec fn candidate(h: HostEntry, alias: Seq<char>, exact: bool) -> bool {
    if exact {
        names_exactly(h, alias)
    } else {
        !names_exactly(h, alias) && names_by_glob(h, alias)
    }
}

/// The candidate declared on the greatest line; the first one among equals.
pub open spec fn best_host(hs: Seq<HostEntry>, alias: Seq<char>, exact: bool) -> Option<HostEntry>
    decreases hs.len(),
{
    if hs.len() == 0 {
        None
    } else {
        let b = best_host(hs.drop_last(), alias, exact);
        let h = hs.last();
        if candidate(h, alias, exact) && (b is None || h.line > b->Some_0.line) {
            Some(h)
        } else {
            b
        }
    }
}

/// The user that the best `Host` block for the alias names: an exact match is
/// preferred to a wildcard one.
pub open spec fn host_user(hs: Seq<HostEntry>, alias: Seq<char>) -> Option<Seq<char>> {
    let base = match best_host(hs, alias, true) {
        Some(h) => Some(h),
        None => best_host(hs, alias, false),
    };
    match base {
        Some(h) => param(h.params@, "user"@),
        None => None,
    }
}

/// The user after the `Match` blocks: each one whose criteria hold for the
/// user so far and that sets a user replaces it.
pub open spec fn apply_rules(rules: Seq<MatchRule>, alias: Seq<char>, user: Option<Seq<char>>) -> Option<
    Seq<char>,
>
    decreases rules.len(),
{
    if rules.len() == 0 {
        user
    } else {
        let u = apply_rules(rules.drop_last(), alias, user);
        let m = rules.last();
        if rule_holds(m, alias, u) && param(m.params@, "user"@) is Some {
            param(m.params@, "user"@)
        } else {
            u
        }
    }
}

/// The user that the configuration selects for `alias`.
pub open spec fn effective_user(tree: ConfigTree, alias: Seq<char>) -> Option<Seq<char>> {
    let files = tree_files(tree);
    apply_rules(rules_of(files), alias, host_user(hosts_of(files), alias))
}

pub open spec fn host_derefs(s: Seq<&HostEntry>) -> Seq<HostEntry> {
    s.map_values(|r: &HostEntry| *r)
}

pub open spec fn rule_derefs(s: Seq<&MatchRule>) -> Seq<MatchRule> {
    s.map_values(|r: &MatchRule| *r)
}

fn all_hosts<'a>(files: &Vec<&'a FileNode>) -> (r: (Vec<&'a HostEntry>, Vec<&'a MatchRule>))
    ensures
        host_derefs(r.0@) == hosts_of(derefs(files@)),
        rule_derefs(r.1@) == rules_of(derefs(files@)),
{
    let ghost fs = derefs(files@);
    let mut hs: Vec<&'a HostEntry> = Vec::new();
    let mut rs: Vec<&'a MatchRule> = Vec::new();
    let mut i: usize = 0;
    assert(fs.subrange(0, 0) == Seq::<FileNode>::empty());
    while i < files.len()
        invariant
            fs == derefs(files@),
            i <= files@.len(),
            host_derefs(hs@) == hosts_of(fs.subrange(0, i as int)),
            rule_derefs(rs@) == rules_of(fs.subrange(0, i as int)),
        decreases files@.len() - i,
    {
        let f: &'a FileNode = files[i];
        assert(fs.subrange(0, i + 1).drop_last() == fs.subrange(0, i as int));
        assert(fs.subrange(0, i + 1).last() == *f);
        let ghost h0 = host_derefs(hs@);
        let mut j: usize = 0;
        while j < f.hosts.len()
            invariant
                j <= f.hosts@.len(),
                host_derefs(hs@) == h0 + f.hosts@.subrange(0, j as int),
            decreases f.hosts@.len() - j,
        {
            let ghost hb = host_derefs(hs@);
            hs.push(&f.hosts[j]);
            assert(host_derefs(hs@) == hb.push(f.hosts@[j as int]));
            assert(f.hosts@.subrange(0, j + 1) == f.hosts@.subrange(0, j as int).push(f.hosts@[j as int]));
            j = j + 1;
        }
        assert(f.hosts@.subrange(0, f.hosts@.len() as int) == f.hosts@);
        let ghost r0 = rule_derefs(rs@);
        let mut k: usize = 0;
        while k < f.matches.len()
            invariant
                k <= f.matches@.len(),
                rule_derefs(rs@) == r0 + f.matches@.subrange(0, k as int),
            decreases f.matches@.len() - k,
        {
            let ghost rb = rule_derefs(rs@);
            rs.push(&f.matches[k]);
            assert(rule_derefs(rs@) == rb.push(f.matches@[k as int]));
            assert(f.matches@.subrange(0, k + 1) == f.matches@.subrange(0, k as int).push(
                f.matches@[k as int],
            ));
            k = k + 1;
        }
        assert(f.matches@.subrange(0, f.matches@.len() as int) == f.matches@);
        i = i + 1;
    }
    assert(fs.subrange(0, files@.len() as int) == fs);
    (hs, rs)
}

fn names_alias(h: &HostEntry, alias: &str) -> (r: (bool, bool))
    ensures
        r.0 == names_exactly(*h, alias@),
        r.1 == names_by_glob(*h, alias@),
{
    let mut exact = false;
    let mut by_glob = false;
    let mut k: usize = 0;
    while k < h.patterns.len()
        invariant
            k <= h.patterns@.len(),
            exact == exists|t: int| 0 <= t < k && #[trigger] h.patterns@[t]@ == alias@,
            by_glob == exists|t: int|
                0 <= t < k && is_glob(#[trigger] h.patterns@[t]@) && glob(
                    encode_utf8(h.patterns@[t]@),
                    encode_utf8(alias@),
                ),
        decreases h.patterns@.len() - k,
    {
        let p = h.patterns[k].as_str();
        if str_eq(p, alias) {
            exact = true;
        }
        if is_glob_pattern(p) && glob_match(p, alias) {
            by_glob = true;
        }
        k = k + 1;
    }
    (exact, by_glob)
}

/// The user that the configuration selects for `alias`: from the best
/// matching `Host` block (an exact match before a wildcard one, the latest
/// line among equals), then replaced by each `Match` block whose criteria hold.
pub fn effective_user_for_alias(tree: &ConfigTree, alias: &str) -> (r: Option<String>)
    ensures
        match r {
            Some(u) => effective_user(*tree, alias@) == Some(u@),
            None => effective_user(*tree, alias@) is None,
        },
{
    let files = files_of(tree);
    let (hs, rs) = all_hosts(&files);
    let ghost hv = host_derefs(hs@);
    let mut best_exact: Option<&HostEntry> = None;
    let mut best_glob: Option<&HostEntry> = None;
    let mut i: usize = 0;
    assert(hv.subrange(0, 0) == Seq::<HostEntry>::empty());
    while i < hs.len()
        invariant
            hv == host_derefs(hs@),
            i <= hs@.len(),
            match best_exact {
                Some(h) => best_host(hv.subrange(0, i as int), alias@, true) == Some(*h),
                None => best_host(hv.subrange(0, i as int), alias@, true) is None,
            },
            match best_glob {
                Some(h) => best_host(hv.subrange(0, i as int), alias@, false) == Some(*h),
                None => best_host(hv.subrange(0, i as int), alias@, false) is None,
            },
        decreases hs@.len() - i,
    {
        let h: &HostEntry = hs[i];
        assert(hv.subrange(0, i + 1).drop_last() == hv.subrange(0, i as int));
        assert(hv.subrange(0, i + 1).last() == *h);
        let (exact, by_glob) = names_alias(h, alias);
        if exact {
            let better = match best_exact {
                Some(b) => h.line > b.line,
                None => true,
            };
            if better {
                best_exact = Some(h);
            }
        } else if by_glob {
            let better = match best_glob {
                Some(b) => h.line > b.line,
                None => true,
            };
            if better {
                best_glob = Some(h);
            }
        }
        i = i + 1;
    }
    assert(hv.subrange(0, hs@.len() as int) == hv);
    let base = match best_exact {
        Some(h) => Some(h),
        None => best_glob,
    };
    let mut user: Option<String> = match base {
        Some(h) => match lookup_param(&h.params, "user") {
            Some(u) => Some(u.clone()),
            None => None,
        },
        None => None,
    };
    let ghost rv = rule_derefs(rs@);
    let ghost u0 = host_user(hv, alias@);
    let mut k: usize = 0;
    assert(rv.subrange(0, 0) == Seq::<MatchRule>::empty());
    while k < rs.len()
        invariant
            rv == rule_derefs(rs@),
            k <= rs@.len(),
            match user {
                Some(u) => apply_rules(rv.subrange(0, k as int), alias@, u0) == Some(u@),
                None => apply_rules(rv.subrange(0, k as int), alias@, u0) is None,
            },
        decreases rs@.len() - k,
    {
        let m: &MatchRule = rs[k];
        assert(rv.subrange(0, k + 1).drop_last() == rv.subrange(0, k as int));
        assert(rv.subrange(0, k + 1).last() == *m);
        if rule_applies(m, alias, &user) {
            match lookup_param(&m.params, "user") {
                Some(v) => {
                    user = Some(v.clone());
                },
                None => {},
            }
        }
        k = k + 1;
    }
    assert(rv.subrange(0, rs@.len() as int) == rv);
    user
}

/// The names of `tree`'s `Host` patterns that hold no wildcard.
pub open spec fn is_alias_of(tree: ConfigTree, a: Seq<char>) -> bool {
    let hs = hosts_of(tree_files(tree));
    !is_glob(a) && exists|h: int, k: int|
        0 <= h < hs.len() && 0 <= k < hs[h].patterns@.len() && #[trigger] hs[h].patterns@[k]@ == a
}

/// Each name strictly before the next, in the order of `String`'s `Ord`.
pub open spec fn strictly_sorted(s: Seq<Seq<char>>) -> bool {
    forall|i: int, j: int| 0 <= i < j < s.len() ==> lex_lt(#[trigger] s[i], #[trigger] s[j])
}

fn insert_unique(out: &mut Vec<String>, x: &String)
    requires
        strictly_sorted(views(old(out)@)),
    ensures
        strictly_sorted(views(final(out)@)),
        forall|a: Seq<char>|
            #![trigger views(final(out)@).contains(a)]
            views(final(out)@).contains(a) <==> views(old(out)@).contains(a) || a == x@,
{
    let ghost o = views(out@);
    let n = out.len();
    let mut p: usize = 0;
    while p < n && str_lex_lt(out[p].as_str(), x.as_str())
        invariant
            n == out@.len(),
            o == views(out@),
            p <= n,
            forall|i: int| 0 <= i < p ==> lex_lt(#[trigger] o[i], x@),
        decreases n - p,
    {
        assert(o[p as int] == out@[p as int]@);
        p = p + 1;
    }
    if p < n && str_eq(out[p].as_str(), x.as_str()) {
        assert(o[p as int] == x@);
        assert(o.contains(x@));
        return;
    }
    proof {
        if p < n {
            assert(o[p as int] == out@[p as int]@);
            lemma_lex_total(o[p as int], x@);
            assert(lex_lt(x@, o[p as int]));
            assert forall|i: int| p <= i < n implies lex_lt(x@, #[trigger] o[i]) by {
                if i > p {
                    lemma_lex_transitive(x@, o[p as int], o[i]);
                }
            }
        }
    }
    out.insert(p, x.clone());
    proof {
        let no = views(out@);
        assert(no == o.insert(p as int, x@));
        assert forall|i: int, j: int| 0 <= i < j < no.len() implies lex_lt(#[trigger] no[i], #[trigger] no[j]) by {
            if j < p {
            } else if j == p {
            } else if i < p {
                lemma_lex_transitive(no[i], x@, no[j]);
            } else if i == p {
            } else {
            }
        }
        assert forall|a: Seq<char>| #![trigger no.contains(a)] no.contains(a) <==> o.contains(a) || a == x@ by {
            if o.contains(a) {
                let t = choose|t: int| 0 <= t < o.len() && o[t] == a;
                if t < p {
                    assert(no[t] == a);
                } else {
                    assert(no[t + 1] == a);
                }
            }
            if a == x@ {
                assert(no[p as int] == a);
            }
            if no.contains(a) {
                let t = choose|t: int| 0 <= t < no.len() && no[t] == a;
                if t < p {
                    assert(o[t] == a);
                } else if t > p {
                    assert(o[t - 1] == a);
                }
            }
        }
    }
}

/// The concrete host aliases of the tree (patterns without wildcards), each
/// once, sorted.
pub fn list_aliases(tree: &ConfigTree) -> (r: Vec<String>)
    ensures
        strictly_sorted(views(r@)),
        forall|a: Seq<char>| #![trigger views(r@).contains(a)] views(r@).contains(a) <==> is_alias_of(*tree, a),
{
    let files = files_of(tree);
    let (hs, _rs) = all_hosts(&files);
    let ghost hv = host_derefs(hs@);
    let mut out: Vec<String> = Vec::new();
    let mut i: usize = 0;
    while i < hs.len()
        invariant
            hv == host_derefs(hs@),
            hv == hosts_of(tree_files(*tree)),
            i <= hs@.len(),
            strictly_sorted(views(out@)),
            forall|a: Seq<char>|
                #![trigger views(out@).contains(a)]
                views(out@).contains(a) <==> !is_glob(a) && exists|h: int, k: int|
                    0 <= h < i && 0 <= k < hv[h].patterns@.len() && #[trigger] hv[h].patterns@[k]@
                        == a,
        decreases hs@.len() - i,
    {
        let h: &HostEntry = hs[i];
        assert(hv[i as int] == *h);
        let ghost before = views(out@);
        let mut k: usize = 0;
        while k < h.patterns.len()
            invariant
                hv == host_derefs(hs@),
                i < hs@.len(),
                hv[i as int] == *h,
                k <= h.patterns@.len(),
                strictly_sorted(views(out@)),
                forall|a: Seq<char>|
                    #![trigger views(out@).contains(a)]
                    views(out@).contains(a) <==> before.contains(a) || (!is_glob(a) && exists|t: int|
                        0 <= t < k && #[trigger] h.patterns@[t]@ == a),
            decreases h.patterns@.len() - k,
        {
            let p = &h.patterns[k];
            if !is_glob_pattern(p.as_str()) {
                insert_unique(&mut out, p);
            }
            proof {
                assert forall|a: Seq<char>|
                    #![trigger views(out@).contains(a)]
                    views(out@).contains(a) <==> before.contains(a) || (!is_glob(a) && exists|t: int|
                        0 <= t < k + 1 && #[trigger] h.patterns@[t]@ == a) by {
                    if !is_glob(a) && h.patterns@[k as int]@ == a {
                        assert(exists|t: int| 0 <= t < k + 1 && #[trigger] h.patterns@[t]@ == a);
                    }
                }
            }
            k = k + 1;
        }
        proof {
            assert forall|a: Seq<char>|
                #![trigger views(out@).contains(a)]
                views(out@).contains(a) <==> !is_glob(a) && exists|g: int, t: int|
                    0 <= g < i + 1 && 0 <= t < hv[g].patterns@.len() && #[trigger] hv[g].patterns@[t]@
                        == a by {
                if views(out@).contains(a) && !before.contains(a) {
                    let t = choose|t: int| 0 <= t < h.patterns@.len() && #[trigger] h.patterns@[t]@ == a;
                    assert(hv[i as int].patterns@[t]@ == a);
                }
                if !is_glob(a) && exists|g: int, t: int|
                    0 <= g < i + 1 && 0 <= t < hv[g].patterns@.len() && #[trigger] hv[g].patterns@[t]@
                        == a {
                    let (g, t) = choose|g: int, t: int|
                        0 <= g < i + 1 && 0 <= t < hv[g].patterns@.len() && #[trigger] hv[g].patterns@[t]@
                            == a;
                    if g == i {
                        assert(h.patterns@[t]@ == a);
                    } else {
                        assert(before.contains(a));
                    }
                }
            }
        }
        i = i + 1;
    }
    out
}

/// A pattern that a host list shows as a group rather than as a host: it
/// holds `*`, `?` or `[`.
pub open spec fn has_wildcard(p: Seq<char>) -> bool {
    p.contains('*') || p.contains('?') || p.contains('[')
}

fn wildcard_in(p: &str) -> (r: bool)
    ensures
        r == has_wildcard(p@),
{
    let n = p.unicode_len();
    let mut i: usize = 0;
    while i < n
        invariant
            n == p@.len(),
            i <= n,
            forall|j: int| 0 <= j < i ==> p@[j] != '*' && p@[j] != '?' && p@[j] != '[',
        decreases n - i,
    {
        let c = p.get_char(i);
        if c == '*' || c == '?' || c == '[' {
            assert(p@[i as int] == c);
            return true;
        }
        i = i + 1;
    }
    false
}

/// The first pattern of a `Host` block that names one host.
pub fn first_concrete_alias(entry: &HostEntry) -> (r: Option<&str>)
    ensures
        match r {
            Some(a) => exists|k: int|
                0 <= k < entry.patterns@.len() && entry.patterns@[k]@ == a@ && !has_wildcard(a@)
                    && forall|t: int| 0 <= t < k ==> has_wildcard(#[trigger] entry.patterns@[t]@),
            None => forall|t: int|
                0 <= t < entry.patterns@.len() ==> has_wildcard(#[trigger] entry.patterns@[t]@),
        },
{
    let mut k: usize = 0;
    while k < entry.patterns.len()
        invariant
            k <= entry.patterns@.len(),
            forall|t: int| 0 <= t < k ==> has_wildcard(#[trigger] entry.patterns@[t]@),
        decreases entry.patterns@.len() - k,
    {
        let p = entry.patterns[k].as_str();
        if !wildcard_in(p) {
            return Some(p);
        }
        k = k + 1;
    }
    None
}

} // verus!
