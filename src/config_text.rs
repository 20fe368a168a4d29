//! Reading the text of one SSH configuration file.

use vstd::prelude::*;
use vstd::string::*;
use crate::services::joined;
use crate::sshcfg::{unique_keys, HostEntry, MatchCond, MatchRule};
use crate::text::{
    ascii_lowercase, is_whitespace, is_ws, push_char, spec_ascii_lower, spec_trim, split_on,
    split_on_char, str_eq, string_of, trim, views,
};

verus! {

/// Scanning state of a line: the characters kept, whether inside single or
/// double quotes, and whether a comment has started.
pub struct Scan {
    pub kept: Seq<char>,
    pub single: bool,
    pub double: bool,
    pub done: bool,
}

/// Scans `s` for a comment: a `#` outside quotes ends the line; quote
/// characters that open or close a quotation are dropped.
pub open spec fn comment_scan(s: Seq<char>) -> Scan
    decreases s.len(),
{
    if s.len() == 0 {
        Scan { kept: Seq::empty(), single: false, double: false, done: false }
    } else {
        let st = comment_scan(s.drop_last());
        let c = s.last();
        if st.done {
            st
        } else if c == '\'' && !st.double {
            Scan { single: !st.single, ..st }
        } else if c == '"' && !st.single {
            Scan { double: !st.double, ..st }
        } else if c == '#' && !st.single && !st.double {
            Scan { done: true, ..st }
        } else {
            Scan { kept: st.kept.push(c), ..st }
        }
    }
}

/// A configuration line without its comment and without the quote
/// characters that delimit quotations.
pub fn strip_inline_comment(line: &str) -> (r: String)
    ensures
        r@ == comment_scan(line@).kept,
{
    let n = line.unicode_len();
    let mut out = String::new();
    let mut single = false;
    let mut double = false;
    let mut i: usize = 0;
    assert(line@.subrange(0, 0) == Seq::<char>::empty());
    while i < n
        invariant
            n == line@.len(),
            i <= n,
            comment_scan(line@.subrange(0, i as int)) == (Scan {
                kept: out@,
                single,
                double,
                done: false,
            }),
        decreases n - i,
    {
        let c = line.get_char(i);
        assert(line@.subrange(0, i + 1).drop_last() == line@.subrange(0, i as int));
        assert(line@.subrange(0, i + 1).last() == c);
        if c == '\'' && !double {
            single = !single;
        } else if c == '"' && !single {
            double = !double;
        } else if c == '#' && !single && !double {
            proof {
                lemma_scan_done(line@, i as int + 1);
            }
            return out;
        } else {
            push_char(&mut out, c);
        }
        i = i + 1;
    }
    assert(line@.subrange(0, n as int) == line@);
    out
}

proof fn lemma_scan_done(s: Seq<char>, k: int)
    requires
        0 <= k <= s.len(),
        comment_scan(s.subrange(0, k)).done,
    ensures
        comment_scan(s) == comment_scan(s.subrange(0, k)),
    decreases s.len() - k,
{
    if k < s.len() {
        assert(s.subrange(0, k + 1).drop_last() == s.subrange(0, k));
        lemma_scan_done(s, k + 1);
    } else {
        assert(s.subrange(0, k) == s);
    }
}

/// Tokenizing state: the tokens so far, the token being read, and whether
/// inside single or double quotes.
pub struct Tok {
    pub tokens: Seq<Seq<char>>,
    pub cur: Seq<char>,
    pub single: bool,
    pub double: bool,
}

pub open spec fn tok_scan(s: Seq<char>) -> Tok
    decreases s.len(),
{
    if s.len() == 0 {
        Tok { tokens: Seq::empty(), cur: Seq::empty(), single: false, double: false }
    } else {
        let st = tok_scan(s.drop_last());
        let c = s.last();
        if c == '\'' && !st.double {
            Tok { single: !st.single, ..st }
        } else if c == '"' && !st.single {
            Tok { double: !st.double, ..st }
        } else if is_ws(c) && !st.single && !st.double {
            if st.cur.len() > 0 {
                Tok { tokens: st.tokens.push(st.cur), cur: Seq::empty(), ..st }
            } else {
                st
            }
        } else {
            Tok { cur: st.cur.push(c), ..st }
        }
    }
}

/// The words of a line, split at white space outside quotes, with the quote
/// characters that delimit quotations dropped.
pub open spec fn spec_tokens(s: Seq<char>) -> Seq<Seq<char>> {
    let st = tok_scan(s);
    if st.cur.len() > 0 {
        st.tokens.push(st.cur)
    } else {
        st.tokens
    }
}

pub fn tokenize(line: &str) -> (r: Vec<String>)
    ensures
        views(r@) == spec_tokens(line@),
{
    let n = line.unicode_len();
    let mut tokens: Vec<String> = Vec::new();
    let mut cur = String::new();
    let mut single = false;
    let mut double = false;
    let mut i: usize = 0;
    assert(line@.subrange(0, 0) == Seq::<char>::empty());
    assert(views(tokens@) == Seq::<Seq<char>>::empty());
    while i < n
        invariant
            n == line@.len(),
            i <= n,
            tok_scan(line@.subrange(0, i as int)) == (Tok {
                tokens: views(tokens@),
                cur: cur@,
                single,
                double,
            }),
        decreases n - i,
    {
        let c = line.get_char(i);
        assert(line@.subrange(0, i + 1).drop_last() == line@.subrange(0, i as int));
        assert(line@.subrange(0, i + 1).last() == c);
        if c == '\'' && !double {
            single = !single;
        } else if c == '"' && !single {
            double = !double;
        } else if is_whitespace(c) && !single && !double {
            if cur.unicode_len() > 0 {
                let ghost before = views(tokens@);
                let ghost cv = cur@;
                tokens.push(cur);
                assert(views(tokens@) == before.push(cv));
                cur = String::new();
            }
        } else {
            push_char(&mut cur, c);
        }
        i = i + 1;
    }
    assert(line@.subrange(0, n as int) == line@);
    if cur.unicode_len() > 0 {
        let ghost before = views(tokens@);
        let ghost cv = cur@;
        tokens.push(cur);
        assert(views(tokens@) == before.push(cv));
    }
    tokens
}

/// Tokens joined by single spaces.
pub fn join_tokens(tokens: &[String]) -> (r: String)
    ensures
        r@ == joined(views(tokens@)),
{
    let n = tokens.len();
    let mut s = String::new();
    if n == 0 {
        return s;
    }
    let ghost ws = views(tokens@);
    s = tokens[0].clone();
    let mut i: usize = 1;
    assert(ws.subrange(0, 1) == seq![ws[0]]);
    while i < n
        invariant
            n == tokens@.len(),
            ws == views(tokens@),
            1 <= i <= n,
            s@ == joined(ws.subrange(0, i as int)),
        decreases n - i,
    {
        s.append(" ");
        s.append(tokens[i].as_str());
        assert(ws.subrange(0, i + 1).drop_last() == ws.subrange(0, i as int));
        i = i + 1;
    }
    assert(ws.subrange(0, n as int) == ws);
    s
}

/// A `Match` criterion, as values.
pub enum CondV {
    Host(Seq<Seq<char>>),
    User(Seq<Seq<char>>),
    All,
}

pub open spec fn cond_view(c: MatchCond) -> CondV {
    match c {
        MatchCond::Host(p) => CondV::Host(views(p@)),
        MatchCond::User(p) => CondV::User(views(p@)),
        MatchCond::All => CondV::All,
    }
}

/// The criterion being read: none, or the patterns after `Host` or `User`.
pub enum Run {
    Idle,
    Host(Seq<Seq<char>>),
    User(Seq<Seq<char>>),
}

/// The criteria read so far and the one being read.
pub struct CondScan {
    pub conds: Seq<CondV>,
    pub run: Run,
}

/// A word that starts a criterion (or ends the patterns of one).
pub open spec fn is_criterion(t: Seq<char>) -> bool {
    let l = spec_ascii_lower(t);
    l == "user"@ || l == "host"@ || l == "all"@ || l == "final"@
}

pub open spec fn close_run(st: CondScan) -> Seq<CondV> {
    match st.run {
        Run::Host(p) => if p.len() > 0 {
            st.conds.push(CondV::Host(p))
        } else {
            st.conds
        },
        Run::User(p) => if p.len() > 0 {
            st.conds.push(CondV::User(p))
        } else {
            st.conds
        },
        Run::Idle => st.conds,
    }
}

/// Reads `Match` criteria from words: `all`; `host` or `user` followed by
/// patterns up to the next criterion word; other words are skipped.
pub open spec fn cond_scan(toks: Seq<Seq<char>>) -> CondScan
    decreases toks.len(),
{
    if toks.len() == 0 {
        CondScan { conds: Seq::empty(), run: Run::Idle }
    } else {
        let st = cond_scan(toks.drop_last());
        let t = toks.last();
        let l = spec_ascii_lower(t);
        if !(st.run is Idle) && !is_criterion(t) {
            match st.run {
                Run::Host(p) => CondScan { run: Run::Host(p.push(t)), ..st },
                Run::User(p) => CondScan { run: Run::User(p.push(t)), ..st },
                Run::Idle => st,
            }
        } else {
            let conds = close_run(st);
            if l == "all"@ {
                CondScan { conds: conds.push(CondV::All), run: Run::Idle }
            } else if l == "host"@ {
                CondScan { conds, run: Run::Host(Seq::empty()) }
            } else if l == "user"@ {
                CondScan { conds, run: Run::User(Seq::empty()) }
            } else {
                CondScan { conds, run: Run::Idle }
            }
        }
    }
}

pub open spec fn spec_conditions(toks: Seq<Seq<char>>) -> Seq<CondV> {
    close_run(cond_scan(toks))
}

pub open spec fn cond_views(v: Seq<MatchCond>) -> Seq<CondV> {
    v.map_values(|c: MatchCond| cond_view(c))
}

fn criterion_word(t: &str) -> (r: bool)
    ensures
        r == is_criterion(t@),
{
    let l = ascii_lowercase(t);
    str_eq(l.as_str(), "user") || str_eq(l.as_str(), "host") || str_eq(l.as_str(), "all")
        || str_eq(l.as_str(), "final")
}

fn close_pats(conds: &mut Vec<MatchCond>, mode: u8, pats: Vec<String>)
    requires
        mode <= 2,
    ensures
        cond_views(final(conds)@) == close_run(
            CondScan {
                conds: cond_views(old(conds)@),
                run: if mode == 1 {
                    Run::Host(views(pats@))
                } else if mode == 2 {
                    Run::User(views(pats@))
                } else {
                    Run::Idle
                },
            },
        ),
{
    let ghost before = cond_views(conds@);
    let ghost pv = views(pats@);
    if mode == 1 && pats.len() > 0 {
        conds.push(MatchCond::Host(pats));
        assert(cond_views(conds@) == before.push(CondV::Host(pv)));
    } else if mode == 2 && pats.len() > 0 {
        conds.push(MatchCond::User(pats));
        assert(cond_views(conds@) == before.push(CondV::User(pv)));
    }
}

/// The criteria of a `Match` line, from the words after `Match`.
pub fn match_conditions(toks: &[String]) -> (r: Vec<MatchCond>)
    ensures
        cond_views(r@) == spec_conditions(views(toks@)),
{
    let ghost tv = views(toks@);
    let mut conds: Vec<MatchCond> = Vec::new();
    // 0: no criterion being read; 1: `host` patterns; 2: `user` patterns.
    let mut mode: u8 = 0;
    let mut pats: Vec<String> = Vec::new();
    let mut i: usize = 0;
    assert(tv.subrange(0, 0) == Seq::<Seq<char>>::empty());
    assert(cond_views(conds@) == Seq::<CondV>::empty());
    while i < toks.len()
        invariant
            tv == views(toks@),
            i <= toks@.len(),
            mode <= 2,
            cond_scan(tv.subrange(0, i as int)) == (CondScan {
                conds: cond_views(conds@),
                run: if mode == 1 {
                    Run::Host(views(pats@))
                } else if mode == 2 {
                    Run::User(views(pats@))
                } else {
                    Run::Idle
                },
            }),
        decreases toks@.len() - i,
    {
        let t = &toks[i];
        assert(tv.subrange(0, i + 1).drop_last() == tv.subrange(0, i as int));
        assert(tv.subrange(0, i + 1).last() == t@);
        if mode != 0 && !criterion_word(t.as_str()) {
            let ghost before = views(pats@);
            pats.push(t.clone());
            assert(views(pats@) == before.push(t@));
        } else {
            let taken = pats;
            close_pats(&mut conds, mode, taken);
            pats = Vec::new();
            assert(views(pats@) == Seq::<Seq<char>>::empty());
            let l = ascii_lowercase(t.as_str());
            if str_eq(l.as_str(), "all") {
                let ghost before = cond_views(conds@);
                conds.push(MatchCond::All);
                assert(cond_views(conds@) == before.push(CondV::All));
                mode = 0;
            } else if str_eq(l.as_str(), "host") {
                mode = 1;
            } else if str_eq(l.as_str(), "user") {
                mode = 2;
            } else {
                mode = 0;
            }
        }
        i = i + 1;
    }
    assert(tv.subrange(0, toks@.len() as int) == tv);
    close_pats(&mut conds, mode, pats);
    conds
}

pub open spec fn pair_views(v: Seq<(String, String)>) -> Seq<(Seq<char>, Seq<char>)> {
    v.map_values(|p: (String, String)| (p.0@, p.1@))
}

/// Where the parameter `k` stands in `ps`: its first position, or the length
/// when it is absent.
pub open spec fn key_pos(ps: Seq<(Seq<char>, Seq<char>)>, k: Seq<char>) -> int
    decreases ps.len(),
{
    if ps.len() == 0 {
        0
    } else if ps[0].0 == k {
        0
    } else {
        1 + key_pos(ps.drop_first(), k)
    }
}

/// Sets a parameter: replaces the value of a name already present, or adds
/// the name at the end.
pub open spec fn put_param(ps: Seq<(Seq<char>, Seq<char>)>, p: (Seq<char>, Seq<char>)) -> Seq<
    (Seq<char>, Seq<char>),
> {
    let i = key_pos(ps, p.0);
    if i < ps.len() {
        ps.update(i, p)
    } else {
        ps.push(p)
    }
}

proof fn lemma_key_pos(ps: Seq<(Seq<char>, Seq<char>)>, k: Seq<char>)
    ensures
        0 <= key_pos(ps, k) <= ps.len(),
        key_pos(ps, k) < ps.len() ==> ps[key_pos(ps, k)].0 == k,
        forall|j: int| 0 <= j < key_pos(ps, k) ==> (#[trigger] ps[j]).0 != k,
    decreases ps.len(),
{
    if ps.len() > 0 && ps[0].0 != k {
        lemma_key_pos(ps.drop_first(), k);
        assert forall|j: int| 0 <= j < key_pos(ps, k) implies (#[trigger] ps[j]).0 != k by {
            if j > 0 {
                assert(ps[j] == ps.drop_first()[j - 1]);
            }
        }
    }
}

/// A `Host` block, as values.
pub struct HostV {
    pub patterns: Seq<Seq<char>>,
    pub params: Seq<(Seq<char>, Seq<char>)>,
    pub line: nat,
}

/// A `Match` block, as values.
pub struct RuleV {
    pub conds: Seq<CondV>,
    pub params: Seq<(Seq<char>, Seq<char>)>,
    pub line: nat,
}

pub open spec fn host_view(h: HostEntry) -> HostV {
    HostV { patterns: views(h.patterns@), params: pair_views(h.params@), line: h.line as nat }
}

pub open spec fn rule_view(m: MatchRule) -> RuleV {
    RuleV { conds: cond_views(m.conditions@), params: pair_views(m.params@), line: m.line as nat }
}

/// What has been read of a file: finished blocks, `Include` patterns, and
/// the blocks still open.
pub struct FileV {
    pub hosts: Seq<HostV>,
    pub rules: Seq<RuleV>,
    pub includes: Seq<Seq<Seq<char>>>,
    pub cur: Option<HostV>,
    pub cur_match: Option<RuleV>,
}

pub open spec fn with_open<T>(done: Seq<T>, open: Option<T>) -> Seq<T> {
    match open {
        Some(x) => done.push(x),
        None => done,
    }
}

/// The words of one configuration line: its comment removed, trimmed, cut at
/// white space outside quotes.
pub open spec fn line_tokens(raw: Seq<char>) -> Seq<Seq<char>> {
    spec_tokens(spec_trim(comment_scan(raw).kept))
}

/// Reading one line (numbered from 1) of a configuration file. `Match` opens
/// a match block; `Include` records its patterns; `Host` closes the open
/// blocks and opens a host block (none when it names no pattern); any other
/// keyword with a value sets a parameter of the open match block, or else of
/// the open host block.
pub open spec fn file_step(st: FileV, toks: Seq<Seq<char>>, line_no: nat) -> FileV {
    if toks.len() == 0 {
        st
    } else {
        let key = spec_ascii_lower(toks[0]);
        let args = toks.subrange(1, toks.len() as int);
        if key == "match"@ {
            FileV {
                rules: with_open(st.rules, st.cur_match),
                cur_match: Some(
                    RuleV { conds: spec_conditions(args), params: Seq::empty(), line: line_no },
                ),
                ..st
            }
        } else if key == "include"@ {
            if args.len() == 0 {
                st
            } else {
                FileV { includes: st.includes.push(args), ..st }
            }
        } else if key == "host"@ {
            FileV {
                rules: with_open(st.rules, st.cur_match),
                hosts: with_open(st.hosts, st.cur),
                cur_match: None,
                cur: if args.len() == 0 {
                    None
                } else {
                    Some(HostV { patterns: args, params: Seq::empty(), line: line_no })
                },
                ..st
            }
        } else if toks.len() < 2 {
            st
        } else {
            let p = (key, joined(args));
            match st.cur_match {
                Some(m) => FileV {
                    cur_match: Some(RuleV { params: put_param(m.params, p), ..m }),
                    ..st
                },
                None => match st.cur {
                    Some(h) => FileV { cur: Some(HostV { params: put_param(h.params, p), ..h }), ..st },
                    None => st,
                },
            }
        }
    }
}

pub open spec fn file_scan(lines: Seq<Seq<char>>) -> FileV
    decreases lines.len(),
{
    if lines.len() == 0 {
        FileV {
            hosts: Seq::empty(),
            rules: Seq::empty(),
            includes: Seq::empty(),
            cur: None,
            cur_match: None,
        }
    } else {
        file_step(file_scan(lines.drop_last()), line_tokens(lines.last()), lines.len())
    }
}

/// What a configuration file's text declares, its open blocks closed at the end.
pub open spec fn parsed_text(text: Seq<char>) -> FileV {
    let st = file_scan(split_on(text, '\n'));
    FileV {
        hosts: with_open(st.hosts, st.cur),
        rules: with_open(st.rules, st.cur_match),
        cur: None,
        cur_match: None,
        ..st
    }
}

/// The blocks and `Include` patterns of one configuration file.
pub struct ParsedFile {
    pub hosts: Vec<HostEntry>,
    pub matches: Vec<MatchRule>,
    /// The patterns of each `Include` line, in order.
    pub includes: Vec<Vec<String>>,
}

pub open spec fn host_views(v: Seq<HostEntry>) -> Seq<HostV> {
    v.map_values(|h: HostEntry| host_view(h))
}

pub open spec fn rule_views(v: Seq<MatchRule>) -> Seq<RuleV> {
    v.map_values(|m: MatchRule| rule_view(m))
}

pub open spec fn include_views(v: Seq<Vec<String>>) -> Seq<Seq<Seq<char>>> {
    v.map_values(|p: Vec<String>| views(p@))
}

pub open spec fn opt_host_view(h: Option<HostEntry>) -> Option<HostV> {
    match h {
        Some(x) => Some(host_view(x)),
        None => None,
    }
}

pub open spec fn opt_rule_view(m: Option<MatchRule>) -> Option<RuleV> {
    match m {
        Some(x) => Some(rule_view(x)),
        None => None,
    }
}

fn tail_tokens(toks: &Vec<String>) -> (r: Vec<String>)
    requires
        toks@.len() >= 1,
    ensures
        views(r@) == views(toks@).subrange(1, toks@.len() as int),
{
    let mut out: Vec<String> = Vec::new();
    let mut i: usize = 1;
    let ghost tv = views(toks@);
    while i < toks.len()
        invariant
            tv == views(toks@),
            1 <= i <= toks@.len(),
            views(out@) == tv.subrange(1, i as int),
        decreases toks@.len() - i,
    {
        let ghost before = views(out@);
        out.push(toks[i].clone());
        assert(views(out@) == before.push(tv[i as int]));
        assert(tv.subrange(1, i + 1) == tv.subrange(1, i as int).push(tv[i as int]));
        i = i + 1;
    }
    out
}

fn push_open_host(hosts: &mut Vec<HostEntry>, cur: Option<HostEntry>, source: &str)
    requires
        forall|k: int| 0 <= k < old(hosts)@.len() ==> (#[trigger] old(hosts)@[k]).source@ == source@,
        forall|k: int| 0 <= k < old(hosts)@.len() ==> (#[trigger] old(hosts)@[k]).wf(),
        cur matches Some(h) ==> h.source@ == source@ && h.wf(),
    ensures
        host_views(final(hosts)@) == with_open(host_views(old(hosts)@), opt_host_view(cur)),
        forall|k: int| 0 <= k < final(hosts)@.len() ==> (#[trigger] final(hosts)@[k]).source@ == source@,
        forall|k: int| 0 <= k < final(hosts)@.len() ==> (#[trigger] final(hosts)@[k]).wf(),
{
    match cur {
        Some(h) => {
            let ghost before = host_views(hosts@);
            let ghost hv = host_view(h);
            hosts.push(h);
            assert(host_views(hosts@) == before.push(hv));
        },
        None => {},
    }
}

fn push_open_rule(rules: &mut Vec<MatchRule>, cur: Option<MatchRule>, source: &str)
    requires
        forall|k: int| 0 <= k < old(rules)@.len() ==> (#[trigger] old(rules)@[k]).source@ == source@,
        forall|k: int| 0 <= k < old(rules)@.len() ==> (#[trigger] old(rules)@[k]).wf(),
        cur matches Some(m) ==> m.source@ == source@ && m.wf(),
    ensures
        rule_views(final(rules)@) == with_open(rule_views(old(rules)@), opt_rule_view(cur)),
        forall|k: int| 0 <= k < final(rules)@.len() ==> (#[trigger] final(rules)@[k]).source@ == source@,
        forall|k: int| 0 <= k < final(rules)@.len() ==> (#[trigger] final(rules)@[k]).wf(),
{
    match cur {
        Some(m) => {
            let ghost before = rule_views(rules@);
            let ghost mv = rule_view(m);
            rules.push(m);
            assert(rule_views(rules@) == before.push(mv));
        },
        None => {},
    }
}

fn set_param(params: &mut Vec<(String, String)>, key: String, value: String)
    requires
        unique_keys(old(params)@),
    ensures
        pair_views(final(params)@) == put_param(pair_views(old(params)@), (key@, value@)),
        unique_keys(final(params)@),
{
    let ghost pv = pair_views(params@);
    let ghost kv = (key@, value@);
    proof {
        lemma_key_pos(pv, key@);
    }
    let n = params.len();
    let mut i: usize = 0;
    while i < n
        invariant
            n == params@.len(),
            pv == pair_views(params@),
            pv == pair_views(old(params)@),
            kv == (key@, value@),
            unique_keys(params@),
            i <= n,
            forall|j: int| 0 <= j < i ==> (#[trigger] params@[j]).0@ != key@,
            0 <= key_pos(pv, key@) <= n,
            key_pos(pv, key@) < n ==> pv[key_pos(pv, key@)].0 == key@,
            forall|j: int| 0 <= j < key_pos(pv, key@) ==> (#[trigger] pv[j]).0 != key@,
        decreases n - i,
    {
        assert(pv[i as int].0 == params@[i as int].0@);
        if str_eq(params[i].0.as_str(), key.as_str()) {
            proof {
                if key_pos(pv, key@) < i {
                    assert(pv[key_pos(pv, key@)] == (params@[key_pos(pv, key@)].0@, params@[key_pos(pv, key@)].1@));
                }
            }
            assert(key_pos(pv, key@) == i);
            let ghost old_params = params@;
            let ghost entry = (key, value);
            params.set(i, (key, value));
            assert(params@ == old_params.update(i as int, entry));
            assert forall|j: int| 0 <= j < n implies #[trigger] pair_views(params@)[j] == pv.update(
                i as int,
                kv,
            )[j] by {
                assert(pair_views(params@)[j] == (params@[j].0@, params@[j].1@));
                if j != i {
                    assert(params@[j] == old_params[j]);
                    assert(pv[j] == (old_params[j].0@, old_params[j].1@));
                } else {
                    assert(params@[j] == entry);
                }
            }
            assert(pair_views(params@) =~= pv.update(i as int, kv));
            assert forall|a: int, b: int|
                0 <= a < b < params@.len() implies (#[trigger] params@[a]).0@ != (#[trigger] params@[b]).0@ by {
                if a != i && b != i {
                    assert(old_params[a] == params@[a] && old_params[b] == params@[b]);
                } else if a == i {
                    assert(old_params[b] == params@[b]);
                    assert(old_params[a].0@ != old_params[b].0@);
                } else {
                    assert(old_params[a] == params@[a]);
                    assert(old_params[a].0@ != old_params[b].0@);
                }
            }
            return;
        }
        i = i + 1;
    }
    proof {
        if key_pos(pv, key@) < n {
            assert(pv[key_pos(pv, key@)].0 == params@[key_pos(pv, key@)].0@);
        }
    }
    let ghost old_params = params@;
    params.push((key, value));
    assert(pair_views(params@) =~= pv.push(kv));
    assert forall|a: int, b: int|
        0 <= a < b < params@.len() implies (#[trigger] params@[a]).0@ != (#[trigger] params@[b]).0@ by {
        assert(old_params.len() == n);
        if b < n {
            assert(old_params[a] == params@[a] && old_params[b] == params@[b]);
        } else {
            assert(old_params[a] == params@[a]);
        }
    }
}

/// Parses the text of one SSH configuration file; `source` names the file in
/// the blocks it yields. `Include`d files are not read: their patterns are
/// returned in order.
pub fn parse_config_text(text: &str, source: &str) -> (r: ParsedFile)
    ensures
        host_views(r.hosts@) == parsed_text(text@).hosts,
        rule_views(r.matches@) == parsed_text(text@).rules,
        include_views(r.includes@) == parsed_text(text@).includes,
        forall|k: int| 0 <= k < r.hosts@.len() ==> (#[trigger] r.hosts@[k]).source@ == source@,
        forall|k: int| 0 <= k < r.matches@.len() ==> (#[trigger] r.matches@[k]).source@ == source@,
        forall|k: int| 0 <= k < r.hosts@.len() ==> (#[trigger] r.hosts@[k]).wf(),
        forall|k: int| 0 <= k < r.matches@.len() ==> (#[trigger] r.matches@[k]).wf(),
{
    let lines = split_on_char(text, '\n');
    let ghost lv = views(lines@);
    let mut hosts: Vec<HostEntry> = Vec::new();
    let mut matches: Vec<MatchRule> = Vec::new();
    let mut includes: Vec<Vec<String>> = Vec::new();
    let mut cur: Option<HostEntry> = None;
    let mut cur_match: Option<MatchRule> = None;
    let mut i: usize = 0;
    assert(lv.subrange(0, 0) == Seq::<Seq<char>>::empty());
    assert(host_views(hosts@) == Seq::<HostV>::empty());
    assert(rule_views(matches@) == Seq::<RuleV>::empty());
    assert(include_views(includes@) == Seq::<Seq<Seq<char>>>::empty());
    while i < lines.len()
        invariant
            lv == views(lines@),
            lv == split_on(text@, '\n'),
            i <= lines@.len(),
            file_scan(lv.subrange(0, i as int)) == (FileV {
                hosts: host_views(hosts@),
                rules: rule_views(matches@),
                includes: include_views(includes@),
                cur: opt_host_view(cur),
                cur_match: opt_rule_view(cur_match),
            }),
            forall|k: int| 0 <= k < hosts@.len() ==> (#[trigger] hosts@[k]).source@ == source@,
            forall|k: int| 0 <= k < matches@.len() ==> (#[trigger] matches@[k]).source@ == source@,
            cur matches Some(h) ==> h.source@ == source@ && h.wf(),
            cur_match matches Some(m) ==> m.source@ == source@ && m.wf(),
            forall|k: int| 0 <= k < hosts@.len() ==> (#[trigger] hosts@[k]).wf(),
            forall|k: int| 0 <= k < matches@.len() ==> (#[trigger] matches@[k]).wf(),
        decreases lines@.len() - i,
    {
        assert(lv.subrange(0, i + 1).drop_last() == lv.subrange(0, i as int));
        assert(lv.subrange(0, i + 1).last() == lines@[i as int]@);
        let line_no = i + 1;
        let stripped = strip_inline_comment(lines[i].as_str());
        let toks = tokenize(trim(stripped.as_str()));
        let ghost tv = views(toks@);
        if toks.len() > 0 {
            let key = ascii_lowercase(toks[0].as_str());
            assert(tv[0] == toks@[0]@);
            let args = tail_tokens(&toks);
            if str_eq(key.as_str(), "match") {
                let prev = cur_match;
                push_open_rule(&mut matches, prev, source);
                let conditions = match_conditions(args.as_slice());
                let m = MatchRule {
                    conditions,
                    params: Vec::new(),
                    source: string_of(source),
                    line: line_no,
                };
                assert(pair_views(m.params@) == Seq::<(Seq<char>, Seq<char>)>::empty());
                cur_match = Some(m);
            } else if str_eq(key.as_str(), "include") {
                if args.len() > 0 {
                    let ghost before = include_views(includes@);
                    let ghost av = views(args@);
                    includes.push(args);
                    assert(include_views(includes@) == before.push(av));
                }
            } else if str_eq(key.as_str(), "host") {
                let prevm = cur_match;
                push_open_rule(&mut matches, prevm, source);
                cur_match = None;
                let prev = cur;
                push_open_host(&mut hosts, prev, source);
                if args.len() == 0 {
                    cur = None;
                } else {
                    let h = HostEntry {
                        patterns: args,
                        params: Vec::new(),
                        source: string_of(source),
                        line: line_no,
                    };
                    assert(pair_views(h.params@) == Seq::<(Seq<char>, Seq<char>)>::empty());
                    cur = Some(h);
                }
            } else if toks.len() >= 2 {
                let value = join_tokens(args.as_slice());
                match cur_match {
                    Some(mut m) => {
                        set_param(&mut m.params, key, value);
                        cur_match = Some(m);
                    },
                    None => match cur {
                        Some(mut h) => {
                            set_param(&mut h.params, key, value);
                            cur = Some(h);
                        },
                        None => {},
                    },
                }
            }
        }
        i = i + 1;
    }
    assert(lv.subrange(0, lines@.len() as int) == lv);
    push_open_host(&mut hosts, cur, source);
    push_open_rule(&mut matches, cur_match, source);
    ParsedFile { hosts, matches, includes }
}

} // verus!
