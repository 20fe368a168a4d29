//! Directory listings: listing order and paging.

use vstd::prelude::*;
use vstd::string::*;
use crate::proto::DirEntry;

verus! {

/// What `str::to_lowercase` returns for a string.
pub uninterp spec fn lower_of(s: Seq<char>) -> Seq<char>;

/// Relies on `str::to_lowercase`: the result depends on the characters alone.
#[verifier::external_body]
fn lowercase(s: &str) -> (r: String)
    ensures
        r@ == lower_of(s@),
{
    s.to_lowercase()
}

/// Strict lexicographic order of character sequences, by code point (the
/// order of `String`'s `Ord`).
pub open spec fn lex_lt(a: Seq<char>, b: Seq<char>) -> bool
    decreases a.len(),
{
    if b.len() == 0 {
        false
    } else if a.len() == 0 {
        true
    } else if a[0] != b[0] {
        a[0] < b[0]
    } else {
        lex_lt(a.drop_first(), b.drop_first())
    }
}

pub proof fn lemma_lex_irreflexive(a: Seq<char>)
    ensures
        !lex_lt(a, a),
    decreases a.len(),
{
    if a.len() > 0 {
        lemma_lex_irreflexive(a.drop_first());
    }
}

pub proof fn lemma_lex_transitive(a: Seq<char>, b: Seq<char>, c: Seq<char>)
    requires
        lex_lt(a, b),
        lex_lt(b, c),
    ensures
        lex_lt(a, c),
    decreases a.len(),
{
    if a.len() > 0 && b.len() > 0 && c.len() > 0 && a[0] == b[0] && b[0] == c[0] {
        lemma_lex_transitive(a.drop_first(), b.drop_first(), c.drop_first());
    }
}

pub proof fn lemma_lex_total(a: Seq<char>, b: Seq<char>)
    requires
        a != b,
    ensures
        lex_lt(a, b) || lex_lt(b, a),
    decreases a.len(),
{
    if a.len() > 0 && b.len() > 0 && a[0] == b[0] {
        if a.drop_first() == b.drop_first() {
            assert(a == seq![a[0]] + a.drop_first());
            assert(b == seq![b[0]] + b.drop_first());
        }
        lemma_lex_total(a.drop_first(), b.drop_first());
    } else if a.len() == 0 && b.len() == 0 {
        assert(a == b);
    }
}

/// An entry with its sort key (its name, case folded).
pub type Keyed = (DirEntry, Seq<char>);

/// `a` sorts strictly before `b`: directories first, then by folded name.
pub open spec fn before(a: Keyed, b: Keyed) -> bool {
    (a.0.is_dir && !b.0.is_dir) || (a.0.is_dir == b.0.is_dir && lex_lt(a.1, b.1))
}

/// Where `x` goes in `s`: before the first element that sorts after it.
pub open spec fn insert_pos(s: Seq<Keyed>, x: Keyed) -> int
    decreases s.len(),
{
    if s.len() == 0 {
        0
    } else if before(x, s[0]) {
        0
    } else {
        1 + insert_pos(s.drop_first(), x)
    }
}

/// The entries in listing order; entries with equal keys keep their order.
pub open spec fn sort_keyed(s: Seq<Keyed>) -> Seq<Keyed>
    decreases s.len(),
{
    if s.len() == 0 {
        s
    } else {
        let r = sort_keyed(s.drop_last());
        r.insert(insert_pos(r, s.last()), s.last())
    }
}

pub open spec fn firsts(s: Seq<Keyed>) -> Seq<DirEntry> {
    s.map_values(|p: Keyed| p.0)
}

pub open spec fn pair_up(entries: Seq<DirEntry>, names: Seq<Seq<char>>) -> Seq<Keyed> {
    Seq::new(entries.len(), |i: int| (entries[i], names[i]))
}

/// The entries of a directory, each keyed by `lower_of` its name.
pub open spec fn keyed_by_folded_name(entries: Seq<DirEntry>) -> Seq<Keyed> {
    Seq::new(entries.len(), |i: int| (entries[i], lower_of(entries[i].name@)))
}

/// The page of `sorted` that starts at `skip` and holds at most `max`
/// entries, and whether it reaches the end.
pub open spec fn page(sorted: Seq<DirEntry>, skip: nat, max: nat) -> (Seq<DirEntry>, bool) {
    let n = sorted.len();
    let lo = if skip <= n { skip } else { n };
    let hi = if skip + max <= n { skip + max } else { n };
    (sorted.subrange(lo as int, hi as int), skip + max >= n)
}

proof fn lemma_insert_pos_bound(s: Seq<Keyed>, x: Keyed)
    ensures
        0 <= insert_pos(s, x) <= s.len(),
    decreases s.len(),
{
    if s.len() > 0 {
        lemma_insert_pos_bound(s.drop_first(), x);
    }
}

proof fn lemma_sort_len(s: Seq<Keyed>)
    ensures
        sort_keyed(s).len() == s.len(),
    decreases s.len(),
{
    if s.len() > 0 {
        lemma_sort_len(s.drop_last());
        lemma_insert_pos_bound(sort_keyed(s.drop_last()), s.last());
    }
}

pub fn str_lex_lt(a: &str, b: &str) -> (r: bool)
    ensures
        r == lex_lt(a@, b@),
{
    let n = a.unicode_len();
    let m = b.unicode_len();
    let mut i: usize = 0;
    assert(a@.subrange(0, n as int) == a@);
    assert(b@.subrange(0, m as int) == b@);
    while i < n && i < m
        invariant
            n == a@.len(),
            m == b@.len(),
            i <= n,
            i <= m,
            lex_lt(a@, b@) == lex_lt(a@.subrange(i as int, n as int), b@.subrange(i as int, m as int)),
        decreases n - i,
    {
        let x = a.get_char(i);
        let y = b.get_char(i);
        let ghost sa = a@.subrange(i as int, n as int);
        let ghost sb = b@.subrange(i as int, m as int);
        if x != y {
            return x < y;
        }
        assert(sa.drop_first() == a@.subrange(i + 1, n as int));
        assert(sb.drop_first() == b@.subrange(i + 1, m as int));
        i = i + 1;
    }
    i < m
}

fn sorts_before(a: &DirEntry, ka: &String, b: &DirEntry, kb: &String) -> (r: bool)
    ensures
        r == before((*a, ka@), (*b, kb@)),
{
    (a.is_dir && !b.is_dir) || (a.is_dir == b.is_dir && str_lex_lt(ka.as_str(), kb.as_str()))
}

/// Sorts entries into listing order, given each entry's case-folded name
/// (`folded[i]` belongs to `entries[i]`).
pub fn sort_by_folded(entries: Vec<DirEntry>, folded: Vec<String>) -> (r: Vec<DirEntry>)
    requires
        entries@.len() == folded@.len(),
    ensures
        r@ == firsts(sort_keyed(pair_up(entries@, folded@.map_values(|k: String| k@)))),
{
    let ghost input = pair_up(entries@, folded@.map_values(|k: String| k@));
    let n = entries.len();
    let mut rest = entries;
    let mut rest_keys = folded;
    let mut out: Vec<DirEntry> = Vec::new();
    let mut keys: Vec<String> = Vec::new();
    let mut k: usize = 0;
    assert(input.subrange(0, 0) == Seq::<Keyed>::empty());
    while k < n
        invariant
            n == input.len(),
            k <= n,
            rest@.len() == n - k,
            rest_keys@.len() == n - k,
            forall|i: int| 0 <= i < n - k ==> (#[trigger] rest@[i], rest_keys@[i]@) == input[k + i],
            out@.len() == keys@.len() == k,
            forall|i: int|
                0 <= i < k ==> (#[trigger] out@[i], keys@[i]@) == sort_keyed(input.subrange(0, k as int))[i],
            sort_keyed(input.subrange(0, k as int)).len() == k,
        decreases n - k,
    {
        let x = rest.remove(0);
        let kx = rest_keys.remove(0);
        let ghost prev = sort_keyed(input.subrange(0, k as int));
        let ghost xk: Keyed = (x, kx@);
        assert(xk == input[k as int]);
        let mut p: usize = 0;
        assert(prev.subrange(0, k as int) == prev);
        while p < k && !sorts_before(&x, &kx, &out[p], &keys[p])
            invariant
                p <= k,
                out@.len() == keys@.len() == k,
                prev.len() == k,
                forall|i: int| 0 <= i < k ==> (#[trigger] out@[i], keys@[i]@) == prev[i],
                xk == (x, kx@),
                insert_pos(prev, xk) == p + insert_pos(prev.subrange(p as int, k as int), xk),
            decreases k - p,
        {
            assert(prev.subrange(p as int, k as int)[0] == prev[p as int]);
            assert(prev.subrange(p as int, k as int).drop_first() == prev.subrange(p + 1, k as int));
            p = p + 1;
        }
        proof {
            if p < k {
                assert(prev.subrange(p as int, k as int)[0] == prev[p as int]);
            }
            assert(input.subrange(0, k + 1).drop_last() == input.subrange(0, k as int));
            assert(input.subrange(0, k + 1).last() == xk);
            lemma_insert_pos_bound(prev, xk);
        }
        out.insert(p, x);
        keys.insert(p, kx);
        proof {
            let next = sort_keyed(input.subrange(0, k + 1));
            assert(next == prev.insert(p as int, xk));
            assert forall|i: int| 0 <= i < k + 1 implies (#[trigger] out@[i], keys@[i]@) == next[i] by {
                if i < p {
                } else if i == p {
                } else {
                    assert(out@[i] == prev[i - 1].0);
                }
            }
            assert forall|i: int| 0 <= i < n - k - 1 implies (#[trigger] rest@[i], rest_keys@[i]@)
                == input[k + 1 + i] by {
            }
        }
        k = k + 1;
    }
    assert(input.subrange(0, n as int) == input);
    assert(out@ == firsts(sort_keyed(input)));
    out
}

/// The page size used when a request names none.
pub const DEFAULT_PAGE_SIZE: usize = 2000;

/// The largest page size served.
pub const MAX_PAGE_SIZE: usize = 10000;

pub open spec fn effective_max(max: Option<usize>) -> nat {
    match max {
        Some(m) => if m <= MAX_PAGE_SIZE {
            m as nat
        } else {
            MAX_PAGE_SIZE as nat
        },
        None => DEFAULT_PAGE_SIZE as nat,
    }
}

pub open spec fn effective_skip(skip: Option<usize>) -> nat {
    match skip {
        Some(k) => k as nat,
        None => 0,
    }
}

/// A directory's entries in listing order: directories first, then by
/// case-folded name.
pub open spec fn listing(entries: Seq<DirEntry>) -> Seq<DirEntry> {
    firsts(sort_keyed(keyed_by_folded_name(entries)))
}

/// Cuts one page out of entries that are already in listing order.
pub fn take_page(sorted: Vec<DirEntry>, skip: usize, max: usize) -> (r: (Vec<DirEntry>, bool))
    ensures
        (r.0@, r.1) == page(sorted@, skip as nat, max as nat),
{
    let n = sorted.len();
    let eof = skip >= n || max >= n - skip;
    let mut v = sorted;
    if skip >= n {
        let empty: Vec<DirEntry> = Vec::new();
        assert(empty@ == v@.subrange(n as int, n as int));
        return (empty, eof);
    }
    let mut tail = v.split_off(skip);
    assert(tail@ == sorted@.subrange(skip as int, n as int));
    if max < n - skip {
        tail.truncate(max);
    }
    assert(tail@ == page(sorted@, skip as nat, max as nat).0);
    (tail, eof)
}

/// One page of a directory listing, given each entry's case-folded name
/// (`folded[i]` belongs to `entries[i]`), with the request's optional page
/// size and offset.
pub fn page_by_folded(
    entries: Vec<DirEntry>,
    folded: Vec<String>,
    max: Option<usize>,
    skip: Option<usize>,
) -> (r: (Vec<DirEntry>, bool))
    requires
        entries@.len() == folded@.len(),
    ensures
        (r.0@, r.1) == page(
            firsts(sort_keyed(pair_up(entries@, folded@.map_values(|k: String| k@)))),
            effective_skip(skip),
            effective_max(max),
        ),
{
    let m = match max {
        Some(m) => if m <= MAX_PAGE_SIZE {
            m
        } else {
            MAX_PAGE_SIZE
        },
        None => DEFAULT_PAGE_SIZE,
    };
    let k = match skip {
        Some(k) => k,
        None => 0,
    };
    let sorted = sort_by_folded(entries, folded);
    take_page(sorted, k, m)
}

/// One page of a directory listing: directories first, then by case-folded
/// name; `max` defaults to 2000 and is capped at 10000, `skip` defaults to 0.
pub fn list_page(entries: Vec<DirEntry>, max: Option<usize>, skip: Option<usize>) -> (r: (
    Vec<DirEntry>,
    bool,
))
    ensures
        (r.0@, r.1) == page(listing(entries@), effective_skip(skip), effective_max(max)),
{
    let n = entries.len();
    let mut folded: Vec<String> = Vec::new();
    let mut i: usize = 0;
    while i < n
        invariant
            n == entries@.len(),
            i <= n,
            folded@.len() == i,
            forall|j: int| 0 <= j < i ==> (#[trigger] folded@[j])@ == lower_of(entries@[j].name@),
        decreases n - i,
    {
        folded.push(lowercase(entries[i].name.as_str()));
        i = i + 1;
    }
    let ghost e = entries@;
    assert(pair_up(e, folded@.map_values(|k: String| k@)) == keyed_by_folded_name(e));
    page_by_folded(entries, folded, max, skip)
}

/// The pages that a caller collects by starting at `skip` and advancing by
/// the number of entries each page returned, until a page reports the end.
pub open spec fn collect_pages(sorted: Seq<DirEntry>, skip: nat, max: nat) -> Seq<DirEntry>
    decreases sorted.len() - skip,
{
    let (p, eof) = page(sorted, skip, max);
    if eof || max == 0 || skip >= sorted.len() {
        p
    } else {
        p + collect_pages(sorted, skip + p.len(), max)
    }
}

proof fn lemma_collect_pages(sorted: Seq<DirEntry>, skip: nat, max: nat)
    requires
        max > 0,
        skip <= sorted.len(),
    ensures
        collect_pages(sorted, skip, max) == sorted.subrange(skip as int, sorted.len() as int),
    decreases sorted.len() - skip,
{
    let n = sorted.len();
    if skip + max < n {
        lemma_collect_pages(sorted, skip + max, max);
        assert(sorted.subrange(skip as int, (skip + max) as int) + sorted.subrange(
            (skip + max) as int,
            n as int,
        ) == sorted.subrange(skip as int, n as int));
    }
}

/// Paging through a listing: with pages of `k` entries over a directory of
/// more than `k` entries, the page at offset `i * k` reports the end exactly
/// when it is the last one, and the pages, collected by advancing the offset
/// by what each returned, equal the whole listing that one request with room
/// for every entry returns; that listing holds every entry once, directories
/// first, then by case-folded name.
pub proof fn lemma_paging(entries: Seq<DirEntry>, k: usize)
    requires
        0 < k <= MAX_PAGE_SIZE,
        entries.len() > k,
        entries.len() <= MAX_PAGE_SIZE,
    ensures
        forall|i: nat|
            i * k < entries.len() ==> (#[trigger] page(listing(entries), (i * k) as nat, k as nat)).1 == ((i
                + 1) * k >= entries.len()),
        collect_pages(listing(entries), 0, effective_max(Some(k))) == page(
            listing(entries),
            0,
            effective_max(Some(entries.len() as usize)),
        ).0,
        page(listing(entries), 0, effective_max(Some(entries.len() as usize))).1,
        in_listing_order(sort_keyed(keyed_by_folded_name(entries))),
        sort_keyed(keyed_by_folded_name(entries)).to_multiset() == keyed_by_folded_name(
            entries,
        ).to_multiset(),
{
    lemma_sort_keyed(keyed_by_folded_name(entries));
    let s = listing(entries);
    lemma_sort_len(keyed_by_folded_name(entries));
    assert(s.len() == entries.len());
    assert forall|i: nat| i * k < entries.len() implies (#[trigger] page(s, (i * k) as nat, k as nat)).1 == ((i
        + 1) * k >= entries.len()) by {
        assert((i + 1) * k == i * k + k) by (nonlinear_arith);
    }
    lemma_collect_pages(s, 0, k as nat);
    assert(s.subrange(0, s.len() as int) == s);
}

/// Keyed entries in listing order: none sorts before an entry ahead of it.
pub open spec fn in_listing_order(s: Seq<Keyed>) -> bool {
    forall|i: int, j: int| 0 <= i < j < s.len() ==> !before(#[trigger] s[j], #[trigger] s[i])
}

proof fn lemma_before_irreflexive(a: Keyed)
    ensures
        !before(a, a),
{
    lemma_lex_irreflexive(a.1);
}

proof fn lemma_before_transitive(a: Keyed, b: Keyed, c: Keyed)
    requires
        before(a, b),
        before(b, c),
    ensures
        before(a, c),
{
    if a.0.is_dir == b.0.is_dir && b.0.is_dir == c.0.is_dir {
        lemma_lex_transitive(a.1, b.1, c.1);
    }
}

proof fn lemma_insert_pos_splits(s: Seq<Keyed>, x: Keyed)
    ensures
        forall|k: int| 0 <= k < insert_pos(s, x) ==> !before(x, #[trigger] s[k]),
        insert_pos(s, x) < s.len() ==> before(x, s[insert_pos(s, x)]),
    decreases s.len(),
{
    if s.len() > 0 && !before(x, s[0]) {
        lemma_insert_pos_splits(s.drop_first(), x);
        lemma_insert_pos_bound(s.drop_first(), x);
        let p = insert_pos(s, x);
        if p < s.len() {
            assert(s[p] == s.drop_first()[p - 1]);
        }
        assert forall|k: int| 0 <= k < insert_pos(s, x) implies !before(x, #[trigger] s[k]) by {
            if k > 0 {
                assert(s[k] == s.drop_first()[k - 1]);
            }
        }
    }
}

/// Sorting keeps every entry and puts them in listing order.
pub proof fn lemma_sort_keyed(s: Seq<Keyed>)
    ensures
        in_listing_order(sort_keyed(s)),
        sort_keyed(s).to_multiset() == s.to_multiset(),
    decreases s.len(),
{
    if s.len() > 0 {
        let r = sort_keyed(s.drop_last());
        let x = s.last();
        lemma_sort_keyed(s.drop_last());
        lemma_insert_pos_bound(r, x);
        lemma_insert_pos_splits(r, x);
        let p = insert_pos(r, x);
        let t = r.insert(p, x);
        assert forall|i: int, j: int| 0 <= i < j < t.len() implies !before(#[trigger] t[j], #[trigger] t[i]) by {
            if j < p {
                assert(t[i] == r[i] && t[j] == r[j]);
            } else if j == p {
                assert(t[i] == r[i]);
            } else if i < p {
                assert(t[i] == r[i] && t[j] == r[j - 1]);
                if before(r[j - 1], r[i]) {
                } 
            } else if i == p {
                assert(t[j] == r[j - 1]);
                if before(r[j - 1], x) {
                    lemma_before_transitive(r[j - 1], x, r[p]);
                    if j - 1 == p {
                        lemma_before_irreflexive(r[p]);
                    }
                }
            } else {
                assert(t[i] == r[i - 1] && t[j] == r[j - 1]);
            }
        }
        vstd::seq_lib::to_multiset_insert(r, p, x);
        vstd::seq_lib::to_multiset_build(s.drop_last(), x);
        assert(s.drop_last().push(x) == s);
    }
}

} // verus!
