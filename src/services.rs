//! Services from the service manager's unit listings.

use vstd::prelude::*;
use vstd::string::*;
use crate::proto::ServiceInfo;
use crate::text::{split_on, split_on_char, split_words, str_eq, string_of, views, words};

verus! {

/// The non-empty rows among `ls`, in order.
pub open spec fn nonempty_rows(ls: Seq<Seq<Seq<char>>>) -> Seq<Seq<Seq<char>>>
    decreases ls.len(),
{
    if ls.len() == 0 {
        ls
    } else {
        let r = nonempty_rows(ls.drop_last());
        if ls.last().len() > 0 {
            r.push(ls.last())
        } else {
            r
        }
    }
}

/// The lines of a command's output that hold anything, each cut into its
/// white-space separated columns.
pub open spec fn rows(text: Seq<char>) -> Seq<Seq<Seq<char>>> {
    nonempty_rows(split_on(text, '\n').map_values(|l: Seq<char>| words(l)))
}

pub open spec fn row_views(r: Seq<Vec<String>>) -> Seq<Seq<Seq<char>>> {
    r.map_values(|w: Vec<String>| views(w@))
}

/// Cuts command output into rows of columns, dropping blank lines.
pub fn output_rows(text: &str) -> (r: Vec<Vec<String>>)
    ensures
        row_views(r@) == rows(text@),
{
    let lines = split_on_char(text, '\n');
    let ghost ls = views(lines@).map_values(|l: Seq<char>| words(l));
    let n = lines.len();
    let mut out: Vec<Vec<String>> = Vec::new();
    let mut i: usize = 0;
    assert(ls.subrange(0, 0) == Seq::<Seq<Seq<char>>>::empty());
    while i < n
        invariant
            n == lines@.len(),
            ls == views(lines@).map_values(|l: Seq<char>| words(l)),
            i <= n,
            row_views(out@) == nonempty_rows(ls.subrange(0, i as int)),
        decreases n - i,
    {
        let w = split_words(lines[i].as_str());
        assert(ls.subrange(0, i + 1).drop_last() == ls.subrange(0, i as int));
        assert(ls.subrange(0, i + 1).last() == views(w@));
        if w.len() > 0 {
            let ghost before = row_views(out@);
            out.push(w);
            assert(row_views(out@) == before.push(views(w@)));
        }
        i = i + 1;
    }
    assert(ls.subrange(0, n as int) == ls);
    out
}

/// What a unit file's state says of it being enabled.
pub open spec fn enabled_state(state: Seq<char>) -> Option<bool> {
    if state == "enabled"@ || state == "enabled-runtime"@ {
        Some(true)
    } else if state == "disabled"@ {
        Some(false)
    } else {
        None
    }
}

/// Whether the unit `name` is enabled, after the last row of the unit-file
/// listing that names it with a state.
pub open spec fn enabled_of(unit_files: Seq<Seq<Seq<char>>>, name: Seq<char>) -> Option<bool>
    decreases unit_files.len(),
{
    if unit_files.len() == 0 {
        None
    } else {
        let w = unit_files.last();
        if w.len() >= 2 && w[0] == name {
            enabled_state(w[1])
        } else {
            enabled_of(unit_files.drop_last(), name)
        }
    }
}

/// Words joined by single spaces.
pub open spec fn joined(ws: Seq<Seq<char>>) -> Seq<char>
    decreases ws.len(),
{
    if ws.len() == 0 {
        Seq::empty()
    } else if ws.len() == 1 {
        ws[0]
    } else {
        joined(ws.drop_last()) + " "@ + ws.last()
    }
}

pub open spec fn column_or_unknown(w: Seq<Seq<char>>, i: int) -> Seq<char> {
    if i < w.len() {
        w[i]
    } else {
        "unknown"@
    }
}

/// `s` is the service that the unit-listing row `w` describes: unit, load,
/// active and sub state, then the description.
pub open spec fn service_of_row(
    s: ServiceInfo,
    w: Seq<Seq<char>>,
    unit_files: Option<Seq<Seq<Seq<char>>>>,
) -> bool {
    &&& s.name@ == w[0]
    &&& s.active_state@ == column_or_unknown(w, 2)
    &&& s.sub_state@ == column_or_unknown(w, 3)
    &&& if w.len() > 4 {
        s.description matches Some(d) && d@ == joined(w.subrange(4, w.len() as int))
    } else {
        s.description is None
    }
    &&& s.enabled == match unit_files {
        Some(u) => enabled_of(u, w[0]),
        None => None,
    }
}

fn state_enabled(state: &str) -> (r: Option<bool>)
    ensures
        r == enabled_state(state@),
{
    if str_eq(state, "enabled") || str_eq(state, "enabled-runtime") {
        Some(true)
    } else if str_eq(state, "disabled") {
        Some(false)
    } else {
        None
    }
}

fn lookup_enabled(unit_files: &Vec<Vec<String>>, name: &str) -> (r: Option<bool>)
    ensures
        r == enabled_of(row_views(unit_files@), name@),
{
    let ghost u = row_views(unit_files@);
    let mut i: usize = unit_files.len();
    assert(u.subrange(0, i as int) == u);
    while i > 0
        invariant
            i <= unit_files@.len(),
            u == row_views(unit_files@),
            enabled_of(u, name@) == enabled_of(u.subrange(0, i as int), name@),
        decreases i,
    {
        let w = &unit_files[i - 1];
        let ghost pre = u.subrange(0, i as int);
        assert(pre.last() == views(w@));
        assert(pre.drop_last() == u.subrange(0, i - 1));
        if w.len() >= 2 {
            assert(views(w@)[0] == w@[0]@);
            assert(views(w@)[1] == w@[1]@);
            if str_eq(w[0].as_str(), name) {
                return state_enabled(w[1].as_str());
            }
        }
        i = i - 1;
    }
    None
}

fn join_from(w: &Vec<String>, from: usize) -> (r: String)
    requires
        from < w@.len(),
    ensures
        r@ == joined(views(w@).subrange(from as int, w@.len() as int)),
{
    let n = w.len();
    let ghost ws = views(w@);
    let mut s = w[from].clone();
    let mut i: usize = from + 1;
    assert(ws.subrange(from as int, from + 1) == seq![ws[from as int]]);
    while i < n
        invariant
            n == w@.len(),
            ws == views(w@),
            from < i <= n,
            s@ == joined(ws.subrange(from as int, i as int)),
        decreases n - i,
    {
        s.append(" ");
        s.append(w[i].as_str());
        assert(ws.subrange(from as int, i + 1).drop_last() == ws.subrange(from as int, i as int));
        i = i + 1;
    }
    s
}

/// The services from the unit listing of the service manager (`None` when it
/// could not be had: then there are none), each with its enabled state from the
/// unit-file listing (`None` when that could not be had).
pub fn services_from(unit_files: Option<String>, units: Option<String>) -> (r: Vec<ServiceInfo>)
    ensures
        match units {
            None => r@.len() == 0,
            Some(t) => r@.len() == rows(t@).len() && forall|i: int|
                0 <= i < r@.len() ==> service_of_row(
                    #[trigger] r@[i],
                    rows(t@)[i],
                    match unit_files {
                        Some(u) => Some(rows(u@)),
                        None => None,
                    },
                ),
        },
{
    let mut out: Vec<ServiceInfo> = Vec::new();
    let text = match units {
        Some(t) => t,
        None => {
            return out;
        },
    };
    let uf: Option<Vec<Vec<String>>> = match &unit_files {
        Some(u) => Some(output_rows(u.as_str())),
        None => None,
    };
    let ghost ufv: Option<Seq<Seq<Seq<char>>>> = match unit_files {
        Some(u) => Some(rows(u@)),
        None => None,
    };
    let rs = output_rows(text.as_str());
    let ghost rv = row_views(rs@);
    let n = rs.len();
    let mut i: usize = 0;
    while i < n
        invariant
            n == rs@.len(),
            rv == row_views(rs@),
            rv == rows(text@),
            ufv == match unit_files {
                Some(u) => Some(rows(u@)),
                None => None,
            },
            match uf {
                Some(v) => ufv == Some(row_views(v@)),
                None => ufv is None,
            },
            i <= n,
            out@.len() == i,
            forall|j: int| 0 <= j < i ==> service_of_row(#[trigger] out@[j], rv[j], ufv),
        decreases n - i,
    {
        let w = &rs[i];
        let ghost wv = views(w@);
        assert(rv[i as int] == wv);
        assert(wv.len() > 0) by {
            lemma_rows_nonempty(text@, i as int);
        }
        assert(wv[0] == w@[0]@);
        let active = if w.len() > 2 {
            assert(wv[2] == w@[2]@);
            w[2].clone()
        } else {
            string_of("unknown")
        };
        let sub = if w.len() > 3 {
            assert(wv[3] == w@[3]@);
            w[3].clone()
        } else {
            string_of("unknown")
        };
        let description = if w.len() > 4 {
            Some(join_from(w, 4))
        } else {
            None
        };
        let enabled = match &uf {
            Some(v) => lookup_enabled(v, w[0].as_str()),
            None => None,
        };
        let svc = ServiceInfo {
            name: w[0].clone(),
            description,
            active_state: active,
            sub_state: sub,
            enabled,
        };
        assert(service_of_row(svc, wv, ufv));
        out.push(svc);
        i = i + 1;
    }
    out
}

proof fn lemma_nonempty_rows(ls: Seq<Seq<Seq<char>>>, i: int)
    requires
        0 <= i < nonempty_rows(ls).len(),
    ensures
        nonempty_rows(ls)[i].len() > 0,
    decreases ls.len(),
{
    if ls.len() > 0 {
        let r = nonempty_rows(ls.drop_last());
        if i < r.len() {
            lemma_nonempty_rows(ls.drop_last(), i);
        }
    }
}

/// Every row has at least one column.
pub proof fn lemma_rows_nonempty(text: Seq<char>, i: int)
    requires
        0 <= i < rows(text).len(),
    ensures
        rows(text)[i].len() > 0,
{
    lemma_nonempty_rows(split_on(text, '\n').map_values(|l: Seq<char>| words(l)), i);
}

} // verus!
