//! Export-side computations: the values that the tabular and histogram
//! exporters write, derived from the core structures.

use vstd::prelude::*;
use crate::counts::FrequencyMap;
use crate::graph::DeBruijnGraph;
use crate::kmer::str_views;

verus! {

/// The strings of `labels` joined with `", "`, as the tabular graph
/// exporter writes a node's connected labels.
pub open spec fn joined(labels: Seq<Seq<char>>) -> Seq<char>
    decreases labels.len(),
{
    if labels.len() == 0 {
        Seq::empty()
    } else if labels.len() == 1 {
        labels[0]
    } else {
        joined(labels.drop_last()) + ", "@ + labels.last()
    }
}

/// Join the labels of one node with `", "`.
pub fn join_labels(labels: &Vec<String>) -> (r: String)
    ensures
        r@ == joined(str_views(labels@)),
{
    let mut out = String::new();
    let mut i: usize = 0;
    while i < labels.len()
        invariant
            i <= labels@.len(),
            out@ == joined(str_views(labels@).take(i as int)),
        decreases labels@.len() - i,
    {
        if i > 0 {
            out.append(", ");
        }
        out.append(labels[i].as_str());
        proof {
            let vs = str_views(labels@);
            assert(vs.take(i as int + 1).drop_last() =~= vs.take(i as int));
            assert(vs.take(i as int + 1).last() == labels@[i as int]@);
            if i == 0 {
                assert(out@ =~= joined(vs.take(i as int + 1)));
            }
        }
        i = i + 1;
    }
    proof {
        assert(str_views(labels@).take(labels@.len() as int) =~= str_views(labels@));
    }
    out
}

/// Rows of the tabular graph export: each node key beside its label list
/// joined with `", "`, in entry order.
pub fn graph_rows(g: &DeBruijnGraph) -> (r: Vec<(String, String)>)
    ensures
        r@.len() == g.edges@.len(),
        forall|j: int|
            0 <= j < r@.len() ==> r@[j].0@ == g.edges@[j].0@ && r@[j].1@ == joined(
                str_views(g.edges@[j].1@),
            ),
{
    let mut rows: Vec<(String, String)> = Vec::new();
    let mut i: usize = 0;
    while i < g.edges.len()
        invariant
            i <= g.edges@.len(),
            rows@.len() == i,
            forall|j: int|
                0 <= j < i ==> rows@[j].0@ == g.edges@[j].0@ && rows@[j].1@ == joined(
                    str_views(g.edges@[j].1@),
                ),
        decreases g.edges@.len() - i,
    {
        let key = g.edges[i].0.clone();
        let connected = join_labels(&g.edges[i].1);
        rows.push((key, connected));
        i = i + 1;
    }
    rows
}

/// The character of a single decimal digit.
pub open spec fn digit_char(d: nat) -> char {
    if d == 0 {
        '0'
    } else if d == 1 {
        '1'
    } else if d == 2 {
        '2'
    } else if d == 3 {
        '3'
    } else if d == 4 {
        '4'
    } else if d == 5 {
        '5'
    } else if d == 6 {
        '6'
    } else if d == 7 {
        '7'
    } else if d == 8 {
        '8'
    } else {
        '9'
    }
}

/// The decimal digits of `n`, most significant first, no leading zeros
/// (a single `'0'` for zero).
pub open spec fn decimal_of(n: nat) -> Seq<char>
    decreases n,
{
    if n < 10 {
        seq![digit_char(n)]
    } else {
        decimal_of(n / 10).push(digit_char(n % 10))
    }
}

/// Format a count as decimal text.
pub fn usize_to_decimal(n: usize) -> (r: String)
    ensures
        r@ == decimal_of(n as nat),
    decreases n,
{
    let d = n % 10;
    let digit = if d == 0 {
        "0"
    } else if d == 1 {
        "1"
    } else if d == 2 {
        "2"
    } else if d == 3 {
        "3"
    } else if d == 4 {
        "4"
    } else if d == 5 {
        "5"
    } else if d == 6 {
        "6"
    } else if d == 7 {
        "7"
    } else if d == 8 {
        "8"
    } else {
        "9"
    };
    proof {
        reveal_strlit("0");
        reveal_strlit("1");
        reveal_strlit("2");
        reveal_strlit("3");
        reveal_strlit("4");
        reveal_strlit("5");
        reveal_strlit("6");
        reveal_strlit("7");
        reveal_strlit("8");
        reveal_strlit("9");
        assert(digit@ =~= seq![digit_char(d as nat)]);
    }
    if n < 10 {
        digit.to_owned()
    } else {
        let mut s = usize_to_decimal(n / 10);
        s.append(digit);
        proof {
            assert(decimal_of((n / 10) as nat) + digit@ =~= decimal_of((n / 10) as nat).push(
                digit_char((n % 10) as nat),
            ));
        }
        s
    }
}

/// Rows of the tabular frequency export: each distinct k-mer beside its
/// count written in decimal, in entry order.
pub fn count_rows(fm: &FrequencyMap) -> (r: Vec<(String, String)>)
    ensures
        r@.len() == fm.entries@.len(),
        forall|j: int|
            0 <= j < r@.len() ==> r@[j].0@ == fm.entries@[j].0@ && r@[j].1@ == decimal_of(
                fm.entries@[j].1 as nat,
            ),
{
    let mut rows: Vec<(String, String)> = Vec::new();
    let mut i: usize = 0;
    while i < fm.entries.len()
        invariant
            i <= fm.entries@.len(),
            rows@.len() == i,
            forall|j: int|
                0 <= j < i ==> rows@[j].0@ == fm.entries@[j].0@ && rows@[j].1@ == decimal_of(
                    fm.entries@[j].1 as nat,
                ),
        decreases fm.entries@.len() - i,
    {
        let kmer = fm.entries[i].0.clone();
        let text = usize_to_decimal(fm.entries[i].1);
        rows.push((kmer, text));
        i = i + 1;
    }
    rows
}

/// The largest count of the table, `None` when the table is empty.
pub fn max_count(fm: &FrequencyMap) -> (r: Option<usize>)
    ensures
        r is Some <==> fm.entries@.len() > 0,
        r is Some ==> exists|j: int|
            0 <= j < fm.entries@.len() && fm.entries@[j].1 == r.unwrap(),
        r is Some ==> forall|j: int|
            0 <= j < fm.entries@.len() ==> fm.entries@[j].1 <= r.unwrap(),
{
    if fm.entries.len() == 0 {
        return None;
    }
    let mut m = fm.entries[0].1;
    let mut i: usize = 1;
    while i < fm.entries.len()
        invariant
            1 <= i <= fm.entries@.len(),
            exists|j: int| 0 <= j < i && fm.entries@[j].1 == m,
            forall|j: int| 0 <= j < i ==> fm.entries@[j].1 <= m,
        decreases fm.entries@.len() - i,
    {
        if fm.entries[i].1 > m {
            m = fm.entries[i].1;
        }
        i = i + 1;
    }
    Some(m)
}

/// Histogram data for the renderer: one `(index, count)` point per table
/// entry, the index being the entry's position.
pub fn histogram_points(fm: &FrequencyMap) -> (r: Vec<(usize, usize)>)
    ensures
        r@.len() == fm.entries@.len(),
        forall|j: int| 0 <= j < r@.len() ==> r@[j].0 == j && r@[j].1 == fm.entries@[j].1,
{
    let mut points: Vec<(usize, usize)> = Vec::new();
    let mut i: usize = 0;
    while i < fm.entries.len()
        invariant
            i <= fm.entries@.len(),
            points@.len() == i,
            forall|j: int| 0 <= j < i ==> points@[j].0 == j && points@[j].1 == fm.entries@[j].1,
        decreases fm.entries@.len() - i,
    {
        points.push((i, fm.entries[i].1));
        i = i + 1;
    }
    points
}

} // verus!
