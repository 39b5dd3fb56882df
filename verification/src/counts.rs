//! K-mer frequency counting.

use vstd::prelude::*;
use crate::kmer::str_views;

verus! {

/// Number of occurrences of `key` in `items`.
pub open spec fn occurrences(items: Seq<Seq<char>>, key: Seq<char>) -> nat
    decreases items.len(),
{
    if items.len() == 0 {
        0
    } else {
        occurrences(items.drop_last(), key) + if items.last() == key {
            1nat
        } else {
            0nat
        }
    }
}

/// The distinct elements of `items`, in first-occurrence order.
pub open spec fn distinct_in_order(items: Seq<Seq<char>>) -> Seq<Seq<char>>
    decreases items.len(),
{
    if items.len() == 0 {
        Seq::empty()
    } else {
        let prev = distinct_in_order(items.drop_last());
        if prev.contains(items.last()) {
            prev
        } else {
            prev.push(items.last())
        }
    }
}

/// The count of each distinct element of `items`, in first-occurrence order.
pub open spec fn counts_of(items: Seq<Seq<char>>) -> Seq<nat> {
    Seq::new(
        distinct_in_order(items).len(),
        |j: int| occurrences(items, distinct_in_order(items)[j]),
    )
}

/// An element occurs in `items` exactly when the distinct-element list
/// carries it.
pub proof fn lemma_distinct_contains(items: Seq<Seq<char>>, x: Seq<char>)
    ensures
        distinct_in_order(items).contains(x) <==> occurrences(items, x) > 0,
    decreases items.len(),
{
    if items.len() > 0 {
        lemma_distinct_contains(items.drop_last(), x);
        let prev = distinct_in_order(items.drop_last());
        if items.last() == x {
            if prev.contains(x) {
                assert(distinct_in_order(items) == prev);
            } else {
                assert(distinct_in_order(items)[prev.len() as int] == x);
            }
        } else {
            if !prev.contains(items.last()) {
                if prev.push(items.last()).contains(x) {
                    let w = choose|w: int|
                        0 <= w < prev.push(items.last()).len() && prev.push(items.last())[w] == x;
                    assert(prev[w] == x);
                }
                if prev.contains(x) {
                    let w = choose|w: int| 0 <= w < prev.len() && prev[w] == x;
                    assert(prev.push(items.last())[w] == x);
                }
            }
        }
    }
}

/// A k-mer frequency table: each distinct k-mer with its occurrence count,
/// keys unique, in first-seen order.
pub struct FrequencyMap {
    pub entries: Vec<(String, usize)>,
}

/// Sum of the counts of a table.
pub open spec fn sum_counts(entries: Seq<(String, usize)>) -> nat
    decreases entries.len(),
{
    if entries.len() == 0 {
        0
    } else {
        (sum_counts(entries.drop_last()) + entries.last().1) as nat
    }
}

/// No single count exceeds the sum of all counts.
pub proof fn lemma_count_le_sum(entries: Seq<(String, usize)>, j: int)
    requires
        0 <= j < entries.len(),
    ensures
        entries[j].1 <= sum_counts(entries),
    decreases entries.len(),
{
    if j < entries.len() - 1 {
        lemma_count_le_sum(entries.drop_last(), j);
    }
}

/// Updating one entry changes the sum by the difference of the counts.
pub proof fn lemma_sum_counts_update(entries: Seq<(String, usize)>, j: int, e: (String, usize))
    requires
        0 <= j < entries.len(),
    ensures
        sum_counts(entries.update(j, e)) == sum_counts(entries) - entries[j].1 + e.1,
    decreases entries.len(),
{
    if j == entries.len() - 1 {
        assert(entries.update(j, e).drop_last() =~= entries.drop_last());
    } else {
        assert(entries.update(j, e).drop_last() =~= entries.drop_last().update(j, e));
        lemma_sum_counts_update(entries.drop_last(), j, e);
    }
}

/// Appending an entry adds its count to the sum.
pub proof fn lemma_sum_counts_push(entries: Seq<(String, usize)>, e: (String, usize))
    ensures
        sum_counts(entries.push(e)) == sum_counts(entries) + e.1,
{
    assert(entries.push(e).drop_last() =~= entries);
}

impl FrequencyMap {
    /// Keys of the table, as character sequences, in entry order.
    pub open spec fn keys(&self) -> Seq<Seq<char>> {
        self.entries@.map_values(|e: (String, usize)| e.0@)
    }

    /// Counts of the table, in entry order.
    pub open spec fn counts(&self) -> Seq<nat> {
        self.entries@.map_values(|e: (String, usize)| e.1 as nat)
    }

    /// Keys are unique.
    pub open spec fn wf(&self) -> bool {
        forall|i: int, j: int|
            0 <= i < j < self.keys().len() ==> self.keys()[i] != self.keys()[j]
    }
}

/// Index of `key` in `entries`, scanning from the front.
fn find_key(entries: &Vec<(String, usize)>, key: &String) -> (r: Option<usize>)
    ensures
        match r {
            Some(j) => j < entries@.len() && entries@[j as int].0@ == key@,
            None => forall|m: int| 0 <= m < entries@.len() ==> entries@[m].0@ != key@,
        },
{
    let mut j: usize = 0;
    while j < entries.len()
        invariant
            j <= entries@.len(),
            forall|m: int| 0 <= m < j ==> entries@[m].0@ != key@,
        decreases entries@.len() - j,
    {
        if entries[j].0 == *key {
            return Some(j);
        }
        j = j + 1;
    }
    None
}

/// Count the occurrences of each k-mer.
///
/// The resulting table holds the distinct k-mers in first-seen order, each
/// with the number of times it occurs, and the counts add up to the number
/// of k-mers.
pub fn count(kmers: &Vec<String>) -> (r: FrequencyMap)
    ensures
        r.wf(),
        r.keys() == distinct_in_order(str_views(kmers@)),
        r.counts() == counts_of(str_views(kmers@)),
        forall|j: int|
            0 <= j < r.entries@.len() ==> r.entries@[j].1 == occurrences(
                str_views(kmers@),
                r.entries@[j].0@,
            ),
        sum_counts(r.entries@) == kmers@.len(),
{
    let ghost views = str_views(kmers@);
    let mut fm = FrequencyMap { entries: Vec::new() };
    let mut i: usize = 0;
    while i < kmers.len()
        invariant
            i <= kmers@.len(),
            views == str_views(kmers@),
            fm.wf(),
            fm.keys() == distinct_in_order(views.take(i as int)),
            forall|j: int|
                0 <= j < fm.entries@.len() ==> fm.entries@[j].1 == occurrences(
                    views.take(i as int),
                    fm.entries@[j].0@,
                ),
            sum_counts(fm.entries@) == i,
        decreases kmers@.len() - i,
    {
        let key = &kmers[i];
        let ghost prefix = views.take(i as int);
        let ghost next = views.take(i as int + 1);
        proof {
            assert(next.drop_last() =~= prefix);
            assert(next.last() == key@);
        }
        match find_key(&fm.entries, key) {
            Some(j) => {
                let ghost old_entries = fm.entries@;
                proof {
                    assert(fm.keys()[j as int] == key@);
                    assert(distinct_in_order(prefix).contains(key@));
                    assert(distinct_in_order(next) == distinct_in_order(prefix));
                    lemma_count_le_sum(fm.entries@, j as int);
                    assert forall|m: int|
                        0 <= m < old_entries.len() && m != j implies old_entries[m].0@
                        != key@ by {
                        assert(fm.keys()[m] == old_entries[m].0@);
                        if m < j {
                            assert(fm.keys()[m] != fm.keys()[j as int]);
                        } else {
                            assert(fm.keys()[j as int] != fm.keys()[m]);
                        }
                    }
                }
                let c = fm.entries[j].1;
                fm.entries[j].1 = c + 1;
                proof {
                    lemma_sum_counts_update(old_entries, j as int, fm.entries@[j as int]);
                    assert(fm.keys() =~= distinct_in_order(next));
                    assert forall|m: int| 0 <= m < fm.entries@.len() implies fm.entries@[m].1
                        == occurrences(next, fm.entries@[m].0@) by {
                        if m == j {
                            assert(fm.entries@[m].0@ == key@);
                        } else {
                            assert(old_entries[m].0@ != key@);
                        }
                    }
                }
            },
            None => {
                proof {
                    lemma_distinct_contains(prefix, key@);
                    assert forall|m: int|
                        0 <= m < fm.keys().len() implies fm.keys()[m] != key@ by {
                        assert(fm.entries@[m].0@ != key@);
                    }
                    assert(!distinct_in_order(prefix).contains(key@));
                }
                let ghost old_entries = fm.entries@;
                fm.entries.push((key.clone(), 1));
                proof {
                    assert(fm.keys() =~= distinct_in_order(next));
                    lemma_sum_counts_push(old_entries, fm.entries@.last());
                    assert forall|m: int| 0 <= m < fm.entries@.len() implies fm.entries@[m].1
                        == occurrences(next, fm.entries@[m].0@) by {
                        if m < fm.entries@.len() - 1 {
                            assert(fm.entries@[m] == old_entries[m]);
                            assert(fm.entries@[m].0@ != key@);
                        } else {
                            lemma_distinct_contains(prefix, fm.entries@[m].0@);
                        }
                    }
                }
            },
        }
        i = i + 1;
    }
    proof {
        assert(views.take(i as int) =~= views);
        assert(fm.counts() =~= counts_of(views));
    }
    fm
}

/// For a table built from the k-mers of a sequence of length `n` with
/// window size `k`, the counts add up to `n - k + 1`.
pub proof fn lemma_counts_total(s: Seq<char>, k: nat, fm: FrequencyMap)
    requires
        1 <= k <= s.len(),
        sum_counts(fm.entries@) == crate::kmer::kmers_of(s, k).len(),
    ensures
        sum_counts(fm.entries@) == s.len() - k + 1,
{
}

/// Re-running the counter on the same k-mer sequence yields a structurally
/// identical table: the key order and the counts are functions of the
/// input alone.
pub proof fn lemma_count_idempotent(kmers: Seq<Seq<char>>, a: FrequencyMap, b: FrequencyMap)
    requires
        a.keys() == distinct_in_order(kmers),
        a.counts() == counts_of(kmers),
        b.keys() == distinct_in_order(kmers),
        b.counts() == counts_of(kmers),
    ensures
        a.keys() == b.keys(),
        a.counts() == b.counts(),
{
}

} // verus!
