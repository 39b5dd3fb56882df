//! De Bruijn-style adjacency structure built from a k-mer sequence.
//!
//! Each k-mer contributes one edge: its first `k - 1` characters are the
//! node key, its final character is the edge label.  Labels are appended in
//! k-mer order and never deduplicated, so a node visited twice by k-mers
//! with the same trailing character carries two entries.

use vstd::prelude::*;
use crate::counts::distinct_in_order;
use crate::kmer::str_views;

verus! {

/// The node key of a k-mer: everything but the last character.
pub open spec fn node_key_of(kmer: Seq<char>) -> Seq<char> {
    kmer.subrange(0, kmer.len() - 1)
}

/// The edge label of a k-mer: its last character, as a one-character string.
pub open spec fn edge_label_of(kmer: Seq<char>) -> Seq<char> {
    kmer.subrange(kmer.len() - 1, kmer.len() as int)
}

/// The node keys of a k-mer sequence, in order.
pub open spec fn node_keys(kmers: Seq<Seq<char>>) -> Seq<Seq<char>> {
    kmers.map_values(|x: Seq<char>| node_key_of(x))
}

/// The labels accumulated at `node`: one per k-mer whose node key is
/// `node`, in k-mer order.
pub open spec fn labels_at(kmers: Seq<Seq<char>>, node: Seq<char>) -> Seq<Seq<char>>
    decreases kmers.len(),
{
    if kmers.len() == 0 {
        Seq::empty()
    } else {
        let prev = labels_at(kmers.drop_last(), node);
        if node_key_of(kmers.last()) == node {
            prev.push(edge_label_of(kmers.last()))
        } else {
            prev
        }
    }
}

/// The De Bruijn-style adjacency structure: each node key with its ordered
/// list of single-character edge labels, keys unique, in first-seen order.
pub struct DeBruijnGraph {
    pub edges: Vec<(String, Vec<String>)>,
}

/// Sum of the adjacency-list lengths.
pub open spec fn sum_label_lens(entries: Seq<(String, Vec<String>)>) -> nat
    decreases entries.len(),
{
    if entries.len() == 0 {
        0
    } else {
        (sum_label_lens(entries.drop_last()) + entries.last().1@.len()) as nat
    }
}

/// Appending a label to one entry grows the sum of list lengths by one.
proof fn lemma_sum_label_lens_update(
    entries: Seq<(String, Vec<String>)>,
    j: int,
    e: (String, Vec<String>),
)
    requires
        0 <= j < entries.len(),
    ensures
        sum_label_lens(entries.update(j, e)) == sum_label_lens(entries) - entries[j].1@.len()
            + e.1@.len(),
    decreases entries.len(),
{
    if j == entries.len() - 1 {
        assert(entries.update(j, e).drop_last() =~= entries.drop_last());
    } else {
        assert(entries.update(j, e).drop_last() =~= entries.drop_last().update(j, e));
        lemma_sum_label_lens_update(entries.drop_last(), j, e);
    }
}

/// Appending an entry adds its list length to the sum.
proof fn lemma_sum_label_lens_push(entries: Seq<(String, Vec<String>)>, e: (String, Vec<String>))
    ensures
        sum_label_lens(entries.push(e)) == sum_label_lens(entries) + e.1@.len(),
{
    assert(entries.push(e).drop_last() =~= entries);
}

impl DeBruijnGraph {
    /// Node keys of the structure, as character sequences, in entry order.
    pub open spec fn keys(&self) -> Seq<Seq<char>> {
        self.edges@.map_values(|e: (String, Vec<String>)| e.0@)
    }

    /// Keys are unique.
    pub open spec fn wf(&self) -> bool {
        forall|i: int, j: int|
            0 <= i < j < self.keys().len() ==> self.keys()[i] != self.keys()[j]
    }

    /// Build the adjacency structure from a sequence of k-mers.
    ///
    /// The node keys come out in first-seen order; the list at each key
    /// holds one label per originating k-mer, in k-mer order, duplicates
    /// preserved; and the list lengths add up to the number of k-mers.
    pub fn new(kmers: &Vec<String>) -> (r: DeBruijnGraph)
        requires
            forall|i: int| 0 <= i < kmers@.len() ==> kmers@[i]@.len() >= 1,
        ensures
            r.wf(),
            r.keys() == distinct_in_order(node_keys(str_views(kmers@))),
            forall|j: int|
                0 <= j < r.edges@.len() ==> str_views(r.edges@[j].1@) == labels_at(
                    str_views(kmers@),
                    r.edges@[j].0@,
                ),
            sum_label_lens(r.edges@) == kmers@.len(),
    {
        let ghost views = str_views(kmers@);
        let mut g = DeBruijnGraph { edges: Vec::new() };
        let mut i: usize = 0;
        while i < kmers.len()
            invariant
                i <= kmers@.len(),
                views == str_views(kmers@),
                forall|m: int| 0 <= m < kmers@.len() ==> kmers@[m]@.len() >= 1,
                g.wf(),
                g.keys() == distinct_in_order(node_keys(views.take(i as int))),
                forall|j: int|
                    0 <= j < g.edges@.len() ==> str_views(g.edges@[j].1@) == labels_at(
                        views.take(i as int),
                        g.edges@[j].0@,
                    ),
                sum_label_lens(g.edges@) == i,
            decreases kmers@.len() - i,
        {
            let kmer = &kmers[i];
            let len = kmer.as_str().unicode_len();
            let node = kmer.as_str().substring_char(0, len - 1).to_owned();
            let label = kmer.as_str().substring_char(len - 1, len).to_owned();
            let ghost prefix = views.take(i as int);
            let ghost next = views.take(i as int + 1);
            proof {
                assert(next.drop_last() =~= prefix);
                assert(next.last() == kmer@);
                assert(node@ == node_key_of(kmer@));
                assert(label@ == edge_label_of(kmer@));
                assert(node_keys(next).drop_last() =~= node_keys(prefix));
                assert(node_keys(next).last() == node_key_of(kmer@));
            }
            match find_node(&g.edges, &node) {
                Some(j) => {
                    let ghost old_entries = g.edges@;
                    proof {
                        assert(g.keys()[j as int] == node@);
                        assert(distinct_in_order(node_keys(prefix)).contains(node@));
                        assert(distinct_in_order(node_keys(next)) == distinct_in_order(
                            node_keys(prefix),
                        ));
                        assert forall|m: int|
                            0 <= m < old_entries.len() && m != j implies old_entries[m].0@
                            != node@ by {
                            assert(g.keys()[m] == old_entries[m].0@);
                            if m < j {
                                assert(g.keys()[m] != g.keys()[j as int]);
                            } else {
                                assert(g.keys()[j as int] != g.keys()[m]);
                            }
                        }
                    }
                    let ghost old_list = g.edges@[j as int].1@;
                    g.edges[j].1.push(label);
                    proof {
                        assert(g.edges@ =~= old_entries.update(
                            j as int,
                            g.edges@[j as int],
                        ));
                        lemma_sum_label_lens_update(old_entries, j as int, g.edges@[j as int]);
                        assert(g.keys() =~= distinct_in_order(node_keys(next)));
                        assert forall|m: int| 0 <= m < g.edges@.len() implies str_views(
                            g.edges@[m].1@,
                        ) == labels_at(next, g.edges@[m].0@) by {
                            if m == j {
                                assert(str_views(g.edges@[m].1@) =~= str_views(old_list).push(
                                    label@,
                                ));
                            } else {
                                assert(old_entries[m].0@ != node@);
                                assert(g.edges@[m] == old_entries[m]);
                            }
                        }
                    }
                },
                None => {
                    proof {
                        crate::counts::lemma_distinct_contains(node_keys(prefix), node@);
                        assert forall|m: int|
                            0 <= m < g.keys().len() implies g.keys()[m] != node@ by {
                            assert(g.edges@[m].0@ != node@);
                        }
                        assert(!distinct_in_order(node_keys(prefix)).contains(node@));
                    }
                    let ghost old_entries = g.edges@;
                    let mut list: Vec<String> = Vec::new();
                    list.push(label);
                    g.edges.push((node, list));
                    proof {
                        assert(g.keys() =~= distinct_in_order(node_keys(next)));
                        lemma_sum_label_lens_push(old_entries, g.edges@.last());
                        assert forall|m: int| 0 <= m < g.edges@.len() implies str_views(
                            g.edges@[m].1@,
                        ) == labels_at(next, g.edges@[m].0@) by {
                            if m < g.edges@.len() - 1 {
                                assert(g.edges@[m] == old_entries[m]);
                                assert(g.edges@[m].0@ != node_key_of(kmer@));
                            } else {
                                crate::counts::lemma_distinct_contains(
                                    node_keys(prefix),
                                    g.edges@[m].0@,
                                );
                                lemma_labels_at_empty(prefix, g.edges@[m].0@);
                                assert(str_views(g.edges@[m].1@) =~= labels_at(
                                    prefix,
                                    g.edges@[m].0@,
                                ).push(edge_label_of(kmer@)));
                            }
                        }
                    }
                },
            }
            i = i + 1;
        }
        proof {
            assert(views.take(i as int) =~= views);
        }
        g
    }
}

/// A node whose key occurs nowhere in the k-mer sequence accumulates no
/// labels.
proof fn lemma_labels_at_empty(kmers: Seq<Seq<char>>, node: Seq<char>)
    requires
        crate::counts::occurrences(node_keys(kmers), node) == 0,
    ensures
        labels_at(kmers, node) == Seq::<Seq<char>>::empty(),
    decreases kmers.len(),
{
    if kmers.len() > 0 {
        assert(node_keys(kmers).last() == node_key_of(kmers.last()));
        assert(node_keys(kmers).drop_last() =~= node_keys(kmers.drop_last()));
        lemma_labels_at_empty(kmers.drop_last(), node);
    }
}

/// Index of `key` among the node entries, scanning from the front.
fn find_node(entries: &Vec<(String, Vec<String>)>, key: &String) -> (r: Option<usize>)
    ensures
        match r {
            Some(j) => j < entries@.len() && entries@[j as int].0@ == key@,
            None => forall|m: int| 0 <= m < entries@.len() ==> entries@[m].0@ != key@,
        },
{
    let mut j: usize = 0;
    while j < entries.len()
        invariant
            j <= entries@.len(),
            forall|m: int| 0 <= m < j ==> entries@[m].0@ != key@,
        decreases entries@.len() - j,
    {
        if entries[j].0 == *key {
            return Some(j);
        }
        j = j + 1;
    }
    None
}

/// For a structure built from the k-mers of a sequence of length `n` with
/// window size `k`, the adjacency-list lengths add up to `n - k + 1`.
pub proof fn lemma_labels_total(s: Seq<char>, k: nat, g: DeBruijnGraph)
    requires
        1 <= k <= s.len(),
        sum_label_lens(g.edges@) == crate::kmer::kmers_of(s, k).len(),
    ensures
        sum_label_lens(g.edges@) == s.len() - k + 1,
{
}

/// Re-running the builder on the same k-mer sequence yields a structurally
/// identical adjacency structure: the key order and every label list are
/// functions of the input alone.
pub proof fn lemma_build_idempotent(kmers: Seq<Seq<char>>, a: DeBruijnGraph, b: DeBruijnGraph)
    requires
        a.keys() == distinct_in_order(node_keys(kmers)),
        b.keys() == distinct_in_order(node_keys(kmers)),
        forall|j: int|
            0 <= j < a.edges@.len() ==> str_views(a.edges@[j].1@) == labels_at(
                kmers,
                a.edges@[j].0@,
            ),
        forall|j: int|
            0 <= j < b.edges@.len() ==> str_views(b.edges@[j].1@) == labels_at(
                kmers,
                b.edges@[j].0@,
            ),
    ensures
        a.keys() == b.keys(),
        forall|j: int|
            0 <= j < a.edges@.len() ==> str_views(a.edges@[j].1@) == str_views(b.edges@[j].1@),
{
    assert(a.edges@.len() == a.keys().len());
    assert(b.edges@.len() == b.keys().len());
    assert forall|j: int|
        0 <= j < a.edges@.len() implies str_views(a.edges@[j].1@) == str_views(
        b.edges@[j].1@,
    ) by {
        assert(a.keys()[j] == a.edges@[j].0@);
        assert(b.keys()[j] == b.edges@[j].0@);
    }
}

} // verus!
