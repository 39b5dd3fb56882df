//! Materialization of the adjacency structure as an explicit node/edge
//! graph, and its export through petgraph.
//!
//! Every distinct node key and every distinct edge label becomes a graph
//! node, indexed in first-seen order; one undirected edge records each
//! (node key, edge label) occurrence, duplicates preserved.

use vstd::prelude::*;
use crate::counts::distinct_in_order;
use crate::graph::DeBruijnGraph;
use crate::kmer::str_views;

verus! {

/// The adjacency entries as character sequences: each node key with its
/// label views.
pub open spec fn entries_view(g: &DeBruijnGraph) -> Seq<(Seq<char>, Seq<Seq<char>>)> {
    g.edges@.map_values(|e: (String, Vec<String>)| (e.0@, str_views(e.1@)))
}

/// The strings met while materializing, in arena order: each node key
/// followed by its labels.
pub open spec fn node_stream(entries: Seq<(Seq<char>, Seq<Seq<char>>)>) -> Seq<Seq<char>>
    decreases entries.len(),
{
    if entries.len() == 0 {
        Seq::empty()
    } else {
        node_stream(entries.drop_last()) + seq![entries.last().0] + entries.last().1
    }
}

/// One (node key, edge label) pair per label occurrence, in order.
pub open spec fn pair_stream(entries: Seq<(Seq<char>, Seq<Seq<char>>)>) -> Seq<
    (Seq<char>, Seq<char>),
>
    decreases entries.len(),
{
    if entries.len() == 0 {
        Seq::empty()
    } else {
        pair_stream(entries.drop_last()) + pairs_of(entries.last().0, entries.last().1)
    }
}

/// The label occurrences of one entry, paired with its node key.
pub open spec fn pairs_of(key: Seq<char>, labels: Seq<Seq<char>>) -> Seq<(Seq<char>, Seq<char>)> {
    labels.map_values(|lab: Seq<char>| (key, lab))
}

/// An explicit node/edge graph: an arena of distinct node strings in
/// first-seen order, and one index pair per edge occurrence.
pub struct MaterializedGraph {
    pub nodes: Vec<String>,
    pub edges: Vec<(usize, usize)>,
}

impl MaterializedGraph {
    /// Node strings, as character sequences, in arena order.
    pub open spec fn node_views(&self) -> Seq<Seq<char>> {
        str_views(self.nodes@)
    }

    /// Node strings are distinct and every edge endpoint is a valid index.
    pub open spec fn wf(&self) -> bool {
        &&& forall|i: int, j: int|
            0 <= i < j < self.node_views().len() ==> self.node_views()[i] != self.node_views()[j]
        &&& forall|m: int|
            0 <= m < self.edges@.len() ==> self.edges@[m].0 < self.nodes@.len()
                && self.edges@[m].1 < self.nodes@.len()
    }

    /// The edges carry the right strings: edge `m` connects the node
    /// holding the `m`-th pair's key to the node holding its label.
    pub open spec fn edges_match(&self, pairs: Seq<(Seq<char>, Seq<char>)>) -> bool {
        &&& self.edges@.len() == pairs.len()
        &&& forall|m: int|
            0 <= m < self.edges@.len() ==> self.node_views()[self.edges@[m].0 as int] == pairs[m].0
                && self.node_views()[self.edges@[m].1 as int] == pairs[m].1
    }

    /// Materialize the adjacency structure.
    ///
    /// The arena holds the distinct node keys and labels in first-seen
    /// order (each key before its labels); one edge records each
    /// (node key, label) occurrence, duplicates preserved.  Since the
    /// arena entries are distinct, this pins every index.
    pub fn new(g: &DeBruijnGraph) -> (r: MaterializedGraph)
        ensures
            r.wf(),
            r.node_views() == distinct_in_order(node_stream(entries_view(g))),
            r.edges_match(pair_stream(entries_view(g))),
    {
        let ghost entries = entries_view(g);
        let mut mg = MaterializedGraph { nodes: Vec::new(), edges: Vec::new() };
        let mut i: usize = 0;
        while i < g.edges.len()
            invariant
                i <= g.edges@.len(),
                entries == entries_view(g),
                mg.wf(),
                mg.node_views() == distinct_in_order(node_stream(entries.take(i as int))),
                mg.edges_match(pair_stream(entries.take(i as int))),
            decreases g.edges@.len() - i,
        {
            let ghost prev_stream = node_stream(entries.take(i as int));
            let ghost prev_pairs = pair_stream(entries.take(i as int));
            let key = &g.edges[i].0;
            let ghost labels_vs = str_views(g.edges@[i as int].1@);
            proof {
                assert(entries[i as int] == (key@, labels_vs));
            }
            let ni = arena_index(&mut mg, key);
            let ghost stream0 = prev_stream + seq![key@];
            proof {
                assert(stream0 =~= prev_stream.push(key@));
                assert(stream0.drop_last() =~= prev_stream);
                assert(mg.node_views() == distinct_in_order(stream0));
                assert(pairs_of(key@, labels_vs.take(0)) =~= Seq::<(Seq<char>, Seq<char>)>::empty());
                assert(prev_pairs + pairs_of(key@, labels_vs.take(0)) =~= prev_pairs);
            }
            let mut j: usize = 0;
            while j < g.edges[i].1.len()
                invariant
                    i < g.edges@.len(),
                    j <= g.edges@[i as int].1@.len(),
                    entries == entries_view(g),
                    labels_vs == str_views(g.edges@[i as int].1@),
                    entries[i as int] == (g.edges@[i as int].0@, labels_vs),
                    key@ == g.edges@[i as int].0@,
                    prev_stream == node_stream(entries.take(i as int)),
                    prev_pairs == pair_stream(entries.take(i as int)),
                    stream0 == prev_stream + seq![key@],
                    mg.wf(),
                    ni < mg.nodes@.len(),
                    mg.node_views()[ni as int] == key@,
                    mg.node_views() == distinct_in_order(stream0 + labels_vs.take(j as int)),
                    mg.edges_match(prev_pairs + pairs_of(key@, labels_vs.take(j as int))),
                decreases g.edges@[i as int].1@.len() - j,
            {
                let lab = &g.edges[i].1[j];
                proof {
                    assert(lab@ == labels_vs[j as int]);
                }
                let li = arena_index(&mut mg, lab);
                proof {
                    assert((stream0 + labels_vs.take(j as int + 1)) =~= (stream0
                        + labels_vs.take(j as int)).push(labels_vs[j as int]));
                    assert((stream0 + labels_vs.take(j as int + 1)).drop_last() =~= stream0
                        + labels_vs.take(j as int));
                    assert((stream0 + labels_vs.take(j as int + 1)).last() == labels_vs[j as int]);
                }
                mg.edges.push((ni, li));
                proof {
                    assert(pairs_of(key@, labels_vs.take(j as int + 1)) =~= pairs_of(
                        key@,
                        labels_vs.take(j as int),
                    ).push((key@, labels_vs[j as int])));
                    assert((prev_pairs + pairs_of(key@, labels_vs.take(j as int + 1))) =~= (
                    prev_pairs + pairs_of(key@, labels_vs.take(j as int))).push(
                        (key@, labels_vs[j as int]),
                    ));
                }
                j = j + 1;
            }
            proof {
                assert(labels_vs.take(j as int) =~= labels_vs);
                assert(entries.take(i as int + 1).drop_last() =~= entries.take(i as int));
                assert(entries.take(i as int + 1).last() == entries[i as int]);
                assert(node_stream(entries.take(i as int + 1)) == prev_stream + seq![key@]
                    + labels_vs);
                assert(stream0 + labels_vs =~= prev_stream + seq![key@] + labels_vs);
                assert(pair_stream(entries.take(i as int + 1)) == prev_pairs + pairs_of(
                    key@,
                    labels_vs,
                ));
            }
            i = i + 1;
        }
        proof {
            assert(entries.take(i as int) =~= entries);
        }
        mg
    }
}

/// Index of `key` in the arena, inserting it at the end when absent.
fn arena_index(mg: &mut MaterializedGraph, key: &String) -> (r: usize)
    requires
        old(mg).wf(),
    ensures
        final(mg).wf(),
        r < final(mg).nodes@.len(),
        final(mg).node_views()[r as int] == key@,
        final(mg).edges@ == old(mg).edges@,
        final(mg).node_views() == if old(mg).node_views().contains(key@) {
            old(mg).node_views()
        } else {
            old(mg).node_views().push(key@)
        },
{
    let mut j: usize = 0;
    while j < mg.nodes.len()
        invariant
            j <= mg.nodes@.len(),
            forall|m: int| 0 <= m < j ==> mg.node_views()[m] != key@,
            *mg == *old(mg),
            mg.wf(),
        decreases mg.nodes@.len() - j,
    {
        if mg.nodes[j] == *key {
            proof {
                assert(mg.node_views()[j as int] == key@);
            }
            return j;
        }
        j = j + 1;
    }
    proof {
        assert(!old(mg).node_views().contains(key@));
    }
    let ghost old_views = mg.node_views();
    mg.nodes.push(key.clone());
    proof {
        assert(mg.node_views() =~= old_views.push(key@));
    }
    mg.nodes.len() - 1
}

/// petgraph's graph type, declared so that it can stand in signatures;
/// its contents are reachable only through the named spec functions below.
#[verifier::external_type_specification]
#[verifier::external_body]
#[verifier::reject_recursive_types(N)]
#[verifier::reject_recursive_types(E)]
#[verifier::reject_recursive_types(Ty)]
#[verifier::reject_recursive_types(Ix)]
pub struct ExGraph<N, E, Ty, Ix>(petgraph::graph::Graph<N, E, Ty, Ix>);

/// petgraph's edge-type marker for undirected graphs.
#[verifier::external_type_specification]
#[verifier::external_body]
pub struct ExUndirected(petgraph::Undirected);

/// The node weights a petgraph graph holds, in index order.
pub uninterp spec fn graph_node_views(g: petgraph::graph::UnGraph<String, ()>) -> Seq<Seq<char>>;

/// The edges a petgraph graph holds, as index pairs, in insertion order.
pub uninterp spec fn graph_edge_pairs(g: petgraph::graph::UnGraph<String, ()>) -> Seq<(int, int)>;

/// Relies on petgraph's `Graph::new_undirected`: the new graph has no
/// nodes and no edges.
#[verifier::external_body]
fn pg_new() -> (g: petgraph::graph::UnGraph<String, ()>)
    ensures
        graph_node_views(g) == Seq::<Seq<char>>::empty(),
        graph_edge_pairs(g) == Seq::<(int, int)>::empty(),
{
    petgraph::graph::UnGraph::new_undirected()
}

/// Relies on petgraph's `Graph::add_node`: appends a node with the given
/// weight at the next index and returns that index; edges are untouched.
/// It panics only at the index type's node limit, which the precondition
/// rules out.
#[verifier::external_body]
fn pg_add_node(g: &mut petgraph::graph::UnGraph<String, ()>, weight: String) -> (ix: usize)
    requires
        graph_node_views(*old(g)).len() < 0xffff_ffff,
    ensures
        graph_node_views(*final(g)) == graph_node_views(*old(g)).push(weight@),
        graph_edge_pairs(*final(g)) == graph_edge_pairs(*old(g)),
        ix == graph_node_views(*old(g)).len(),
{
    g.add_node(weight).index()
}

/// Relies on petgraph's `Graph::add_edge`: appends an edge between the two
/// node indices; nodes are untouched.  It panics only on an index out of
/// bounds or at the index type's edge limit, which the preconditions rule
/// out.
#[verifier::external_body]
fn pg_add_edge(g: &mut petgraph::graph::UnGraph<String, ()>, a: usize, b: usize)
    requires
        a < graph_node_views(*old(g)).len(),
        b < graph_node_views(*old(g)).len(),
        graph_edge_pairs(*old(g)).len() < 0xffff_ffff,
    ensures
        graph_node_views(*final(g)) == graph_node_views(*old(g)),
        graph_edge_pairs(*final(g)) == graph_edge_pairs(*old(g)).push((a as int, b as int)),
{
    g.add_edge(
        petgraph::graph::NodeIndex::new(a),
        petgraph::graph::NodeIndex::new(b),
        (),
    );
}

/// The edge index pairs of a materialized graph, as mathematical integers.
pub open spec fn edge_pairs_of(mg: &MaterializedGraph) -> Seq<(int, int)> {
    mg.edges@.map_values(|e: (usize, usize)| (e.0 as int, e.1 as int))
}

/// Convert the materialized graph into a petgraph graph for export: one
/// petgraph node per arena entry, in arena order, then one undirected edge
/// per recorded index pair, in order.
pub fn create_petgraph(mg: &MaterializedGraph) -> (r: petgraph::graph::UnGraph<String, ()>)
    requires
        mg.wf(),
        mg.nodes@.len() < 0xffff_ffff,
        mg.edges@.len() < 0xffff_ffff,
    ensures
        graph_node_views(r) == mg.node_views(),
        graph_edge_pairs(r) == edge_pairs_of(mg),
{
    let mut g = pg_new();
    let mut i: usize = 0;
    proof {
        assert(mg.node_views().take(0) =~= Seq::<Seq<char>>::empty());
    }
    while i < mg.nodes.len()
        invariant
            mg.nodes@.len() < 0xffff_ffff,
            i <= mg.nodes@.len(),
            graph_node_views(g) == mg.node_views().take(i as int),
            graph_edge_pairs(g) == Seq::<(int, int)>::empty(),
        decreases mg.nodes@.len() - i,
    {
        let w = mg.nodes[i].clone();
        pg_add_node(&mut g, w);
        proof {
            assert(mg.node_views().take(i as int + 1) =~= mg.node_views().take(i as int).push(
                mg.node_views()[i as int],
            ));
        }
        i = i + 1;
    }
    proof {
        assert(mg.node_views().take(i as int) =~= mg.node_views());
        assert(edge_pairs_of(mg).take(0) =~= Seq::<(int, int)>::empty());
    }
    let mut m: usize = 0;
    while m < mg.edges.len()
        invariant
            mg.wf(),
            mg.edges@.len() < 0xffff_ffff,
            m <= mg.edges@.len(),
            graph_node_views(g) == mg.node_views(),
            graph_edge_pairs(g) == edge_pairs_of(mg).take(m as int),
        decreases mg.edges@.len() - m,
    {
        let (a, b) = mg.edges[m];
        pg_add_edge(&mut g, a, b);
        proof {
            assert(edge_pairs_of(mg).take(m as int + 1) =~= edge_pairs_of(mg).take(
                m as int,
            ).push((a as int, b as int)));
        }
        m = m + 1;
    }
    proof {
        assert(edge_pairs_of(mg).take(m as int) =~= edge_pairs_of(mg));
    }
    g
}

/// The DOT text petgraph's formatter produces for a graph: a function of
/// the node weights and the edge index pairs alone.
pub uninterp spec fn dot_of(nodes: Seq<Seq<char>>, edges: Seq<(int, int)>) -> Seq<char>;

/// Relies on petgraph's `Dot` formatter with `EdgeNoLabel`: the DOT text
/// it writes is determined by the graph's node weights and edges alone.
#[verifier::external_body]
fn pg_dot_string(g: &petgraph::graph::UnGraph<String, ()>) -> (r: String)
    ensures
        r@ == dot_of(graph_node_views(*g), graph_edge_pairs(*g)),
{
    let dot = petgraph::dot::Dot::with_config(g, &[petgraph::dot::Config::EdgeNoLabel]);
    format!("{:?}", dot)
}

/// The DOT description of a materialized graph, as petgraph's formatter
/// writes it.
pub fn graph_dot(mg: &MaterializedGraph) -> (r: String)
    requires
        mg.wf(),
        mg.nodes@.len() < 0xffff_ffff,
        mg.edges@.len() < 0xffff_ffff,
    ensures
        r@ == dot_of(mg.node_views(), edge_pairs_of(mg)),
{
    let g = create_petgraph(mg);
    pg_dot_string(&g)
}

} // verus!
