use kmer_graph::counts::count;
use kmer_graph::export::{count_rows, graph_rows, histogram_points, join_labels, max_count};
use kmer_graph::graph::DeBruijnGraph;
use kmer_graph::kmer::extract;
use kmer_graph::materialize::{create_petgraph, graph_dot, MaterializedGraph};
use kmer_graph::random::generate_random_dna_sequence;
use petgraph::graph::{EdgeIndex, NodeIndex};

fn strings(v: &[&str]) -> Vec<String> {
    v.iter().map(|s| s.to_string()).collect()
}

#[test]
fn join_labels_with_separator() {
    assert_eq!(join_labels(&Vec::new()), "");
    assert_eq!(join_labels(&strings(&["G"])), "G");
    assert_eq!(join_labels(&strings(&["G", "T", "G"])), "G, T, G");
}

#[test]
fn graph_rows_end_to_end() {
    let kmers = extract("ACGTACGT", 3).unwrap();
    let g = DeBruijnGraph::new(&kmers);
    let rows = graph_rows(&g);
    assert_eq!(
        rows,
        vec![
            ("AC".to_string(), "G, G".to_string()),
            ("CG".to_string(), "T, T".to_string()),
            ("GT".to_string(), "A".to_string()),
            ("TA".to_string(), "C".to_string()),
        ]
    );
}

#[test]
fn count_rows_format_counts() {
    let kmers = extract("ACGTACGT", 3).unwrap();
    let fm = count(&kmers);
    let rows = count_rows(&fm);
    assert_eq!(
        rows,
        vec![
            ("ACG".to_string(), "2".to_string()),
            ("CGT".to_string(), "2".to_string()),
            ("GTA".to_string(), "1".to_string()),
            ("TAC".to_string(), "1".to_string()),
        ]
    );
    let long = "A".repeat(120);
    let ones = extract(&long, 1).unwrap();
    let fm1 = count(&ones);
    let rows1 = count_rows(&fm1);
    assert_eq!(rows1, vec![("A".to_string(), "120".to_string())]);
}

#[test]
fn max_count_of_table() {
    let kmers = extract("ACGTACGT", 3).unwrap();
    let fm = count(&kmers);
    assert_eq!(max_count(&fm), Some(2));
    let empty = count(&Vec::new());
    assert_eq!(max_count(&empty), None);
}

#[test]
fn histogram_points_of_table() {
    let kmers = extract("ACGTACGT", 3).unwrap();
    let fm = count(&kmers);
    assert_eq!(histogram_points(&fm), vec![(0, 2), (1, 2), (2, 1), (3, 1)]);
}

#[test]
fn materialize_end_to_end() {
    let kmers = extract("ACGTACGT", 3).unwrap();
    let g = DeBruijnGraph::new(&kmers);
    let mg = MaterializedGraph::new(&g);
    assert_eq!(
        mg.nodes,
        strings(&["AC", "G", "CG", "T", "GT", "A", "TA", "C"])
    );
    assert_eq!(mg.edges, vec![(0, 1), (0, 1), (2, 3), (2, 3), (4, 5), (6, 7)]);
}

#[test]
fn materialize_degenerate_single_characters() {
    let kmers = extract("ACGT", 1).unwrap();
    let g = DeBruijnGraph::new(&kmers);
    let mg = MaterializedGraph::new(&g);
    assert_eq!(mg.nodes, strings(&["", "A", "C", "G", "T"]));
    assert_eq!(mg.edges, vec![(0, 1), (0, 2), (0, 3), (0, 4)]);
}

#[test]
fn petgraph_holds_arena_and_edges() {
    let kmers = extract("ACGTACGT", 3).unwrap();
    let g = DeBruijnGraph::new(&kmers);
    let mg = MaterializedGraph::new(&g);
    let pg = create_petgraph(&mg);
    assert_eq!(pg.node_count(), 8);
    assert_eq!(pg.edge_count(), 6);
    assert_eq!(pg[NodeIndex::new(0)], "AC".to_string());
    assert_eq!(pg[NodeIndex::new(7)], "C".to_string());
    assert!(!pg.is_directed());
    let ends = pg.edge_endpoints(EdgeIndex::new(0)).unwrap();
    assert_eq!((ends.0.index(), ends.1.index()), (0, 1));
    let last = pg.edge_endpoints(EdgeIndex::new(5)).unwrap();
    assert_eq!((last.0.index(), last.1.index()), (6, 7));
}

#[test]
fn dot_text_describes_graph() {
    let kmers = extract("ACGTACGT", 3).unwrap();
    let g = DeBruijnGraph::new(&kmers);
    let mg = MaterializedGraph::new(&g);
    let dot = graph_dot(&mg);
    assert!(dot.starts_with("graph {"));
    assert!(dot.contains("\\\"AC\\\""));
    assert!(dot.contains("\\\"TA\\\""));
    assert!(dot.contains("0 -- 1"));
    assert!(dot.contains("6 -- 7"));
}

#[test]
fn random_sequence_is_dna() {
    let s = generate_random_dna_sequence(200);
    assert_eq!(s.len(), 200);
    assert!(s.chars().all(|c| c == 'A' || c == 'C' || c == 'G' || c == 'T'));
    assert_eq!(generate_random_dna_sequence(0), "");
}
