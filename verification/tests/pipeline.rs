use kmer_graph::counts::count;
use kmer_graph::graph::DeBruijnGraph;
use kmer_graph::kmer::{extract, KmerError};

fn strings(v: &[&str]) -> Vec<String> {
    v.iter().map(|s| s.to_string()).collect()
}

#[test]
fn extract_end_to_end() {
    let kmers = extract("ACGTACGT", 3).unwrap();
    assert_eq!(kmers, strings(&["ACG", "CGT", "GTA", "TAC", "ACG", "CGT"]));
}

#[test]
fn extract_window_counts_and_overlap() {
    let s = "ACGTACGT";
    for k in 1..=s.len() {
        let kmers = extract(s, k).unwrap();
        assert_eq!(kmers.len(), s.len() - k + 1);
        for w in &kmers {
            assert_eq!(w.len(), k);
        }
        for i in 0..kmers.len() - 1 {
            assert_eq!(kmers[i][1..], kmers[i + 1][..k - 1]);
        }
    }
}

#[test]
fn extract_full_window() {
    assert_eq!(extract("ACGT", 4).unwrap(), strings(&["ACGT"]));
}

#[test]
fn extract_rejects_bad_window() {
    assert_eq!(extract("ACGT", 0), Err(KmerError::InvalidWindowSize));
    assert_eq!(extract("ACGT", 5), Err(KmerError::InvalidWindowSize));
}

#[test]
fn extract_rejects_empty_sequence() {
    assert_eq!(extract("", 1), Err(KmerError::InvalidWindowSize));
    assert_eq!(extract("", 7), Err(KmerError::InvalidWindowSize));
}

#[test]
fn count_end_to_end() {
    let kmers = extract("ACGTACGT", 3).unwrap();
    let fm = count(&kmers);
    assert_eq!(
        fm.entries,
        vec![
            ("ACG".to_string(), 2),
            ("CGT".to_string(), 2),
            ("GTA".to_string(), 1),
            ("TAC".to_string(), 1),
        ]
    );
}

#[test]
fn count_total_is_window_count() {
    let s = "ACGTACGTAC";
    for k in 1..=s.len() {
        let kmers = extract(s, k).unwrap();
        let fm = count(&kmers);
        let total: usize = fm.entries.iter().map(|e| e.1).sum();
        assert_eq!(total, s.len() - k + 1);
    }
}

#[test]
fn count_empty_input() {
    let fm = count(&Vec::new());
    assert!(fm.entries.is_empty());
}

#[test]
fn count_idempotent() {
    let kmers = extract("ACGTACGT", 3).unwrap();
    let a = count(&kmers);
    let b = count(&kmers);
    assert_eq!(a.entries, b.entries);
}

#[test]
fn build_end_to_end() {
    let kmers = extract("ACGTACGT", 3).unwrap();
    let g = DeBruijnGraph::new(&kmers);
    assert_eq!(
        g.edges,
        vec![
            ("AC".to_string(), strings(&["G", "G"])),
            ("CG".to_string(), strings(&["T", "T"])),
            ("GT".to_string(), strings(&["A"])),
            ("TA".to_string(), strings(&["C"])),
        ]
    );
}

#[test]
fn build_total_labels_is_window_count() {
    let s = "ACGTACGTAC";
    for k in 1..=s.len() {
        let kmers = extract(s, k).unwrap();
        let g = DeBruijnGraph::new(&kmers);
        let total: usize = g.edges.iter().map(|e| e.1.len()).sum();
        assert_eq!(total, s.len() - k + 1);
    }
}

#[test]
fn build_idempotent() {
    let kmers = extract("ACGTACGT", 3).unwrap();
    let a = DeBruijnGraph::new(&kmers);
    let b = DeBruijnGraph::new(&kmers);
    assert_eq!(a.edges, b.edges);
}

#[test]
fn degenerate_single_character_windows() {
    let kmers = extract("ACGT", 1).unwrap();
    assert_eq!(kmers, strings(&["A", "C", "G", "T"]));
    let g = DeBruijnGraph::new(&kmers);
    assert_eq!(g.edges.len(), 1);
    assert_eq!(g.edges[0].0, "");
    assert_eq!(g.edges[0].1, strings(&["A", "C", "G", "T"]));
}
