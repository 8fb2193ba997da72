use rust_transaction_validator::network_analysis::{
    NetworkAnalyzer, SuspiciousPattern, TransactionGraph,
};

fn now_ms() -> i64 {
    chrono::Utc::now().timestamp_millis()
}

#[test]
fn test_add_transaction() {
    let mut graph = TransactionGraph::new();
    let now = now_ms();

    graph.add_transaction("A", "B", 100_000, now);
    graph.add_transaction("A", "C", 200_000, now);

    let stats = graph.get_account_stats("A").unwrap();
    assert_eq!(stats.total_outflow, 300_000);
    assert_eq!(stats.outgoing_connections, 2);
}

#[test]
fn test_circular_flow_detection() {
    let mut graph = TransactionGraph::new();
    let now = now_ms();

    graph.add_transaction("A", "B", 100_000, now);
    graph.add_transaction("B", "C", 100_000, now);
    graph.add_transaction("C", "A", 100_000, now);

    let circles = graph.detect_circular_flows(5);
    assert!(!circles.is_empty());
}

#[test]
fn network_analysis_test_structuring_detection() {
    let mut graph = TransactionGraph::new();
    graph.set_reporting_threshold(1_000_000);
    let now = now_ms();

    graph.add_transaction("A", "B", 950_000, now);
    graph.add_transaction("A", "C", 920_000, now);
    graph.add_transaction("A", "D", 980_000, now);

    let structuring = graph.detect_structuring();
    assert!(!structuring.is_empty());
}

#[test]
fn test_funnel_account() {
    let mut graph = TransactionGraph::new();
    let now = now_ms();

    for i in 0..10 {
        graph.add_transaction(&format!("SOURCE{}", i), "FUNNEL", 100_000, now);
    }
    graph.add_transaction("FUNNEL", "DEST", 950_000, now);

    let funnels = graph.detect_funnel_accounts();
    assert!(!funnels.is_empty());
    assert_eq!(funnels[0].account_id, "FUNNEL");
}

#[test]
fn test_pass_through() {
    let mut graph = TransactionGraph::new();
    let now = now_ms();

    graph.add_transaction("A", "PASS", 100_000, now);
    graph.add_transaction("B", "PASS", 100_000, now);
    graph.add_transaction("PASS", "C", 100_000, now);
    graph.add_transaction("PASS", "D", 100_000, now);

    let pass_through = graph.detect_pass_through();
    assert!(!pass_through.is_empty() || pass_through.is_empty());
}

#[test]
fn test_network_analyzer() {
    let mut analyzer = NetworkAnalyzer::new();
    let now = now_ms();

    analyzer.add_transaction("A", "B", 500_000, now);
    analyzer.add_transaction("B", "C", 500_000, now);
    analyzer.add_transaction("C", "A", 500_000, now);

    let report = analyzer.analyze_all();
    assert!(report.graph_stats.node_count >= 3);
    assert!(report.graph_stats.total_transactions >= 3);
}

#[test]
fn test_graph_stats() {
    let mut graph = TransactionGraph::new();
    let now = now_ms();

    graph.add_transaction("A", "B", 100_000, now);
    graph.add_transaction("A", "B", 50_000, now);
    graph.add_transaction("B", "C", 75_000, now);

    let stats = graph.get_stats();
    assert_eq!(stats.node_count, 3);
    assert_eq!(stats.total_transactions, 3);
    assert_eq!(stats.total_amount, 225_000);
}

#[test]
fn cycle_reported_through_each_account() {
    let mut graph = TransactionGraph::new();
    graph.add_transaction("A", "B", 100_000, 0);
    graph.add_transaction("B", "C", 200_000, 0);
    graph.add_transaction("C", "A", 300_000, 0);
    let circles = graph.detect_circular_flows(5);
    assert_eq!(circles.len(), 3);
    assert_eq!(circles[0].accounts, vec!["A", "B", "C", "A"]);
    assert_eq!(circles[0].total_amount, 600_000);
    assert_eq!(circles[0].pattern, SuspiciousPattern::CircularFlow);
    // Too shallow a search finds nothing.
    assert!(graph.detect_circular_flows(2).is_empty());
}

#[test]
fn two_account_loop_is_no_cycle() {
    let mut graph = TransactionGraph::new();
    graph.add_transaction("A", "B", 100_000, 0);
    graph.add_transaction("B", "A", 100_000, 0);
    assert!(graph.detect_circular_flows(5).is_empty());
}

#[test]
fn structuring_band_edges() {
    let mut graph = TransactionGraph::new();
    // 850,000 is the lower edge of the band; 1,000,000 is outside it.
    graph.add_transaction("A", "B", 850_000, 0);
    graph.add_transaction("A", "C", 999_999, 0);
    graph.add_transaction("A", "D", 1_000_000, 0);
    assert!(graph.detect_structuring().is_empty());
    graph.add_transaction("A", "E", 900_000, 0);
    let found = graph.detect_structuring();
    assert_eq!(found.len(), 1);
    assert_eq!(found[0].account_id, "A");
    assert_eq!(found[0].transaction_amounts, vec![850_000, 999_999, 900_000]);
    assert_eq!(found[0].total_amount, 2_749_999);
    assert_eq!(found[0].threshold_avoided, 1_000_000);
}

#[test]
fn distributor_account() {
    let mut graph = TransactionGraph::new();
    graph.add_transaction("ORIGIN", "HUB", 1_000_000, 0);
    for i in 0..10 {
        graph.add_transaction("HUB", &format!("DEST{}", i), 100_000, 0);
    }
    let found = graph.detect_funnel_accounts();
    assert_eq!(found.len(), 1);
    assert_eq!(found[0].account_id, "HUB");
    assert_eq!(found[0].pattern, SuspiciousPattern::Distributor);
    assert_eq!(found[0].outgoing_count, 10);
}

#[test]
fn pass_through_exact() {
    let mut graph = TransactionGraph::new();
    graph.add_transaction("A", "PASS", 100_000, 0);
    graph.add_transaction("B", "PASS", 100_000, 3_600_000);
    graph.add_transaction("PASS", "C", 100_000, 7_200_000);
    graph.add_transaction("PASS", "D", 105_000, 3 * 3_600_000 + 1);
    let found = graph.detect_pass_through();
    assert_eq!(found.len(), 1);
    assert_eq!(found[0].account_id, "PASS");
    assert_eq!(found[0].transaction_count, 4);
    assert_eq!(found[0].activity_duration_hours, 3);
}

#[test]
fn analyzer_report_counts() {
    let mut analyzer = NetworkAnalyzer::new();
    analyzer.add_transaction("A", "B", 500_000, 0);
    analyzer.add_transaction("B", "C", 500_000, 0);
    analyzer.add_transaction("C", "A", 500_000, 0);
    let report = analyzer.analyze_all();
    assert!(report.has_suspicious_activity());
    // One circular flow per account; each account is also a pass-through
    // candidate only with four transactions, which none has.
    assert_eq!(report.suspicious_pattern_count(), 3);
    assert_eq!(report.graph_stats.total_amount, 1_500_000);
    let stats = analyzer.get_account_stats("B").unwrap();
    assert_eq!(stats.net_flow, 0);
    assert!(analyzer.get_account_stats("Z").is_none());
}

#[test]
fn capacity_check() {
    let mut graph = TransactionGraph::new();
    assert!(graph.can_add_transaction("A", "B", i64::MAX, 0));
    graph.add_transaction("A", "B", i64::MAX, 0);
    assert!(!graph.can_add_transaction("A", "B", 1, 0));
    assert!(graph.can_add_transaction("A", "B", -1, 0));
}
