use rust_transaction_validator::fraud_patterns::FraudFlagType;
use rust_transaction_validator::{
    FraudDetector, FraudThresholds, RiskLevel, Transaction, TransactionType,
};

fn now_ms() -> i64 {
    chrono::Utc::now().timestamp_millis()
}

fn create_test_transaction(amount: i64) -> Transaction {
    Transaction {
        transaction_id: "TXN-001".to_string(),
        from_account: Some("ACC-123".to_string()),
        to_account: Some("ACC-456".to_string()),
        amount,
        currency: "USD".to_string(),
        timestamp: now_ms(),
        transaction_type: TransactionType::Transfer,
        user_id: "USER-001".to_string(),
        metadata: None,
    }
}

#[test]
fn test_low_risk_transaction() {
    let mut detector = FraudDetector::new();
    let txn = create_test_transaction(10_000);
    let score = detector.calculate_fraud_score(&txn);

    assert_eq!(score.risk_level, RiskLevel::Low);
    assert!(score.flags.is_empty());
}

#[test]
fn test_high_amount_detection() {
    let mut detector = FraudDetector::new();
    let txn = create_test_transaction(6_000_000);
    let score = detector.calculate_fraud_score(&txn);

    assert!(score.score > 0);
    assert!(score
        .flags
        .iter()
        .any(|f| f.flag_type == FraudFlagType::UnusualAmount));
}

#[test]
fn test_round_amount_detection() {
    let mut detector = FraudDetector::new();
    let txn = create_test_transaction(1_500_000);
    let score = detector.calculate_fraud_score(&txn);

    assert!(score
        .flags
        .iter()
        .any(|f| f.flag_type == FraudFlagType::RoundAmount));
}

#[test]
fn test_velocity_detection() {
    let mut detector = FraudDetector::with_thresholds(FraudThresholds {
        max_transactions_per_hour: 2,
        ..Default::default()
    });

    let mut txn1 = create_test_transaction(10_000);
    txn1.transaction_id = "TXN-VEL-001".to_string();
    let score1 = detector.calculate_fraud_score(&txn1);
    assert!(score1
        .flags
        .iter()
        .all(|f| f.flag_type != FraudFlagType::VelocityExceeded));

    let mut txn2 = create_test_transaction(10_000);
    txn2.transaction_id = "TXN-VEL-002".to_string();
    let score2 = detector.calculate_fraud_score(&txn2);
    assert!(score2
        .flags
        .iter()
        .all(|f| f.flag_type != FraudFlagType::VelocityExceeded));

    let mut txn3 = create_test_transaction(10_000);
    txn3.transaction_id = "TXN-VEL-003".to_string();
    let score3 = detector.calculate_fraud_score(&txn3);
    assert!(score3
        .flags
        .iter()
        .any(|f| f.flag_type == FraudFlagType::VelocityExceeded));
}

#[test]
fn test_high_risk_country() {
    let mut detector = FraudDetector::new();
    let mut txn = create_test_transaction(100_000);
    txn.metadata = Some(vec![("country".to_string(), "IR".to_string())]);

    let score = detector.calculate_fraud_score(&txn);
    assert!(score
        .flags
        .iter()
        .any(|f| f.flag_type == FraudFlagType::HighRiskCountry));
}

#[test]
fn fraud_patterns_test_history_cleanup() {
    let mut detector = FraudDetector::new();
    for _ in 0..10 {
        let txn = create_test_transaction(10_000);
        detector.calculate_fraud_score(&txn);
    }

    assert_eq!(detector.get_transaction_count("ACC-123"), 10);
    detector.cleanup_history();
    assert!(detector.get_transaction_count("ACC-123") > 0);
}

#[test]
fn test_daily_total() {
    let mut detector = FraudDetector::new();
    detector.calculate_fraud_score(&create_test_transaction(100_000));
    detector.calculate_fraud_score(&create_test_transaction(200_000));
    detector.calculate_fraud_score(&create_test_transaction(150_000));

    let total = detector.get_daily_total("ACC-123");
    assert_eq!(total, 450_000);
}

#[test]
fn both_amount_signals_fire_and_score_is_capped() {
    let mut detector = FraudDetector::new();
    let t0 = now_ms();
    let mut txn = create_test_transaction(10_000);
    txn.timestamp = t0 - 3_600_000;
    detector.calculate_fraud_score(&txn);
    // 7,000,000 is above the 5,000,000 ceiling and more than five times the
    // average; it is also round, and comes long after the previous entry.
    let mut big = create_test_transaction(7_000_000);
    big.timestamp = t0;
    let score = detector.calculate_fraud_score(&big);
    let kinds: Vec<(FraudFlagType, u8)> = score.flags.iter().map(|f| (f.flag_type, f.severity)).collect();
    assert_eq!(
        kinds,
        vec![
            (FraudFlagType::UnusualAmount, 30),
            (FraudFlagType::UnusualAmount, 20),
            (FraudFlagType::RoundAmount, 15),
        ]
    );
    assert_eq!(score.score, 65);
    assert_eq!(score.risk_level, RiskLevel::High);
}

#[test]
fn rapid_succession_and_progression() {
    let mut detector = FraudDetector::new();
    let t0 = now_ms() - 600_000;
    for (i, amount) in [10_000i64, 20_000, 30_000].iter().enumerate() {
        let mut txn = create_test_transaction(*amount);
        txn.timestamp = t0 + (i as i64) * 60_000;
        detector.calculate_fraud_score(&txn);
    }
    let mut txn = create_test_transaction(10_000);
    txn.timestamp = t0 + 2 * 60_000 + 5_000;
    let score = detector.calculate_fraud_score(&txn);
    let kinds: Vec<FraudFlagType> = score.flags.iter().map(|f| f.flag_type).collect();
    assert_eq!(kinds, vec![FraudFlagType::RapidSuccession, FraudFlagType::AmountProgression]);
    assert_eq!(score.score, 30);
    assert_eq!(score.risk_level, RiskLevel::Medium);
}

#[test]
fn cleanup_at_drops_old_accounts() {
    let mut detector = FraudDetector::new();
    let mut txn = create_test_transaction(10_000);
    txn.timestamp = 1_000;
    detector.calculate_fraud_score(&txn);
    assert_eq!(detector.get_transaction_count("ACC-123"), 1);
    detector.cleanup_history_at(1_000 + 86_400_000);
    assert_eq!(detector.get_transaction_count("ACC-123"), 0);
    assert_eq!(detector.get_daily_total_at("ACC-123", 2_000), 0);
}

#[test]
fn no_source_account_keeps_no_history() {
    let mut detector = FraudDetector::new();
    let mut txn = create_test_transaction(10_000);
    txn.from_account = None;
    detector.calculate_fraud_score(&txn);
    assert_eq!(detector.get_transaction_count("ACC-123"), 0);
}

#[test]
fn zero_hourly_limit_flags_first_transaction() {
    let mut detector = FraudDetector::with_thresholds(FraudThresholds {
        max_transactions_per_hour: 0,
        ..Default::default()
    });
    let score = detector.calculate_fraud_score(&create_test_transaction(10_000));
    assert_eq!(score.flags.len(), 1);
    assert_eq!(score.flags[0].flag_type, FraudFlagType::VelocityExceeded);
    assert_eq!(score.score, 25);
}
