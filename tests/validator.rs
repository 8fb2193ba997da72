use rust_transaction_validator::{
    Transaction, TransactionType, TransactionValidator, ValidationError, ValidatorConfig,
};

const HOUR_MS: i64 = 3_600_000;
const DAY_MS: i64 = 86_400_000;

fn now_ms() -> i64 {
    chrono::Utc::now().timestamp_millis()
}

/// Today at the given hour, UTC.
fn today_at(hour: i64) -> i64 {
    let now = now_ms();
    now - now.rem_euclid(DAY_MS) + hour * HOUR_MS
}

fn create_valid_transaction() -> Transaction {
    Transaction {
        transaction_id: "TXN-001".to_string(),
        transaction_type: TransactionType::Transfer,
        amount: 100_000,
        currency: "USD".to_string(),
        from_account: Some("ACCT-1234-5678-9012".to_string()),
        to_account: Some("ACCT-6789-0123-4567".to_string()),
        timestamp: today_at(12),
        user_id: "USER-001".to_string(),
        metadata: None,
    }
}

#[test]
fn test_valid_transaction() {
    let mut validator = TransactionValidator::new();
    let transaction = create_valid_transaction();
    let result = validator.validate(&transaction);

    assert!(result.is_valid);
    assert!(result.errors.is_empty());
}

#[test]
fn test_invalid_amount() {
    let mut validator = TransactionValidator::new();
    let mut transaction = create_valid_transaction();
    transaction.amount = -10_000;

    let result = validator.validate(&transaction);
    assert!(!result.is_valid);
    assert!(!result.errors.is_empty());
}

#[test]
fn test_duplicate_detection() {
    let mut validator = TransactionValidator::new();
    let transaction = create_valid_transaction();

    let result1 = validator.validate(&transaction);
    assert!(result1.is_valid);

    let result2 = validator.validate(&transaction);
    assert!(!result2.is_valid);
    assert!(result2
        .errors
        .iter()
        .any(|e| matches!(e, ValidationError::DuplicateTransaction(_))));
}

#[test]
fn test_fraud_detection() {
    let mut validator = TransactionValidator::new();
    let mut transaction = create_valid_transaction();
    transaction.amount = 10_000_000;

    let result = validator.validate(&transaction);
    assert!(result.fraud_score > 0);
    assert!(!result.warnings.is_empty());
}

#[test]
fn test_business_rules() {
    let mut validator = TransactionValidator::new();
    let mut transaction = create_valid_transaction();
    transaction.transaction_type = TransactionType::Transfer;
    transaction.from_account = None;

    let result = validator.validate(&transaction);
    assert!(!result.is_valid);
}

#[test]
fn test_velocity_check() {
    let mut validator = TransactionValidator::new();
    let user_id = "USER-VELOCITY-TEST".to_string();

    for i in 0..5 {
        let mut transaction = create_valid_transaction();
        transaction.user_id = user_id.clone();
        transaction.transaction_id = format!("TXN-{}", i);
        transaction.amount = 500_000;

        let result = validator.validate(&transaction);
        if i < 3 {
            assert!(result.is_valid || !result.warnings.is_empty());
        }
    }

    let stats = validator.get_stats();
    assert_eq!(stats.total_transactions_in_history, 5);
}

#[test]
fn test_risk_breakdown() {
    let mut validator = TransactionValidator::new();
    let mut transaction = create_valid_transaction();
    transaction.amount = 15_000_000;

    let result = validator.validate(&transaction);

    assert!(result.risk_breakdown.amount_risk > 0);
    assert!(result.risk_breakdown.total_score > 0);
    assert_eq!(result.risk_breakdown.total_score, result.fraud_score);
}

#[test]
fn test_time_based_risk() {
    let mut validator = TransactionValidator::new();
    let mut transaction = create_valid_transaction();
    transaction.timestamp = today_at(2);

    let result = validator.validate(&transaction);
    assert!(result.risk_breakdown.time_risk > 0);
}

#[test]
fn test_risk_level_description() {
    let mut validator = TransactionValidator::new();

    let mut transaction = create_valid_transaction();
    transaction.amount = 10_000;
    let result = validator.validate(&transaction);
    assert_eq!(result.risk_level(), "Low");

    let mut transaction2 = create_valid_transaction();
    transaction2.transaction_id = "TXN-002".to_string();
    transaction2.amount = 20_000_000;
    let result2 = validator.validate(&transaction2);
    assert!(matches!(result2.risk_level(), "High" | "Critical" | "Medium"));
}

#[test]
fn test_manual_review_flag() {
    let mut validator = TransactionValidator::new();
    let mut transaction = create_valid_transaction();
    transaction.amount = 10_000_000;

    let result = validator.validate(&transaction);
    assert!(result.requires_manual_review() || !result.warnings.is_empty());
}

#[test]
fn test_batch_validation() {
    let mut validator = TransactionValidator::new();

    let transactions = vec![
        create_valid_transaction(),
        {
            let mut tx = create_valid_transaction();
            tx.transaction_id = "TXN-002".to_string();
            tx
        },
        {
            let mut tx = create_valid_transaction();
            tx.transaction_id = "TXN-003".to_string();
            tx.amount = -10_000;
            tx
        },
    ];

    let results = validator.validate_batch(&transactions);

    assert_eq!(results.len(), 3);
    assert!(results[0].is_valid);
    assert!(results[1].is_valid);
    assert!(!results[2].is_valid);
}

#[test]
fn lib_test_history_cleanup() {
    let mut validator = TransactionValidator::new();

    let old_time = now_ms() - 48 * HOUR_MS;
    for i in 0..5 {
        let mut transaction = create_valid_transaction();
        transaction.transaction_id = format!("TXN-{}", i);
        transaction.timestamp = old_time;
        validator.validate(&transaction);
    }

    let cutoff = now_ms() - 24 * HOUR_MS;
    validator.clear_old_history(cutoff);

    let stats = validator.get_stats();
    assert_eq!(stats.total_transactions_in_history, 0);
}

#[test]
fn test_is_approved() {
    let mut validator = TransactionValidator::new();

    let mut transaction = create_valid_transaction();
    transaction.amount = 50_000;
    let result = validator.validate(&transaction);
    assert!(result.is_approved());

    let mut transaction2 = create_valid_transaction();
    transaction2.transaction_id = "TXN-002".to_string();
    transaction2.amount = 50_000_000;
    let result2 = validator.validate(&transaction2);
    assert!(!result2.is_approved() || result2.fraud_score < 50);
}

#[test]
fn test_velocity_amount_limit() {
    let config = ValidatorConfig {
        max_transaction_amount: 100_000_000,
        min_transaction_amount: 1,
        fraud_threshold: 70,
        enable_duplicate_check: true,
        enable_aml_check: true,
        velocity_check_window_minutes: 60,
        max_transactions_per_window: 10,
        max_amount_per_window: 5_000_000,
    };

    let mut validator = TransactionValidator::with_config(config);
    let user_id = "USER-AMOUNT-TEST".to_string();

    for i in 0..3 {
        let mut transaction = create_valid_transaction();
        transaction.user_id = user_id.clone();
        transaction.transaction_id = format!("TXN-{}", i);
        transaction.amount = 2_000_000;

        let result = validator.validate(&transaction);
        if i >= 2 {
            assert!(result.risk_breakdown.velocity_risk > 0);
        }
    }
}
