use rust_transaction_validator::network_analysis::{SuspiciousPattern, TransactionGraph};
use rust_transaction_validator::validator::is_valid_account_format;
use rust_transaction_validator::{
    RiskBreakdown, Transaction, TransactionType, TransactionValidator, ValidationError,
    ValidatorConfig,
};

const HOUR_MS: i64 = 3_600_000;

fn tx(id: &str, amount: i64, hour: i64) -> Transaction {
    Transaction {
        transaction_id: id.to_string(),
        transaction_type: TransactionType::Payment,
        amount,
        currency: "USD".to_string(),
        from_account: Some("AB12-CD34-EF56-GH78".to_string()),
        to_account: Some("****5678".to_string()),
        timestamp: 1_700_006_400_000 + hour * HOUR_MS,
        user_id: "USER-P".to_string(),
        metadata: None,
    }
}

fn has_kind(errors: &[ValidationError], f: fn(&ValidationError) -> bool) -> bool {
    errors.iter().any(f)
}

#[test]
fn nonpositive_amounts_are_invalid() {
    for amount in [0i64, -1, -100_000] {
        let mut v = TransactionValidator::new();
        let r = v.validate(&tx("NP", amount, 12));
        assert!(!r.is_valid);
        assert!(has_kind(&r.errors, |e| matches!(e, ValidationError::InvalidAmount(_))));
    }
}

#[test]
fn second_submission_is_duplicate_even_after_invalid_first() {
    let mut v = TransactionValidator::new();
    let first = v.validate(&tx("DUP", -5, 12));
    assert!(!first.is_valid);
    let second = v.validate(&tx("DUP", 10_000, 12));
    assert!(!second.is_valid);
    assert!(second
        .errors
        .iter()
        .any(|e| matches!(e, ValidationError::DuplicateTransaction(id) if id == "DUP")));
}

#[test]
fn breakdown_total_is_capped_sum() {
    let mut v = TransactionValidator::new();
    // Amount 40, pattern 20 + 30 + 10, time 20: 120, capped at 100.
    let r = v.validate(&tx("BIG", 20_000_000, 23));
    let b = r.risk_breakdown;
    assert_eq!((b.amount_risk, b.pattern_risk, b.time_risk), (40, 60, 20));
    assert_eq!(b.total_score, 100);
    assert_eq!(r.fraud_score, 100);
    let mut rb = RiskBreakdown::new();
    rb.amount_risk = 15;
    rb.velocity_risk = 10;
    rb.pattern_risk = 20;
    rb.time_risk = 10;
    rb.calculate_total();
    assert_eq!(rb.total_score, 55);
}

#[test]
fn round_amount_always_flagged() {
    let mut v = TransactionValidator::new();
    let r = v.validate(&tx("ROUND", 1_000_000, 12));
    assert_eq!(r.risk_breakdown.pattern_risk, 20);
    assert!(r.warnings.iter().any(|w| w == "Large round number transaction"));
    let r = v.validate(&tx("NOTROUND", 1_050_050, 12));
    assert_eq!(r.risk_breakdown.pattern_risk, 0);
}

#[test]
fn velocity_limit_reached_on_next() {
    let config = ValidatorConfig {
        max_transactions_per_window: 3,
        ..ValidatorConfig::default()
    };
    let mut v = TransactionValidator::with_config(config);
    for i in 0..3 {
        let r = v.validate(&tx(&format!("V{}", i), 10_000, 12));
        assert!(!r.errors.iter().any(|e| matches!(e, ValidationError::VelocityViolation(_))));
    }
    let r = v.validate(&tx("V3", 10_000, 12));
    assert!(r.errors.iter().any(|e| matches!(e, ValidationError::VelocityViolation(_))));
    assert_eq!(r.risk_breakdown.velocity_risk, 30);
}

#[test]
fn wire_transfer_example() {
    let mut v = TransactionValidator::new();
    let mut t = tx("WIRE", 10_000_000, 12);
    t.transaction_type = TransactionType::WireTransfer;
    let r = v.validate(&t);
    assert!(r.fraud_score > 0);
    assert!(!r.warnings.is_empty());
    assert!(r.fraud_score >= 50);
    assert!(!r.is_approved());
}

#[test]
fn threshold_error_is_separate_from_approval() {
    let config = ValidatorConfig {
        fraud_threshold: 90,
        ..ValidatorConfig::default()
    };
    let mut v = TransactionValidator::with_config(config);
    // Amount 30, pattern 20 + 30 (round, above 50,000.00): 80.
    let r = v.validate(&tx("T90", 6_000_000, 12));
    assert_eq!(r.fraud_score, 80);
    assert!(r.is_valid);
    assert!(!r.is_approved());
    assert!(r.requires_manual_review());
    assert_eq!(r.risk_level(), "Critical");
}

#[test]
fn business_rules_and_accounts() {
    let mut v = TransactionValidator::new();
    let mut t = tx("DEP", 10_000, 12);
    t.transaction_type = TransactionType::Deposit;
    t.to_account = None;
    let r = v.validate(&t);
    assert!(r.errors.iter().any(|e| matches!(e, ValidationError::BusinessRuleViolation(_))));

    let mut t = tx("ACC", 10_000, 12);
    t.from_account = Some("ab12-CD34-EF56-GH78".to_string());
    let r = v.validate(&t);
    assert!(r.errors.iter().any(|e| matches!(e, ValidationError::InvalidAccount(_))));
    assert!(is_valid_account_format("AB12-CD34-EF56-GH78"));
    assert!(is_valid_account_format("****"));
    assert!(!is_valid_account_format("AB12-CD34-EF56"));
    assert_eq!(r.compliance_checks, vec![("AML".to_string(), true)]);
}

#[test]
fn amount_bounds_and_messages() {
    let mut v = TransactionValidator::new();
    let r = v.validate(&tx("MAX", 100_000_001, 12));
    match &r.errors[0] {
        ValidationError::InvalidAmount(m) => {
            assert_eq!(m, "Amount 100000001 exceeds maximum 100000000")
        }
        other => panic!("unexpected {:?}", other),
    }
}

#[test]
fn graph_triangle_and_classification() {
    let mut g = TransactionGraph::new();
    g.add_transaction("A", "B", 100_000, 0);
    g.add_transaction("B", "C", 100_000, 0);
    g.add_transaction("C", "A", 100_000, 0);
    let flows = g.detect_circular_flows(3);
    assert!(flows.iter().any(|f| f.accounts[0] == "A"));

    let mut g = TransactionGraph::new();
    for i in 0..10 {
        g.add_transaction(&format!("S{}", i), "F", 100_000, 0);
    }
    g.add_transaction("F", "OUT", 100_000, 0);
    let found = g.detect_funnel_accounts();
    assert!(found
        .iter()
        .any(|r| r.account_id == "F" && r.pattern == SuspiciousPattern::FunnelAccount));
}

fn at(id: &str, ms_into_day: i64) -> Transaction {
    let mut t = tx(id, 10_000, 0);
    t.timestamp = t.timestamp - t.timestamp.rem_euclid(86_400_000) + ms_into_day;
    t
}

#[test]
fn time_windows_end_on_the_hour() {
    let mut v = TransactionValidator::new();
    let r = v.validate(&at("T2230", 22 * HOUR_MS + 30 * 60_000));
    assert_eq!(r.risk_breakdown.time_risk, 20);
    assert_eq!(r.risk_breakdown.pattern_risk, 10);
    let r = v.validate(&at("T2200", 22 * HOUR_MS));
    assert_eq!(r.risk_breakdown.time_risk, 10);
    assert_eq!(r.risk_breakdown.pattern_risk, 0);
    let r = v.validate(&at("T1730", 17 * HOUR_MS + 30 * 60_000));
    assert_eq!(r.risk_breakdown.time_risk, 10);
    let r = v.validate(&at("T1700", 17 * HOUR_MS));
    assert_eq!(r.risk_breakdown.time_risk, 0);
    let r = v.validate(&at("T0600", 6 * HOUR_MS));
    assert_eq!(r.risk_breakdown.time_risk, 10);
    let r = v.validate(&at("T0559", 6 * HOUR_MS - 1));
    assert_eq!(r.risk_breakdown.time_risk, 20);
}

#[test]
fn nonpositive_amount_message_names_the_amount() {
    let mut v = TransactionValidator::new();
    let r = v.validate(&tx("NEG", -100_000, 12));
    match &r.errors[0] {
        ValidationError::InvalidAmount(m) => assert_eq!(m, "Amount -100000 must be positive"),
        other => panic!("unexpected {:?}", other),
    }
}
