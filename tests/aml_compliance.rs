use rust_transaction_validator::aml_compliance::{
    contains_text, CustomerRecord, RedFlagType,
};
use rust_transaction_validator::{AMLChecker, KYCValidator, Transaction, TransactionType};

fn create_test_transaction(amount: i64, txn_type: TransactionType) -> Transaction {
    Transaction {
        transaction_id: "TXN-001".to_string(),
        from_account: Some("ACC-123".to_string()),
        to_account: Some("ACC-456".to_string()),
        amount,
        currency: "USD".to_string(),
        timestamp: chrono::Utc::now().timestamp_millis(),
        transaction_type: txn_type,
        user_id: "USER-001".to_string(),
        metadata: None,
    }
}

fn record(fields: &[&str], country: Option<&str>, pep: Option<bool>) -> CustomerRecord {
    CustomerRecord {
        fields: fields.iter().map(|f| f.to_string()).collect(),
        country: country.map(|c| c.to_string()),
        politically_exposed_person: pep,
    }
}

#[test]
fn test_ctr_requirement() {
    let checker = AMLChecker::new();
    let txn = create_test_transaction(1_500_000, TransactionType::Transfer);
    let result = checker.check_compliance(&txn);

    assert!(result.requires_ctr);
    assert!(result
        .red_flags
        .iter()
        .any(|f| f.flag_type == RedFlagType::HighValueTransaction));
}

#[test]
fn aml_compliance_test_structuring_detection() {
    let checker = AMLChecker::new();
    let txn = create_test_transaction(980_000, TransactionType::Transfer);
    let result = checker.check_compliance(&txn);

    assert!(result.requires_sar);
    assert!(result
        .red_flags
        .iter()
        .any(|f| f.flag_type == RedFlagType::PotentialStructuring));
}

#[test]
fn test_sanctioned_entity() {
    let checker = AMLChecker::new();
    let mut txn = create_test_transaction(100_000, TransactionType::Transfer);
    txn.from_account = Some("OFAC-SANCTIONED-001".to_string());

    let result = checker.check_compliance(&txn);

    assert!(!result.compliant);
    assert_eq!(result.risk_score, 100);
    assert!(result
        .red_flags
        .iter()
        .any(|f| f.flag_type == RedFlagType::SanctionedEntity));
}

#[test]
fn test_cash_intensive() {
    let checker = AMLChecker::new();
    let txn = create_test_transaction(800_000, TransactionType::Deposit);
    let result = checker.check_compliance(&txn);

    assert!(result
        .red_flags
        .iter()
        .any(|f| f.flag_type == RedFlagType::CashIntensive));
}

#[test]
fn test_cross_border() {
    let checker = AMLChecker::new();
    let mut txn = create_test_transaction(500_000, TransactionType::Transfer);
    txn.metadata = Some(vec![("cross_border".to_string(), "true".to_string())]);

    let result = checker.check_compliance(&txn);

    assert!(result
        .red_flags
        .iter()
        .any(|f| f.flag_type == RedFlagType::CrossBorder));
}

#[test]
fn test_kyc_validation() {
    let complete = record(
        &["full_name", "date_of_birth", "address", "id_number", "id_type", "country"],
        Some("US"),
        None,
    );
    let result = KYCValidator::validate_customer_record(&complete);
    assert!(result.valid);
    assert!(result.missing_fields.is_empty());
}

#[test]
fn test_kyc_missing_fields() {
    let incomplete = record(&["full_name"], None, None);
    let result = KYCValidator::validate_customer_record(&incomplete);
    assert!(!result.valid);
    assert!(!result.missing_fields.is_empty());
    assert_eq!(
        result.missing_fields,
        vec!["date_of_birth", "address", "id_number", "id_type"]
    );
}

#[test]
fn test_kyc_enhanced_dd() {
    let pep = record(
        &[
            "full_name",
            "date_of_birth",
            "address",
            "id_number",
            "id_type",
            "politically_exposed_person",
        ],
        None,
        Some(true),
    );
    let result = KYCValidator::validate_customer_record(&pep);
    assert!(result.requires_enhanced_dd);
    assert!(!result.warnings.is_empty());
}

#[test]
fn aml_score_and_flags_in_order() {
    let checker = AMLChecker::new();
    let mut txn = create_test_transaction(1_000_000, TransactionType::Withdrawal);
    txn.to_account = Some("X-SANCTIONED-ENTITY-002-Y".to_string());
    let result = checker.check_compliance(&txn);
    let kinds: Vec<RedFlagType> = result.red_flags.iter().map(|f| f.flag_type).collect();
    assert_eq!(
        kinds,
        vec![
            RedFlagType::HighValueTransaction,
            RedFlagType::SanctionedEntity,
            RedFlagType::CashIntensive,
        ]
    );
    assert_eq!(result.risk_score, 100);
    assert!(!result.compliant);
    assert!(result.requires_sar && result.requires_ctr);
}

#[test]
fn entity_list_and_substrings() {
    let mut checker = AMLChecker::new();
    assert!(!checker.check_sanctions_list("ACME"));
    checker.add_sanctioned_entity("ACME".to_string());
    checker.add_sanctioned_entity("ACME".to_string());
    assert!(checker.check_sanctions_list("XACMEX"));
    assert!(contains_text("abc", ""));
    assert!(contains_text("abcabd", "abd"));
    assert!(!contains_text("ab", "abc"));
    assert!(KYCValidator::is_high_risk_jurisdiction("CU"));
    assert!(!KYCValidator::is_high_risk_jurisdiction("US"));
}

#[test]
fn kyc_high_risk_country_warns() {
    let r = record(&["full_name"], Some("KP"), Some(true));
    let result = KYCValidator::validate_customer_record(&r);
    assert_eq!(result.warnings.len(), 2);
    assert!(result.requires_enhanced_dd);
}
