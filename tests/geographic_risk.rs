use rust_transaction_validator::geographic_risk::{CountryRiskLevel, GeographicRiskScorer};

#[test]
fn test_prohibited_country() {
    let scorer = GeographicRiskScorer::new();

    let iran = scorer.get_country_risk("IR").unwrap();
    assert!(iran.is_prohibited());
    assert_eq!(iran.risk_level, CountryRiskLevel::Prohibited);
}

#[test]
fn test_low_risk_country() {
    let scorer = GeographicRiskScorer::new();

    let us = scorer.get_country_risk("US").unwrap();
    assert_eq!(us.risk_level, CountryRiskLevel::Low);
    assert!(!us.is_prohibited());
    assert!(!us.requires_edd());
}

#[test]
fn test_transaction_risk() {
    let scorer = GeographicRiskScorer::new();

    let low_risk = scorer.calculate_transaction_risk("US", "GB");
    assert_eq!(low_risk.risk_level, CountryRiskLevel::Low);
    assert!(!low_risk.is_prohibited);

    let prohibited = scorer.calculate_transaction_risk("US", "IR");
    assert!(prohibited.is_prohibited);
    assert_eq!(prohibited.risk_level, CountryRiskLevel::Prohibited);
}

#[test]
fn test_high_risk_transaction() {
    let scorer = GeographicRiskScorer::new();

    let risk = scorer.calculate_transaction_risk("US", "MM");
    assert!(risk.requires_edd);
}

#[test]
fn test_jurisdiction_risk() {
    let scorer = GeographicRiskScorer::new();

    let cayman = scorer.get_jurisdiction_risk("Cayman Islands").unwrap();
    assert!(cayman.is_tax_haven);
    assert!(cayman.is_offshore);

    let score = cayman.risk_score();
    assert!(score > 30);
}

#[test]
fn test_fatf_status() {
    let scorer = GeographicRiskScorer::new();

    let ir_status = scorer.is_fatf_listed("IR");
    assert_eq!(ir_status, Some("Blacklist".to_string()));

    let us_status = scorer.is_fatf_listed("US");
    assert_eq!(us_status, None);
}

#[test]
fn test_prohibited_countries_list() {
    let scorer = GeographicRiskScorer::new();

    let prohibited = scorer.get_prohibited_countries();
    assert!(!prohibited.is_empty());

    let codes: Vec<&str> = prohibited.iter().map(|r| r.country_code.as_str()).collect();
    assert!(codes.contains(&"IR"));
    assert!(codes.contains(&"KP"));
}

#[test]
fn test_unknown_country() {
    let scorer = GeographicRiskScorer::new();

    let risk = scorer.calculate_transaction_risk("XX", "YY");
    assert_eq!(risk.combined_score, 50);
}

#[test]
fn lowercase_code_is_found() {
    let scorer = GeographicRiskScorer::new();
    let iran = scorer.get_country_risk("ir").unwrap();
    assert_eq!(iran.country_code, "IR");
}

#[test]
fn combined_score_weights_destination() {
    let scorer = GeographicRiskScorer::new();
    // 40% of 10 plus 60% of 80.
    let risk = scorer.calculate_transaction_risk("US", "MM");
    assert_eq!(risk.combined_score, 52);
    assert_eq!(risk.risk_level, CountryRiskLevel::Medium);
    // 40% of 80 plus 60% of 75.
    let risk = scorer.calculate_transaction_risk("MM", "YE");
    assert_eq!(risk.combined_score, 77);
    assert_eq!(risk.risk_level, CountryRiskLevel::High);
}

#[test]
fn jurisdiction_score_exact() {
    let scorer = GeographicRiskScorer::new();
    // 20 + 15 + (100 - 60) / 4 + (100 - 70) / 4 = 35 + 10 + 7.
    assert_eq!(scorer.get_jurisdiction_risk("Cayman Islands").unwrap().risk_score(), 52);
    // 20 + 15 + 30 + 15 + 12.
    assert_eq!(scorer.get_jurisdiction_risk("Panama").unwrap().risk_score(), 92);
    assert!(scorer.get_jurisdiction_risk("cayman islands").is_none());
}

#[test]
fn high_risk_list_and_replacement() {
    let mut scorer = GeographicRiskScorer::new();
    let high: Vec<&str> = scorer
        .get_high_risk_countries()
        .iter()
        .map(|r| r.country_code.as_str())
        .collect();
    assert_eq!(high, vec!["MM", "YE"]);

    let mut us = scorer.get_country_risk("US").unwrap().clone();
    us.risk_level = CountryRiskLevel::High;
    us.risk_score = 90;
    scorer.add_country_risk(us);
    assert_eq!(scorer.get_country_risk("US").unwrap().risk_score, 90);
    assert_eq!(scorer.get_high_risk_countries().len(), 3);
}

#[test]
fn default_fatf_statuses() {
    let scorer = GeographicRiskScorer::new();
    assert_eq!(scorer.is_fatf_listed("KP"), Some("Blacklist".to_string()));
    assert_eq!(scorer.is_fatf_listed("MM"), Some("Greylist".to_string()));
    assert_eq!(scorer.is_fatf_listed("PK"), Some("Greylist".to_string()));
    assert_eq!(scorer.is_fatf_listed("SY"), None);
    assert_eq!(scorer.is_fatf_listed("XX"), None);
}
