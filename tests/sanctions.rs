use rust_transaction_validator::sanctions::{
    similarity_bp, MatchType, SanctionsList, SanctionsScreener,
};

#[test]
fn test_exact_match() {
    let screener = SanctionsScreener::new();
    let result = screener.screen("SANCTIONED ENTITY ONE");

    assert!(result.is_match);
    assert!(!result.matches.is_empty());
    assert_eq!(result.matches[0].match_type, MatchType::Exact);
    assert_eq!(result.matches[0].confidence, 10_000);
}

#[test]
fn test_alias_match() {
    let screener = SanctionsScreener::new();
    let result = screener.screen("ENTITY ONE");

    assert!(result.is_match);
    assert!(result.matches.iter().any(|m| m.match_type == MatchType::Alias));
}

#[test]
fn test_no_match() {
    let screener = SanctionsScreener::new();
    let result = screener.screen("LEGITIMATE COMPANY XYZ");

    assert!(!result.has_high_confidence_match());
}

#[test]
fn test_batch_screening() {
    let screener = SanctionsScreener::new();
    let names = vec!["SANCTIONED ENTITY ONE", "NORMAL COMPANY", "ENTITY ONE"];
    let results = screener.screen_batch(&names);

    assert_eq!(results.len(), 3);
    assert!(results[0].is_match);
    assert!(results[2].is_match);
}

#[test]
fn test_custom_entity() {
    let mut screener = SanctionsScreener::new();
    screener.add_entity(
        "CUSTOM BAD ACTOR",
        vec!["CBA".to_string(), "BAD ACTOR CO".to_string()],
        SanctionsList::Custom("INTERNAL".to_string()),
    );
    screener.enable_list(SanctionsList::Custom("INTERNAL".to_string()));

    let result = screener.screen("CUSTOM BAD ACTOR");
    assert!(result.is_match);
}

#[test]
fn test_list_filtering() {
    let mut screener = SanctionsScreener::new();
    screener.disable_list(&SanctionsList::OFAC);

    let result = screener.screen("SANCTIONED ENTITY ONE");
    assert!(!result.lists_checked.contains(&SanctionsList::OFAC));
}

#[test]
fn test_fuzzy_threshold() {
    let mut screener = SanctionsScreener::new();
    screener.set_fuzzy_threshold(9_500);

    let result = screener.screen("SANCTIONED ENTTY ONE");
    if result.is_match {
        assert!(result.matches[0].confidence < 10_000);
    }
}

#[test]
fn test_highest_confidence() {
    let screener = SanctionsScreener::new();
    let result = screener.screen("SANCTIONED ENTITY ONE");

    let highest = result.highest_confidence();
    assert!(highest.is_some());
    assert_eq!(highest.unwrap().confidence, 10_000);
}

#[test]
fn similarity_exact_values() {
    // 20 of 21 characters found: 4000 * 20 / 21 = 3809; 2 of 4 distinct
    // words shared: 3000.
    assert_eq!(similarity_bp("SANCTIONED ENTTY ONE", "SANCTIONED ENTITY ONE"), 6809);
    assert_eq!(similarity_bp("ABC", "ABC"), 10_000);
    assert_eq!(similarity_bp("", "ABC"), 0);
}

#[test]
fn lowercase_name_and_partial_match() {
    let screener = SanctionsScreener::new();
    let result = screener.screen("restricted company");
    assert_eq!(result.screened_value, "restricted company");
    let partial: Vec<_> = result
        .matches
        .iter()
        .filter(|m| m.match_type == MatchType::Partial)
        .collect();
    assert_eq!(partial.len(), 1);
    assert_eq!(partial[0].entry_id, "EU-001");
    // 7000 + 2000 * 18 / 21.
    assert_eq!(partial[0].confidence, 8714);
    assert_eq!(result.matches_above_threshold(8_000).len(), result.matches.len());
}

#[test]
fn custom_entry_id_and_disabled_list() {
    let mut screener = SanctionsScreener::new();
    screener.add_entity("bad actor", vec!["ba".to_string()], SanctionsList::Custom("INTERNAL".to_string()));
    // The custom list is not enabled: nothing matches.
    assert!(!screener.screen("BAD ACTOR").is_match);
    screener.enable_list(SanctionsList::Custom("INTERNAL".to_string()));
    let result = screener.screen("ba");
    assert_eq!(result.matches[0].match_type, MatchType::Alias);
    assert_eq!(result.matches[0].entry_id, "INTERNAL-3");
    assert_eq!(SanctionsList::OFAC.name(), "OFAC SDN");
}
