use rust_transaction_validator::text::int_to_text;

#[test]
fn integer_text_matches_std() {
    for n in [0i128, 7, 10, -1, -10, 1234567890, i128::MAX, i128::MIN] {
        assert_eq!(int_to_text(n), n.to_string());
    }
}
