use finplan::export::escape_csv_field;
use finplan::services::transactions::SqliteTransactionService;

#[test]
fn tags_round_trip_through_storage() {
    let encoded = SqliteTransactionService::parse_tags(Some(vec![
        "food".to_string(),
        "weekly".to_string(),
    ]));
    assert_eq!(encoded.as_deref(), Some("food,weekly"));
    let decoded = SqliteTransactionService::split_tags(encoded);
    assert_eq!(decoded, vec!["food".to_string(), "weekly".to_string()]);
}

#[test]
fn parse_tags_drops_empty_lists() {
    assert_eq!(SqliteTransactionService::parse_tags(None), None);
    assert_eq!(SqliteTransactionService::parse_tags(Some(Vec::new())), None);
}

#[test]
fn split_tags_trims_and_drops_empty_tokens() {
    let decoded = SqliteTransactionService::split_tags(Some(" food , , weekly ,".to_string()));
    assert_eq!(decoded, vec!["food".to_string(), "weekly".to_string()]);
    assert!(SqliteTransactionService::split_tags(None).is_empty());
    assert!(SqliteTransactionService::split_tags(Some("  ,  ".to_string())).is_empty());
}

#[test]
fn csv_fields_escape_only_when_needed() {
    assert_eq!(escape_csv_field("plain"), "plain");
    assert_eq!(escape_csv_field("a,b"), "\"a,b\"");
    assert_eq!(escape_csv_field("say \"hi\""), "\"say \"\"hi\"\"\"");
    assert_eq!(escape_csv_field("line\nbreak"), "\"line\nbreak\"");
}
