use channel_mirror::config::{parse_config, routes_from_rows, ConfigError};
use channel_mirror::routing::RoutingTable;

#[test]
fn table_maps_source_to_ordered_targets() {
    let table = RoutingTable::from_rows(&vec![vec![100, 200, 300], vec![5, 6]]);
    assert_eq!(table.targets_for(100), vec![200, 300]);
    assert_eq!(table.targets_for(5), vec![6]);
    assert!(table.is_source(100));
}

#[test]
fn unknown_source_has_no_targets() {
    let table = RoutingTable::from_rows(&vec![vec![100, 200]]);
    assert_eq!(table.targets_for(999), Vec::<u64>::new());
    assert!(!table.is_source(999));
}

#[test]
fn duplicate_targets_are_kept_and_later_rows_win() {
    let table = RoutingTable::from_rows(&vec![vec![1, 2], vec![1, 3, 3]]);
    assert_eq!(table.targets_for(1), vec![3, 3]);
}

#[test]
fn row_with_source_only_has_empty_targets() {
    let table = RoutingTable::from_rows(&vec![vec![7]]);
    assert!(table.is_source(7));
    assert_eq!(table.targets_for(7), Vec::<u64>::new());
}

#[test]
fn rows_refuse_first_bad_row() {
    let rows = vec![Some(vec![Some(1), Some(2)]), Some(vec![]), None];
    assert!(matches!(routes_from_rows(&rows), Err(ConfigError::BadRow(1))));
    let rows = vec![Some(vec![Some(1), None])];
    assert!(matches!(routes_from_rows(&rows), Err(ConfigError::BadRow(0))));
    let rows = vec![Some(vec![Some(1)]), None];
    assert!(matches!(routes_from_rows(&rows), Err(ConfigError::BadRow(1))));
}

#[test]
fn config_text_builds_table() {
    let table = parse_config("[[100, 200, 300], [400]]").unwrap();
    assert_eq!(table.targets_for(100), vec![200, 300]);
    assert_eq!(table.targets_for(400), Vec::<u64>::new());
    assert_eq!(table.targets_for(200), Vec::<u64>::new());
}

#[test]
fn config_empty_array_is_empty_table() {
    let table = parse_config("[]").unwrap();
    assert!(!table.is_source(100));
}

#[test]
fn config_invalid_json() {
    assert!(matches!(parse_config("[[1, 2"), Err(ConfigError::InvalidJson)));
}

#[test]
fn config_not_an_array() {
    assert!(matches!(parse_config("{\"a\": 1}"), Err(ConfigError::NotAnArray)));
}

#[test]
fn config_bad_rows() {
    assert!(matches!(parse_config("[[1, 2], 3]"), Err(ConfigError::BadRow(1))));
    assert!(matches!(parse_config("[[]]"), Err(ConfigError::BadRow(0))));
    assert!(matches!(parse_config("[[1, -2]]"), Err(ConfigError::BadRow(0))));
    assert!(matches!(parse_config("[[1, \"2\"]]"), Err(ConfigError::BadRow(0))));
    assert!(matches!(parse_config("[[1.5, 2]]"), Err(ConfigError::BadRow(0))));
}

#[test]
fn config_large_ids() {
    let table = parse_config("[[9223372036854775807, 1]]").unwrap();
    assert_eq!(table.targets_for(9223372036854775807), vec![1]);
}

#[test]
fn config_empty_text_is_invalid_json() {
    assert!(matches!(parse_config(""), Err(ConfigError::InvalidJson)));
}

#[test]
fn config_scalar_document_is_not_an_array() {
    assert!(matches!(parse_config("100"), Err(ConfigError::NotAnArray)));
}
