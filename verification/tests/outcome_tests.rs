use animation_replace_roblox::fault::ServiceFault;
use animation_replace_roblox::outcome::{
    aggregate, FailureCause, IdMapping, MigrationFailure, MigrationOutcome,
};

fn migrated(index: usize, token: Option<&str>, new_id: &str) -> MigrationOutcome {
    MigrationOutcome::Migrated {
        index,
        request_id: token.map(|t| t.to_string()),
        new_id: new_id.to_string(),
    }
}

fn failed(index: usize, token: &str, cause: FailureCause) -> MigrationOutcome {
    MigrationOutcome::Failed(MigrationFailure {
        index,
        request_id: Some(token.to_string()),
        cause,
    })
}

fn sorted_entries(mapping: &IdMapping) -> Vec<(String, String)> {
    let mut entries = mapping.entries().clone();
    entries.sort();
    entries
}

fn sorted_errors(errors: &Vec<MigrationFailure>) -> Vec<(usize, Option<String>, String)> {
    let mut list: Vec<(usize, Option<String>, String)> = errors
        .iter()
        .map(|e| (e.index, e.request_id.clone(), format!("{:?}", e.cause)))
        .collect();
    list.sort();
    list
}

#[test]
fn empty_mapping_holds_nothing() {
    let mapping = IdMapping::new();
    assert_eq!(mapping.len(), 0);
    assert_eq!(mapping.get("1"), None);
}

#[test]
fn mapping_insert_replaces_the_value_of_a_key() {
    let mut mapping = IdMapping::new();
    mapping.insert("1".to_string(), "a".to_string());
    mapping.insert("2".to_string(), "b".to_string());
    mapping.insert("1".to_string(), "c".to_string());
    assert_eq!(mapping.len(), 2);
    assert_eq!(mapping.get("1"), Some(&"c".to_string()));
    assert_eq!(mapping.get("2"), Some(&"b".to_string()));
    assert_eq!(mapping.get("3"), None);
}

#[test]
fn aggregate_of_nothing_is_empty() {
    let result = aggregate(Vec::new());
    assert_eq!(result.mapping.len(), 0);
    assert!(result.errors.is_empty());
}

#[test]
fn aggregate_maps_successes_and_lists_failures() {
    let result = aggregate(vec![
        migrated(0, Some("11"), "901"),
        failed(1, "12", FailureCause::RateLimited),
        migrated(2, Some("13"), "903"),
        failed(3, "14", FailureCause::CannotPublish),
    ]);
    assert_eq!(result.mapping.len(), 2);
    assert_eq!(result.mapping.get("11"), Some(&"901".to_string()));
    assert_eq!(result.mapping.get("13"), Some(&"903".to_string()));
    assert_eq!(result.mapping.get("12"), None);
    assert_eq!(result.errors.len(), 2);
    assert_eq!(result.errors[0].index, 1);
    assert_eq!(result.errors[0].cause, FailureCause::RateLimited);
    assert_eq!(result.errors[1].index, 3);
    assert_eq!(result.errors[1].cause, FailureCause::CannotPublish);
}

#[test]
fn success_without_token_is_dropped() {
    let result = aggregate(vec![migrated(0, None, "901"), migrated(1, Some("5"), "902")]);
    assert_eq!(result.mapping.len(), 1);
    assert_eq!(result.mapping.get("5"), Some(&"902".to_string()));
    assert!(result.errors.is_empty());
}

#[test]
fn later_success_wins_for_a_shared_token() {
    let result = aggregate(vec![migrated(0, Some("5"), "901"), migrated(1, Some("5"), "902")]);
    assert_eq!(result.mapping.len(), 1);
    assert_eq!(result.mapping.get("5"), Some(&"902".to_string()));
}

#[test]
fn aggregate_does_not_depend_on_arrival_order() {
    let make = || {
        vec![
            migrated(0, Some("11"), "901"),
            failed(1, "12", FailureCause::RateLimited),
            migrated(2, Some("13"), "903"),
            failed(3, "14", FailureCause::UploadFailed(ServiceFault::ServerError)),
            migrated(4, None, "905"),
            failed(5, "16", FailureCause::Aborted),
        ]
    };
    let straight = aggregate(make());
    let mut reversed_input = make();
    reversed_input.reverse();
    let reversed = aggregate(reversed_input);
    let mut rotated_input = make();
    rotated_input.rotate_left(2);
    let rotated = aggregate(rotated_input);
    assert_eq!(sorted_entries(&straight.mapping), sorted_entries(&reversed.mapping));
    assert_eq!(sorted_entries(&straight.mapping), sorted_entries(&rotated.mapping));
    assert_eq!(sorted_errors(&straight.errors), sorted_errors(&reversed.errors));
    assert_eq!(sorted_errors(&straight.errors), sorted_errors(&rotated.errors));
    assert_eq!(straight.errors.len(), 3);
    assert_eq!(reversed.errors[0].index, 5);
}

#[test]
fn failures_do_not_depend_on_order_even_where_tokens_clash() {
    let make = || {
        vec![
            migrated(0, Some("5"), "901"),
            failed(1, "6", FailureCause::RateLimited),
            migrated(2, Some("5"), "902"),
            failed(3, "7", FailureCause::CannotPublish),
        ]
    };
    let straight = aggregate(make());
    let mut reversed_input = make();
    reversed_input.reverse();
    let reversed = aggregate(reversed_input);
    assert_eq!(sorted_errors(&straight.errors), sorted_errors(&reversed.errors));
    assert_eq!(straight.mapping.get("5"), Some(&"902".to_string()));
    assert_eq!(reversed.mapping.get("5"), Some(&"901".to_string()));
}
