use pmp_backoffice_generator::audit::{compute_changes, AuditLogger, AuditOperation};
use pmp_backoffice_generator::config::AuditConfig;
use pmp_backoffice_generator::data_source::{
    after_failed_attempt, match_all_search, matches_everything, paginate, range_header,
    records_from_payload, records_from_response, sql_with_pagination, DataSource,
    FirebaseDataSource, KafkaDataSource, PaginationParams, RetryStep,
};
use pmp_backoffice_generator::data_source::{full_key, prefixed_key, query_filters};
use pmp_backoffice_generator::server::list_page;
use pmp_backoffice_generator::value::{Record, Value};

fn rec(id: i64) -> Record {
    let mut r = Record::new();
    r.insert("id".to_string(), Value::Number(id));
    r
}

fn ids(rows: &[Record]) -> Vec<i64> {
    rows.iter()
        .map(|r| match r.get("id") {
            Some(Value::Number(n)) => *n,
            _ => -1,
        })
        .collect()
}

#[test]
fn pagination_params_compute_offset() {
    let p = PaginationParams::new(3, 25);
    assert_eq!(p.offset, 50);
    assert_eq!(PaginationParams::new(1, 10).offset, 0);
}

#[test]
fn page_two_of_ten_is_page_one_of_twenty_without_its_first_ten() {
    let rows: Vec<Record> = (0..27).map(rec).collect();
    let page2 = paginate(rows.clone(), &PaginationParams::new(2, 10));
    let page1 = paginate(rows.clone(), &PaginationParams::new(1, 20));
    assert_eq!(ids(&page2), ids(&page1[10..]));
    assert_eq!(ids(&paginate(rows, &PaginationParams::new(4, 10))), Vec::<i64>::new());
}

#[test]
fn list_page_counts_pages() {
    let rows: Vec<Record> = (0..21).map(rec).collect();
    let (page, total, pages) = list_page(rows, 3, 10);
    assert_eq!(ids(&page), vec![20]);
    assert_eq!(total, 21);
    assert_eq!(pages, 3);
    let (_, _, pages) = list_page((0..20).map(rec).collect(), 1, 10);
    assert_eq!(pages, 2);
}

#[test]
fn sql_and_range_pagination() {
    let p = PaginationParams::new(2, 10);
    assert_eq!(sql_with_pagination("SELECT * FROM t;;", Some(&p)), "SELECT * FROM t LIMIT 10 OFFSET 10");
    assert_eq!(sql_with_pagination("SELECT 1;", None), "SELECT 1;");
    assert_eq!(range_header(&p), "10-19");
}

#[test]
fn responses_become_records() {
    let obj = |id: i64| Value::Object(vec![("id".to_string(), Value::Number(id))]);
    let arr = Value::Array(vec![obj(1), Value::Number(5), obj(2)]);
    assert_eq!(ids(&records_from_response(arr).unwrap()), vec![1, 2]);
    let wrapped = Value::Object(vec![
        ("total".to_string(), Value::Number(2)),
        ("data".to_string(), Value::Array(vec![obj(3), obj(4)])),
    ]);
    assert_eq!(ids(&records_from_response(wrapped).unwrap()), vec![3, 4]);
    let single = obj(9);
    assert_eq!(ids(&records_from_response(single).unwrap()), vec![9]);
    assert!(records_from_response(Value::Number(1)).is_err());
}

#[test]
fn payloads_become_records() {
    let text = "plain".to_string();
    let rows = records_from_payload(text.clone(), None, "value");
    assert_eq!(rows.len(), 1);
    assert_eq!(rows[0].get("value").and_then(|v| v.as_str()).map(|s| s.as_str()), Some("plain"));
    let parsed = Value::Object(vec![("id".to_string(), Value::Number(4))]);
    assert_eq!(ids(&records_from_payload("{\"id\":4}".to_string(), Some(parsed), "value")), vec![4]);
}

#[test]
fn retries_back_off_then_give_up() {
    assert!(matches!(after_failed_attempt(0, 3), RetryStep::RetryAfterMs(200)));
    assert!(matches!(after_failed_attempt(1, 3), RetryStep::RetryAfterMs(400)));
    assert!(matches!(after_failed_attempt(2, 3), RetryStep::RetryAfterMs(800)));
    assert!(matches!(after_failed_attempt(3, 3), RetryStep::GiveUp));
}

#[test]
fn empty_queries_match_everything() {
    assert!(matches_everything(""));
    assert!(matches_everything("{}"));
    assert!(!matches_everything("{\"term\":1}"));
    match match_all_search() {
        Value::Object(o) => assert_eq!(o[0].0, "query"),
        _ => panic!("not an object"),
    }
    let kafka = KafkaDataSource::new(vec![], "t".to_string(), "g".to_string());
    assert_eq!(kafka.execute_query("", None).unwrap().len(), 0);
    let firebase = FirebaseDataSource::new("p".to_string(), "c".to_string());
    assert_eq!(firebase.execute_query("", None).unwrap().len(), 0);
    assert!(matches!(firebase.execute_mutation("doc", &Record::new()).unwrap(), Value::Bool(true)));
}

#[test]
fn test_compute_changes() {
    let mut old_data = Record::new();
    old_data.insert("name".to_string(), Value::String("John".to_string()));
    old_data.insert("age".to_string(), Value::Number(30.into()));

    let mut new_data = Record::new();
    new_data.insert("name".to_string(), Value::String("Jane".to_string()));
    new_data.insert("age".to_string(), Value::Number(30.into()));

    let changes = compute_changes(&old_data, &new_data);

    assert_eq!(changes.len(), 1);
    assert_eq!(changes[0].field, "name");
}

#[test]
fn test_audit_entry_creation() {
    let mut data = Record::new();
    data.insert("name".to_string(), Value::String("Test".to_string()));

    let entry = AuditLogger::create_entry(
        "users".to_string(),
        Some("123".to_string()),
        &data,
        Some("admin".to_string()),
    );

    assert_eq!(entry.section_id, "users");
    assert_eq!(entry.record_id, Some("123".to_string()));
    assert!(matches!(entry.operation, AuditOperation::Create));
    assert_eq!(entry.changes.len(), 1);
}

#[test]
fn changes_cover_added_and_removed_fields() {
    let mut old_data = Record::new();
    old_data.insert("a".to_string(), Value::Number(1));
    old_data.insert("b".to_string(), Value::Number(2));
    let mut new_data = Record::new();
    new_data.insert("b".to_string(), Value::Number(2));
    new_data.insert("c".to_string(), Value::Number(3));
    let changes = compute_changes(&old_data, &new_data);
    let fields: Vec<&str> = changes.iter().map(|c| c.field.as_str()).collect();
    assert_eq!(fields, vec!["a", "c"]);
    assert!(changes[0].new_value.is_none());
    assert!(changes[1].old_value.is_none());
}

#[test]
fn auditing_follows_section_settings() {
    let config = Some(AuditConfig { track_created: true, track_updated: false, track_deleted: true });
    assert!(AuditLogger::should_audit(&config, &AuditOperation::Create));
    assert!(!AuditLogger::should_audit(&config, &AuditOperation::Update));
    assert!(!AuditLogger::should_audit(&config, &AuditOperation::Read));
    assert!(!AuditLogger::should_audit(&None, &AuditOperation::Delete));
    let entry = AuditLogger::delete_entry("users".to_string(), "5".to_string(), None, None);
    assert!(matches!(entry.operation, AuditOperation::Delete));
    assert!(entry.changes.is_empty());
}

#[test]
fn storage_keys_carry_their_prefix() {
    let prefix = "app".to_string();
    assert_eq!(prefixed_key(Some(&prefix), "user:1"), "app:user:1");
    assert_eq!(prefixed_key(None, "user:1"), "user:1");
    assert_eq!(full_key(Some(&prefix), "a/b.json"), "app/a/b.json");
    assert_eq!(full_key(None, "a/b.json"), "a/b.json");
}

#[test]
fn query_strings_become_filters() {
    let filters = query_filters("status=eq.open&age=gte.18&flag&note=a=b");
    let pairs: Vec<(&str, &str)> = filters.iter().map(|(k, v)| (k.as_str(), v.as_str())).collect();
    assert_eq!(pairs, vec![("status", "eq.open"), ("age", "gte.18"), ("note", "a=b")]);
    assert!(query_filters("").is_empty());
}
