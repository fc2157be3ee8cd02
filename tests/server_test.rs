use pmp_backoffice_generator::bindings::{Clock, Instant};
use pmp_backoffice_generator::config::{
    ActionConfig, ActionType, BackofficeConfig, FieldConfig, FieldType, FormActionConfig,
    SectionConfig, TextFieldConfig, ValidationRule, ValidationType,
};
use pmp_backoffice_generator::data_source::{
    column_kind, graphql_error_messages, graphql_records, ColumnKind, DataSource,
    DataSourceError, PaginationParams,
};
use pmp_backoffice_generator::data_source::search_hits;
use pmp_backoffice_generator::server::{
    action_query_text, delete_mutation, delete_record, dispatch_mutation, find_route,
    validate_mutation, RequestFailure,
};
use pmp_backoffice_generator::value::{Record, Value};
use std::cell::RefCell;
use std::collections::HashMap;

struct Recorder {
    writes: RefCell<Vec<String>>,
}

impl DataSource for Recorder {
    fn execute_query(&self, _query: &str, _params: Option<&Record>) -> Result<Vec<Record>, DataSourceError> {
        Ok(vec![])
    }

    fn execute_query_paginated(
        &self,
        query: &str,
        params: Option<&Record>,
        _pagination: Option<&PaginationParams>,
    ) -> Result<Vec<Record>, DataSourceError> {
        self.execute_query(query, params)
    }

    fn execute_mutation(&self, query: &str, _data: &Record) -> Result<Value, DataSourceError> {
        self.writes.borrow_mut().push(query.to_string());
        Ok(Value::String("new-id".to_string()))
    }
}

fn clock() -> Clock {
    Clock { now: Instant { secs: 1718452800, nanos: 0 }, today: 739052 }
}

fn shop() -> BackofficeConfig {
    let name_field = FieldConfig {
        id: "name".to_string(),
        name: "Name".to_string(),
        field_type: FieldType::Text { config: TextFieldConfig::default() },
        required: false,
        editable: true,
        visible: true,
        default_value: None,
        placeholder: None,
        help_text: None,
        validations: vec![ValidationRule {
            rule_type: ValidationType::MinLength { value: 3 },
            message: None,
            condition: None,
        }],
        relationship_id: None,
    };
    BackofficeConfig {
        id: "shop".to_string(),
        name: "Shop".to_string(),
        description: None,
        data_sources: HashMap::new(),
        relationships: vec![],
        sections: vec![SectionConfig {
            id: "people".to_string(),
            name: "People".to_string(),
            icon: None,
            actions: vec![ActionConfig {
                id: "create".to_string(),
                name: "Create".to_string(),
                action_type: ActionType::Form { fields: vec![name_field], config: FormActionConfig::default() },
                data_source: "db".to_string(),
                query: Some("INSERT INTO people".to_string()),
                endpoint: None,
                required_scopes: vec![],
            }],
            audit: None,
        }],
    }
}

#[test]
fn routes_are_found_by_id() {
    let all = vec![shop()];
    assert_eq!(find_route(&all, "shop", "people", "create").unwrap(), (0, 0, 0));
    assert!(matches!(find_route(&all, "shop", "people", "nope"), Err(RequestFailure::NotFound(_))));
    assert!(matches!(find_route(&all, "other", "people", "create"), Err(RequestFailure::NotFound(_))));
    assert_eq!(action_query_text(&all[0].sections[0].actions[0]), "INSERT INTO people");
}

#[test]
fn a_short_name_is_refused_before_dispatch_and_a_long_one_is_written() {
    let all = vec![shop()];
    let mut data = Record::new();
    data.insert("name".to_string(), Value::String("A".to_string()));
    data.insert("age".to_string(), Value::Number(30));
    match validate_mutation(&all, "shop", "people", "create", &data, &clock()) {
        Err(RequestFailure::Validation(errors)) => {
            assert_eq!(errors.len(), 1);
            assert_eq!(errors[0].field, "name");
        }
        _ => panic!("expected a validation failure"),
    }
    data.insert("name".to_string(), Value::String("Alice".to_string()));
    assert!(validate_mutation(&all, "shop", "people", "create", &data, &clock()).is_ok());
    let sources = vec![("db".to_string(), Recorder { writes: RefCell::new(vec![]) })];
    let action = &all[0].sections[0].actions[0];
    match dispatch_mutation(&all[0], "people", action, &data, &sources) {
        Ok(Value::String(id)) => assert_eq!(id, "new-id"),
        _ => panic!("expected the backend's acknowledgment"),
    }
    assert_eq!(*sources[0].1.writes.borrow(), vec!["INSERT INTO people".to_string()]);
    let nowhere: Vec<(String, Recorder)> = vec![];
    assert!(matches!(dispatch_mutation(&all[0], "people", action, &data, &nowhere), Err(RequestFailure::Integrity(_))));
}

#[test]
fn deleting_a_record_writes_its_delete() {
    let all = vec![shop()];
    let (query, data) = delete_mutation("people", "42");
    assert_eq!(query, "DELETE FROM people WHERE id = '42'");
    assert_eq!(data.get("id").and_then(|v| v.as_str()).map(|s| s.as_str()), Some("42"));
    let sources = vec![("db".to_string(), Recorder { writes: RefCell::new(vec![]) })];
    delete_record(&all[0], 0, "create", "42", &sources).unwrap();
    assert_eq!(*sources[0].1.writes.borrow(), vec!["DELETE FROM people WHERE id = '42'".to_string()]);
    assert!(matches!(delete_record(&all[0], 0, "missing", "42", &sources), Err(RequestFailure::NotFound(_))));
}

fn obj(entries: Vec<(&str, Value)>) -> Value {
    Value::Object(entries.into_iter().map(|(k, v)| (k.to_string(), v)).collect())
}

#[test]
fn graphql_responses_become_records() {
    let edges = obj(vec![(
        "data",
        obj(vec![(
            "edges",
            Value::Array(vec![
                obj(vec![("node", obj(vec![("id", Value::Number(1))]))]),
                obj(vec![("id", Value::Number(2))]),
            ]),
        )]),
    )]);
    let rows = graphql_records(edges);
    assert_eq!(rows.len(), 2);
    assert!(matches!(rows[0].get("id"), Some(Value::Number(1))));
    assert!(matches!(rows[1].get("id"), Some(Value::Number(2))));
    let plain = obj(vec![("data", obj(vec![("user", Value::String("x".to_string()))]))]);
    assert_eq!(graphql_records(plain).len(), 1);
    assert_eq!(graphql_records(Value::Null).len(), 0);
    let errors = obj(vec![(
        "errors",
        Value::Array(vec![obj(vec![("message", Value::String("boom".to_string()))]), Value::Null]),
    )]);
    assert_eq!(graphql_error_messages(&errors), vec!["boom".to_string()]);
}

#[test]
fn columns_are_classified_by_declared_type() {
    assert!(matches!(column_kind("VARCHAR"), ColumnKind::Text));
    assert!(matches!(column_kind("INT8"), ColumnKind::Integer));
    assert!(matches!(column_kind("NUMERIC"), ColumnKind::Real));
    assert!(matches!(column_kind("BOOL"), ColumnKind::Boolean));
    assert!(matches!(column_kind("JSONB"), ColumnKind::Json));
    assert!(matches!(column_kind("TIMESTAMPTZ"), ColumnKind::Timestamp));
    assert!(matches!(column_kind("UUID"), ColumnKind::Other));
}

#[test]
fn graphql_variables_carry_pagination() {
    let mut params = Record::new();
    params.insert("status".to_string(), Value::String("open".to_string()));
    let p = PaginationParams::new(3, 10);
    let v = pmp_backoffice_generator::data_source::graphql_variables(Some(&params), Some(&p));
    assert!(matches!(v.get("limit"), Some(Value::Number(10))));
    assert!(matches!(v.get("offset"), Some(Value::Number(20))));
    assert!(matches!(v.get("page"), Some(Value::Number(3))));
    assert!(matches!(v.get("pageSize"), Some(Value::Number(10))));
    assert_eq!(v.get("status").and_then(|s| s.as_str()).map(|s| s.as_str()), Some("open"));
    let plain = pmp_backoffice_generator::data_source::graphql_variables(None, None);
    assert_eq!(plain.len(), 0);
}

#[test]
fn search_hits_become_records() {
    let response = obj(vec![(
        "hits",
        obj(vec![(
            "hits",
            Value::Array(vec![
                obj(vec![
                    ("_id", Value::String("a1".to_string())),
                    ("_source", obj(vec![("title", Value::String("First".to_string()))])),
                ]),
                obj(vec![("_id", Value::String("a2".to_string()))]),
                obj(vec![("_source", obj(vec![("title", Value::String("Third".to_string()))]))]),
            ]),
        )]),
    )]);
    let rows = search_hits(response);
    assert_eq!(rows.len(), 2);
    assert_eq!(rows[0].get("_id").and_then(|v| v.as_str()).map(|s| s.as_str()), Some("a1"));
    assert_eq!(rows[0].get("title").and_then(|v| v.as_str()).map(|s| s.as_str()), Some("First"));
    assert!(rows[1].get("_id").is_none());
    assert_eq!(search_hits(Value::Null).len(), 0);
}
