use pmp_backoffice_generator::config::{
    ActionConfig, ActionType, BackofficeConfig, RelationshipConfig, RelationshipType, SectionConfig,
};
use pmp_backoffice_generator::data_source::{
    DataSource, DataSourceError, GrpcDataSource, PaginationParams,
};
use pmp_backoffice_generator::relationships::{
    cascade_mutation, cascade_visit, dependents_from, execute_cascade_operations, fk_outcome_error,
    handle_cascade_delete, m2m_outcome_error, validate_foreign_keys, validate_many_to_many,
    write_outcome, CascadeOperation, CascadeOperationType, CascadeVisit, IntegrityErrorKind,
};
use pmp_backoffice_generator::value::{Record, Value};
use std::cell::RefCell;
use std::collections::HashMap;

/// A source that answers fixed queries with fixed rows and logs its writes.
struct Table {
    answers: Vec<(String, Vec<Record>)>,
    writes: RefCell<Vec<String>>,
    fail_reads: bool,
}

impl Table {
    fn new(answers: Vec<(&str, Vec<Record>)>) -> Self {
        Table {
            answers: answers.into_iter().map(|(q, r)| (q.to_string(), r)).collect(),
            writes: RefCell::new(Vec::new()),
            fail_reads: false,
        }
    }
}

impl DataSource for Table {
    fn execute_query(&self, query: &str, _params: Option<&Record>) -> Result<Vec<Record>, DataSourceError> {
        if self.fail_reads {
            return Err(DataSourceError { message: "down".to_string() });
        }
        Ok(self
            .answers
            .iter()
            .find(|(q, _)| q == query)
            .map(|(_, r)| r.clone())
            .unwrap_or_default())
    }

    fn execute_query_paginated(
        &self,
        query: &str,
        params: Option<&Record>,
        _pagination: Option<&PaginationParams>,
    ) -> Result<Vec<Record>, DataSourceError> {
        self.execute_query(query, params)
    }

    fn execute_mutation(&self, query: &str, _data: &Record) -> Result<Value, DataSourceError> {
        self.writes.borrow_mut().push(query.to_string());
        Ok(Value::Bool(true))
    }
}

/// A source that refuses every write.
struct Refusing;
impl DataSource for Refusing {
    fn execute_query(&self, _q: &str, _p: Option<&Record>) -> Result<Vec<Record>, DataSourceError> {
        Ok(vec![])
    }
    fn execute_query_paginated(
        &self,
        q: &str,
        p: Option<&Record>,
        _g: Option<&PaginationParams>,
    ) -> Result<Vec<Record>, DataSourceError> {
        self.execute_query(q, p)
    }
    fn execute_mutation(&self, _q: &str, _d: &Record) -> Result<Value, DataSourceError> {
        Err(DataSourceError { message: "read-only".to_string() })
    }
}

fn row(id: &str) -> Record {
    let mut r = Record::new();
    r.insert("id".to_string(), Value::String(id.to_string()));
    r
}

fn section(id: &str) -> SectionConfig {
    SectionConfig {
        id: id.to_string(),
        name: id.to_string(),
        icon: None,
        actions: vec![ActionConfig {
            id: "list".to_string(),
            name: "List".to_string(),
            action_type: ActionType::View { fields: vec![] },
            data_source: "db".to_string(),
            query: None,
            endpoint: None,
            required_scopes: vec![],
        }],
        audit: None,
    }
}

fn rel(id: &str, from: &str, field: &str, to: &str, kind: RelationshipType, cascade: bool) -> RelationshipConfig {
    RelationshipConfig {
        id: id.to_string(),
        from_section: from.to_string(),
        from_field: field.to_string(),
        to_section: to.to_string(),
        to_field: "id".to_string(),
        relationship_type: kind,
        cascade_delete: cascade,
    }
}

fn backoffice(relationships: Vec<RelationshipConfig>, sections: Vec<SectionConfig>) -> BackofficeConfig {
    BackofficeConfig {
        id: "shop".to_string(),
        name: "Shop".to_string(),
        description: None,
        data_sources: HashMap::new(),
        relationships,
        sections,
    }
}

#[test]
fn dangling_reference_gives_one_error_and_a_match_gives_none() {
    let bo = backoffice(
        vec![rel("order_user", "orders", "user_id", "users", RelationshipType::ManyToOne, false)],
        vec![section("orders"), section("users")],
    );
    let mut data = Record::new();
    data.insert("user_id".to_string(), Value::String("7".to_string()));
    let empty = vec![("db".to_string(), Table::new(vec![]))];
    let errors = validate_foreign_keys(&data, "orders", &bo, &empty).unwrap();
    assert_eq!(errors.len(), 1);
    assert_eq!(errors[0].field, "user_id");
    assert_eq!(errors[0].message, "Referenced users with id = 7 does not exist");

    let found = vec![(
        "db".to_string(),
        Table::new(vec![("SELECT id FROM users WHERE id = '7'", vec![row("7")])]),
    )];
    assert_eq!(validate_foreign_keys(&data, "orders", &bo, &found).unwrap().len(), 0);

    let mut down = Table::new(vec![]);
    down.fail_reads = true;
    let errors = validate_foreign_keys(&data, "orders", &bo, &vec![("db".to_string(), down)]).unwrap();
    assert_eq!(errors[0].message, "Failed to validate relationship: down");
}

#[test]
fn missing_configuration_is_an_integrity_error() {
    let bo = backoffice(
        vec![rel("order_user", "orders", "user_id", "users", RelationshipType::OneToOne, false)],
        vec![section("orders")],
    );
    let mut data = Record::new();
    data.insert("user_id".to_string(), Value::String("7".to_string()));
    let sources = vec![("db".to_string(), GrpcDataSource::new(String::new(), String::new(), String::new(), false))];
    let err = validate_foreign_keys(&data, "orders", &bo, &sources).unwrap_err();
    assert!(matches!(err.kind, IntegrityErrorKind::SectionNotFound));
    assert_eq!(err.subject, "users");
    data.insert("user_id".to_string(), Value::Null);
    assert_eq!(validate_foreign_keys(&data, "orders", &bo, &sources).unwrap().len(), 0);
}

#[test]
fn many_to_many_checks_each_element() {
    let kind = RelationshipType::ManyToMany {
        junction_table: "post_tags".to_string(),
        from_junction_field: "post_id".to_string(),
        to_junction_field: "tag_id".to_string(),
    };
    let bo = backoffice(vec![rel("post_tags", "posts", "tags", "tags", kind, true)], vec![section("posts"), section("tags")]);
    let mut data = Record::new();
    data.insert(
        "tags".to_string(),
        Value::Array(vec![
            Value::String("a".to_string()),
            Value::String("b".to_string()),
            Value::Number(3),
            Value::String("c".to_string()),
        ]),
    );
    let sources = vec![(
        "db".to_string(),
        Table::new(vec![("SELECT id FROM tags WHERE id = 'b'", vec![row("b")])]),
    )];
    let errors = validate_many_to_many(&data, "posts", &bo, &sources).unwrap();
    assert_eq!(errors.len(), 2);
    assert_eq!(errors[0].message, "Referenced tags with id = a does not exist");
    assert_eq!(errors[1].message, "Referenced tags with id = c does not exist");
}

#[test]
fn cascade_plans_depth_first_and_stops_on_cycles() {
    let bo = backoffice(
        vec![
            rel("user_orders", "orders", "user_id", "users", RelationshipType::OneToMany, true),
            rel("order_items", "items", "order_id", "orders", RelationshipType::OneToMany, true),
            rel("order_user_back", "users", "last_order", "orders", RelationshipType::OneToOne, true),
            rel("skip", "reviews", "user_id", "users", RelationshipType::ManyToOne, true),
        ],
        vec![section("users"), section("orders"), section("items"), section("reviews")],
    );
    let sources = vec![(
        "db".to_string(),
        Table::new(vec![
            ("SELECT * FROM orders WHERE user_id = 'u1'", vec![row("o1"), row("o2")]),
            ("SELECT * FROM items WHERE order_id = 'o1'", vec![row("i1")]),
            ("SELECT * FROM users WHERE last_order = 'o1'", vec![row("u1")]),
        ]),
    )];
    let ops = handle_cascade_delete("u1", "users", &bo, &sources).unwrap();
    let ids: Vec<(&str, &str)> = ops.iter().map(|o| (o.section.as_str(), o.record_id.as_str())).collect();
    assert_eq!(ids, vec![("orders", "o1"), ("items", "i1"), ("orders", "o2")]);
    let again = handle_cascade_delete("u1", "users", &bo, &sources).unwrap();
    assert_eq!(again.len(), ops.len());
    for (a, b) in ops.iter().zip(again.iter()) {
        assert_eq!(a.record_id, b.record_id);
        assert_eq!(a.section, b.section);
    }
}

#[test]
fn cascade_removes_junction_rows_and_executes_in_order() {
    let kind = RelationshipType::ManyToMany {
        junction_table: "post_tags".to_string(),
        from_junction_field: "post_id".to_string(),
        to_junction_field: "tag_id".to_string(),
    };
    let bo = backoffice(
        vec![rel("post_tags", "tags", "posts", "posts", kind, true)],
        vec![section("posts"), section("post_tags")],
    );
    let sources = vec![("db".to_string(), Table::new(vec![]))];
    let ops = handle_cascade_delete("post9", "posts", &bo, &sources).unwrap();
    assert_eq!(ops.len(), 1);
    assert!(matches!(ops[0].operation_type, CascadeOperationType::DeleteJunction));
    assert_eq!(ops[0].section, "post_tags");
    let (query, data) = cascade_mutation(&ops[0], &bo).unwrap().unwrap();
    assert_eq!(query, "DELETE FROM post_tags WHERE post_id = 'post9'");
    assert_eq!(data.get("post_id").and_then(|v| v.as_str()).map(|s| s.as_str()), Some("post9"));
    execute_cascade_operations(&ops, &bo, &sources).unwrap();
    assert_eq!(*sources[0].1.writes.borrow(), vec!["DELETE FROM post_tags WHERE post_id = 'post9'".to_string()]);

    let reserved = CascadeOperation {
        operation_type: CascadeOperationType::SetNull,
        section: "posts".to_string(),
        record_id: "post9".to_string(),
        relationship_id: "post_tags".to_string(),
    };
    assert!(cascade_mutation(&reserved, &bo).unwrap().is_none());
    let unknown = CascadeOperation { section: "nowhere".to_string(), ..reserved };
    let err = execute_cascade_operations(&vec![unknown], &bo, &sources).unwrap_err();
    assert!(matches!(err.kind, IntegrityErrorKind::SectionNotFound));
}

#[test]
fn failed_many_to_many_lookups_are_reported() {
    let kind = RelationshipType::ManyToMany {
        junction_table: "post_tags".to_string(),
        from_junction_field: "post_id".to_string(),
        to_junction_field: "tag_id".to_string(),
    };
    let bo = backoffice(vec![rel("post_tags", "posts", "tags", "tags", kind, true)], vec![section("posts"), section("tags")]);
    let mut data = Record::new();
    data.insert(
        "tags".to_string(),
        Value::Array(vec![Value::String("a".to_string()), Value::String("b".to_string())]),
    );
    let mut down = Table::new(vec![]);
    down.fail_reads = true;
    let errors = validate_many_to_many(&data, "posts", &bo, &vec![("db".to_string(), down)]).unwrap();
    assert_eq!(errors.len(), 2);
    assert_eq!(errors[1].message, "Failed to validate relationship: down");
}

#[test]
fn a_failed_dependents_read_aborts_planning() {
    let bo = backoffice(
        vec![rel("user_orders", "orders", "user_id", "users", RelationshipType::OneToMany, true)],
        vec![section("users"), section("orders")],
    );
    let mut down = Table::new(vec![]);
    down.fail_reads = true;
    let err = handle_cascade_delete("u1", "users", &bo, &vec![("db".to_string(), down)]).unwrap_err();
    assert!(matches!(err.kind, IntegrityErrorKind::Backend));
    assert_eq!(err.subject, "down");
}

#[test]
fn read_outcomes_map_to_errors_and_steps() {
    let r = rel("order_user", "orders", "user_id", "users", RelationshipType::ManyToOne, false);
    let missing = fk_outcome_error(&r, "7", &Ok(vec![])).unwrap();
    assert_eq!(missing.field, "user_id");
    assert_eq!(missing.relationship_id, "order_user");
    assert!(fk_outcome_error(&r, "7", &Ok(vec![row("7")])).is_none());
    let failed = Err(DataSourceError { message: "timeout".to_string() });
    assert_eq!(fk_outcome_error(&r, "7", &failed).unwrap().message, "Failed to validate relationship: timeout");
    assert_eq!(m2m_outcome_error(&r, "x", &failed).unwrap().message, "Failed to validate relationship: timeout");
    assert!(matches!(dependents_from(failed).unwrap_err().kind, IntegrityErrorKind::Backend));
    assert_eq!(dependents_from(Ok(vec![row("1"), row("2")])).unwrap().len(), 2);
    let visited = vec![("orders".to_string(), "1".to_string())];
    assert!(matches!(cascade_visit("orders", &row("1"), &visited, 5), CascadeVisit::Pass));
    assert!(matches!(cascade_visit("orders", &Record::new(), &visited, 5), CascadeVisit::Pass));
    assert!(matches!(cascade_visit("orders", &row("2"), &visited, 0), CascadeVisit::TooDeep(ref id) if id == "2"));
    assert!(matches!(cascade_visit("orders", &row("2"), &visited, 5), CascadeVisit::Descend(ref id) if id == "2"));
    assert!(write_outcome(Ok(Value::Null)).is_ok());
    assert!(matches!(
        write_outcome(Err(DataSourceError { message: "refused".to_string() })).unwrap_err().kind,
        IntegrityErrorKind::Backend
    ));
}

#[test]
fn executing_nothing_succeeds_and_a_failed_write_stops_the_run() {
    let bo = backoffice(vec![], vec![section("posts")]);
    let sources = vec![("db".to_string(), Table::new(vec![]))];
    assert!(execute_cascade_operations(&vec![], &bo, &sources).is_ok());
    let op = |id: &str| CascadeOperation {
        operation_type: CascadeOperationType::Delete,
        section: "posts".to_string(),
        record_id: id.to_string(),
        relationship_id: "r".to_string(),
    };
    let err = execute_cascade_operations(&vec![op("1"), op("2")], &bo, &vec![("db".to_string(), Refusing)]).unwrap_err();
    assert!(matches!(err.kind, IntegrityErrorKind::Backend));
    assert_eq!(err.subject, "read-only");
}
