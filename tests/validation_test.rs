use pmp_backoffice_generator::bindings::{Clock, Instant};
use pmp_backoffice_generator::config::{
    ConditionOperator, FieldConfig, FieldType, TextFieldConfig, ValidationCondition,
    ValidationRule, ValidationType,
};
use pmp_backoffice_generator::validation::{
    check_rule, evaluate_condition, validate_data, validate_data_at, validate_luhn,
};
use pmp_backoffice_generator::value::{Record, Value};

fn text(s: &str) -> Value {
    Value::String(s.to_string())
}

fn field(id: &str, name: &str, required: bool, validations: Vec<ValidationRule>) -> FieldConfig {
    FieldConfig {
        id: id.to_string(),
        name: name.to_string(),
        field_type: FieldType::Text {
            config: TextFieldConfig::default(),
        },
        required,
        editable: true,
        visible: true,
        default_value: None,
        placeholder: None,
        help_text: None,
        validations,
        relationship_id: None,
    }
}

fn rule(rule_type: ValidationType) -> ValidationRule {
    ValidationRule {
        rule_type,
        message: None,
        condition: None,
    }
}

fn clock() -> Clock {
    // 2024-06-15T12:00:00Z; day 739052 from the common era.
    Clock {
        now: Instant {
            secs: 1718452800,
            nanos: 0,
        },
        today: 739052,
    }
}

#[test]
fn test_email_validation() {
    let field = FieldConfig {
        id: "email".to_string(),
        name: "Email".to_string(),
        field_type: FieldType::Email {
            config: Default::default(),
        },
        required: false,
        editable: true,
        visible: true,
        default_value: None,
        placeholder: None,
        help_text: None,
        validations: vec![ValidationRule {
            rule_type: ValidationType::Email,
            message: None,
            condition: None,
        }],
        relationship_id: None,
    };

    let mut data = Record::new();
    data.insert(
        "email".to_string(),
        Value::String("test@example.com".to_string()),
    );

    let errors = validate_data(&data, &[field.clone()]).unwrap();
    assert_eq!(errors.len(), 0);

    data.insert("email".to_string(), Value::String("invalid".to_string()));
    let errors = validate_data(&data, &[field]).unwrap();
    assert_eq!(errors.len(), 1);
}

#[test]
fn test_luhn_algorithm() {
    assert!(validate_luhn("4532015112830366")); // Valid Visa
    assert!(!validate_luhn("1234567890123456")); // Invalid
}

#[test]
fn test_required_validation() {
    let field = FieldConfig {
        id: "name".to_string(),
        name: "Name".to_string(),
        field_type: FieldType::Text {
            config: TextFieldConfig::default(),
        },
        required: true,
        editable: true,
        visible: true,
        default_value: None,
        placeholder: None,
        help_text: None,
        validations: vec![],
        relationship_id: None,
    };

    let data = Record::new();
    let errors = validate_data(&data, &[field]).unwrap();
    assert_eq!(errors.len(), 1);
    assert_eq!(errors[0].field, "name");
}

#[test]
fn luhn_needs_two_digits_and_skips_other_characters() {
    assert!(!validate_luhn(""));
    assert!(!validate_luhn("0"));
    assert!(!validate_luhn("a7b"));
    assert!(validate_luhn("00"));
    assert!(validate_luhn("4532-0151-1283-0366"));
    assert!(!validate_luhn("4532-0151-1283-0367"));
}

#[test]
fn every_violation_is_reported() {
    let fields = vec![
        field("name", "Name", true, vec![]),
        field("code", "Code", false, vec![rule(ValidationType::MinLength { value: 5 }), rule(ValidationType::Hex)]),
        field("age", "Age", false, vec![rule(ValidationType::Between { min: 18, max: 99 })]),
    ];
    let mut data = Record::new();
    data.insert("code".to_string(), text("xyz"));
    data.insert("age".to_string(), Value::Number(7));
    let errors = validate_data_at(&data, &fields, &clock());
    assert_eq!(errors.len(), 4);
    assert_eq!(errors[0].field, "name");
    assert_eq!(errors[0].message, "Name is required");
    assert_eq!(errors[1].message, "Code must be at least 5 characters");
    assert_eq!(errors[2].message, "Code must be valid hexadecimal");
    assert_eq!(errors[3].message, "Age must be between 18 and 99");
}

#[test]
fn a_rule_whose_condition_fails_is_skipped() {
    let gated = ValidationRule {
        rule_type: ValidationType::MinLength { value: 10 },
        message: Some("too short".to_string()),
        condition: Some(ValidationCondition {
            field: "kind".to_string(),
            operator: ConditionOperator::Equals,
            value: text("business"),
        }),
    };
    let fields = vec![field("name", "Name", false, vec![gated])];
    let mut data = Record::new();
    data.insert("name".to_string(), text("Al"));
    data.insert("kind".to_string(), text("person"));
    assert_eq!(validate_data_at(&data, &fields, &clock()).len(), 0);
    data.insert("kind".to_string(), text("business"));
    let errors = validate_data_at(&data, &fields, &clock());
    assert_eq!(errors.len(), 1);
    assert_eq!(errors[0].message, "too short");
}

#[test]
fn min_length_scenario_end_to_end() {
    let fields = vec![field("name", "Name", false, vec![rule(ValidationType::MinLength { value: 3 })])];
    let mut data = Record::new();
    data.insert("name".to_string(), text("A"));
    data.insert("age".to_string(), Value::Number(30));
    let errors = validate_data(&data, &fields).unwrap();
    assert_eq!(errors.len(), 1);
    assert_eq!(errors[0].field, "name");
    data.insert("name".to_string(), text("Alice"));
    assert_eq!(validate_data(&data, &fields).unwrap().len(), 0);
}

#[test]
fn conditions_compare_by_kind() {
    let mut data = Record::new();
    data.insert("n".to_string(), Value::Number(5));
    data.insert("s".to_string(), text("hello world"));
    let cond = |f: &str, op: ConditionOperator, v: Value| ValidationCondition {
        field: f.to_string(),
        operator: op,
        value: v,
    };
    assert!(evaluate_condition(&data, &cond("n", ConditionOperator::GreaterThan, Value::Number(4))));
    assert!(!evaluate_condition(&data, &cond("n", ConditionOperator::GreaterThan, text("4"))));
    assert!(evaluate_condition(&data, &cond("n", ConditionOperator::LessThanOrEqual, Value::Number(5))));
    assert!(evaluate_condition(&data, &cond("s", ConditionOperator::Contains, text("lo wo"))));
    assert!(!evaluate_condition(&data, &cond("s", ConditionOperator::NotContains, text("lo wo"))));
    assert!(!evaluate_condition(&data, &cond("n", ConditionOperator::Contains, text("5"))));
    assert!(evaluate_condition(&data, &cond("n", ConditionOperator::In, Value::Array(vec![Value::Number(1), Value::Number(5)]))));
    assert!(evaluate_condition(&data, &cond("n", ConditionOperator::NotIn, Value::Array(vec![Value::Number(1)]))));
    assert!(!evaluate_condition(&data, &cond("missing", ConditionOperator::NotIn, Value::Array(vec![]))));
    assert!(evaluate_condition(&data, &cond("missing", ConditionOperator::NotEquals, Value::Null)));
}

#[test]
fn rules_give_their_messages() {
    let data = Record::new();
    let name = "Field".to_string();
    let c = clock();
    let fails = |v: Value, r: ValidationType| check_rule(&v, &r, &name, &data, &c);
    assert_eq!(fails(Value::Number(-3), ValidationType::Min { value: -2 }).unwrap(), "Field must be at least -2");
    assert_eq!(fails(text("abcdef"), ValidationType::MaxLength { value: 3 }).unwrap(), "Field must be at most 3 characters");
    assert!(fails(text("abc"), ValidationType::MaxLength { value: 3 }).is_none());
    assert!(fails(Value::Number(3), ValidationType::MinLength { value: 10 }).is_none());
    assert!(fails(text("550e8400-e29b-41d4-a716-446655440000"), ValidationType::Uuid).is_none());
    assert_eq!(fails(text("nope"), ValidationType::Uuid).unwrap(), "Field must be a valid UUID");
    assert!(fails(text("{\"a\": 1}"), ValidationType::Json).is_none());
    assert_eq!(fails(text("{a"), ValidationType::Json).unwrap(), "Field must be valid JSON");
    assert!(fails(text("978-0-306-40615-7"), ValidationType::Isbn).is_none());
    assert_eq!(fails(text("12-34"), ValidationType::Isbn).unwrap(), "Field must be a valid ISBN");
    assert!(fails(text("12345"), ValidationType::PostalCode { country_code: "US".to_string() }).is_none());
    assert_eq!(
        fails(text("1234"), ValidationType::PostalCode { country_code: "US".to_string() }).unwrap(),
        "Field must be a valid US postal code"
    );
    assert!(fails(text("anything"), ValidationType::PostalCode { country_code: "FR".to_string() }).is_none());
    assert_eq!(fails(text("   "), ValidationType::NotEmpty).unwrap(), "Field must not be empty");
    assert_eq!(fails(text("héllo"), ValidationType::Ascii).unwrap(), "Field must contain only ASCII characters");
    assert_eq!(fails(text("a b"), ValidationType::AlphaNumeric).unwrap(), "Field must contain only alphanumeric characters");
    assert_eq!(fails(text("4532015112830367"), ValidationType::CreditCard).unwrap(), "Field must be a valid credit card number");
    assert_eq!(
        fails(text("x"), ValidationType::Pattern { regex: "(".to_string() }).unwrap(),
        "Invalid regex pattern: ("
    );
    assert_eq!(
        fails(text("abc"), ValidationType::Pattern { regex: "^[0-9]+$".to_string() }).unwrap(),
        "Field does not match the required pattern"
    );
}

#[test]
fn password_and_dates() {
    let data = Record::new();
    let name = "Password".to_string();
    let c = clock();
    let strong = ValidationType::StrongPassword {
        min_length: 8,
        require_uppercase: true,
        require_lowercase: true,
        require_number: true,
        require_special: true,
    };
    let fails = |v: &str, r: &ValidationType| check_rule(&text(v), r, &name, &data, &c);
    assert_eq!(fails("short", &strong).unwrap(), "Password must be at least 8 characters");
    assert_eq!(fails("lowercase1!", &strong).unwrap(), "Password must contain at least one uppercase letter");
    assert_eq!(fails("Abcdefgh!", &strong).unwrap(), "Password must contain at least one number");
    assert_eq!(fails("Abcdefg1", &strong).unwrap(), "Password must contain at least one special character");
    assert!(fails("Abcdefg1!", &strong).is_none());
    assert!(fails("2030-01-01", &ValidationType::Future).is_none());
    assert_eq!(fails("2020-01-01", &ValidationType::Future).unwrap(), "Password must be a future date");
    assert!(fails("2020-01-01T00:00:00Z", &ValidationType::Past).is_none());
    assert_eq!(fails("2000-01-01", &ValidationType::MinAge { years: 30 }).unwrap(), "Must be at least 30 years old");
    assert!(fails("2000-01-01", &ValidationType::MinAge { years: 18 }).is_none());
    assert_eq!(fails("2000-01-01", &ValidationType::MaxAge { years: 20 }).unwrap(), "Must be at most 20 years old");
}

#[test]
fn cross_field_rules_read_siblings() {
    let mut data = Record::new();
    data.insert("password".to_string(), text("secret"));
    data.insert("start".to_string(), text("2024-02-01T00:00:00Z"));
    data.insert("end".to_string(), text("2024-01-01T00:00:00Z"));
    let name = "Confirm".to_string();
    let c = clock();
    let m = ValidationType::MatchField { field: "password".to_string() };
    assert!(check_rule(&text("secret"), &m, &name, &data, &c).is_none());
    assert_eq!(check_rule(&text("other"), &m, &name, &data, &c).unwrap(), "Confirm must match password");
    let range = ValidationType::DateRange { start_field: "start".to_string(), end_field: "end".to_string() };
    assert_eq!(check_rule(&Value::Null, &range, &name, &data, &c).unwrap(), "Start date must be before end date");
}
