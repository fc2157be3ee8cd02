//! The decisions the HTTP layer takes for each request: which backoffice,
//! section and action a request names, what a mutation must pass before any
//! backend is reached, and what is dispatched after.
use vstd::prelude::*;
use vstd::string::StringExecFns;

use crate::bindings::Clock;
use crate::config::{ActionConfig, ActionType, BackofficeConfig, FieldConfig};
use crate::data_source::{page_of, paginate, DataSource, DataSourceError, PaginationParams};
use crate::relationships::{
    cascade_plan, execute_cascade_operations, find_section, first_key, fk_run, handle_cascade_delete,
    integrity_view, lemma_first_key, m2m_run, relationship_error_views, section_ids, source_names,
    Answer,
    validate_foreign_keys, validate_many_to_many, IntegrityError, RelationshipError,
};
use crate::text::str_eq;
use crate::validation::{error_views, expected_errors, validate_data_at, ValidationError};
use crate::value::{Record, Value};

verus! {

/// Why a request was turned down.
#[derive(Debug)]
pub enum RequestFailure {
    /// A backoffice, section or action the request names is not configured.
    NotFound(String),
    /// The request lacks what it must carry.
    BadRequest(String),
    /// The submitted record fails validation; every failure is listed.
    Validation(Vec<ValidationError>),
    /// The submitted record references records that do not exist.
    Relationship(Vec<RelationshipError>),
    /// The configuration names what is not there, or a cascade failed.
    Integrity(IntegrityError),
    /// The backend refused the operation.
    Backend(String),
}

pub open spec fn backoffice_ids(bs: Seq<BackofficeConfig>) -> Seq<Seq<char>> {
    bs.map_values(|b: BackofficeConfig| b.id@)
}

pub open spec fn action_ids(actions: Seq<ActionConfig>) -> Seq<Seq<char>> {
    actions.map_values(|a: ActionConfig| a.id@)
}

/// The positions of the backoffice, section and action a request names.
pub open spec fn route(bs: Seq<BackofficeConfig>, bo: Seq<char>, section: Seq<char>, action: Seq<char>) -> Option<(int, int, int)> {
    match first_key(backoffice_ids(bs), bo) {
        None => None,
        Some(b) => match first_key(section_ids(bs[b].sections@), section) {
            None => None,
            Some(s) => match first_key(action_ids(bs[b].sections@[s].actions@), action) {
                None => None,
                Some(a) => Some((b, s, a)),
            },
        },
    }
}

/// Finds a backoffice by id.
pub fn find_backoffice(backoffices: &Vec<BackofficeConfig>, id: &str) -> (r: Option<usize>)
    ensures
        match r {
            Some(i) => first_key(backoffice_ids(backoffices@), id@) == Some(i as int) && i < backoffices@.len(),
            None => first_key(backoffice_ids(backoffices@), id@) is None,
        },
{
    let ghost keys = backoffice_ids(backoffices@);
    let mut i: usize = 0;
    while i < backoffices.len()
        invariant
            i <= backoffices@.len(),
            keys == backoffice_ids(backoffices@),
            forall|j: int| 0 <= j < i ==> keys[j] != id@,
        decreases backoffices.len() - i,
    {
        if str_eq(backoffices[i].id.as_str(), id) {
            proof { lemma_first_key(keys, id@, i as int); }
            return Some(i);
        }
        i = i + 1;
    }
    None
}

/// Finds an action of a section by id.
pub fn find_action(actions: &Vec<ActionConfig>, id: &str) -> (r: Option<usize>)
    ensures
        match r {
            Some(i) => first_key(action_ids(actions@), id@) == Some(i as int) && i < actions@.len(),
            None => first_key(action_ids(actions@), id@) is None,
        },
{
    let ghost keys = action_ids(actions@);
    let mut i: usize = 0;
    while i < actions.len()
        invariant
            i <= actions@.len(),
            keys == action_ids(actions@),
            forall|j: int| 0 <= j < i ==> keys[j] != id@,
        decreases actions.len() - i,
    {
        if str_eq(actions[i].id.as_str(), id) {
            proof { lemma_first_key(keys, id@, i as int); }
            return Some(i);
        }
        i = i + 1;
    }
    None
}

/// Finds the backoffice, section and action a request names.
pub fn find_route(
    backoffices: &Vec<BackofficeConfig>,
    backoffice_id: &str,
    section_id: &str,
    action_id: &str,
) -> (r: Result<(usize, usize, usize), RequestFailure>)
    ensures
        match route(backoffices@, backoffice_id@, section_id@, action_id@) {
            Some(t) => r matches Ok(x) && x.0 == t.0 && x.1 == t.1 && x.2 == t.2 && x.0 < backoffices@.len()
                && x.1 < backoffices@[t.0].sections@.len() && x.2 < backoffices@[t.0].sections@[t.1].actions@.len(),
            None => r matches Err(RequestFailure::NotFound(_)),
        },
{
    let b = match find_backoffice(backoffices, backoffice_id) {
        Some(b) => b,
        None => {
            return Err(RequestFailure::NotFound(String::from_str("Backoffice not found")));
        },
    };
    let s = match find_section(&backoffices[b].sections, section_id) {
        Some(s) => s,
        None => {
            return Err(RequestFailure::NotFound(String::from_str("Section not found")));
        },
    };
    let a = match find_action(&backoffices[b].sections[s].actions, action_id) {
        Some(a) => a,
        None => {
            return Err(RequestFailure::NotFound(String::from_str("Action not found")));
        },
    };
    Ok((b, s, a))
}

/// The fields a mutation is validated against: those of a form or custom
/// action; other actions validate nothing.
pub open spec fn mutation_fields(a: ActionType) -> Seq<FieldConfig> {
    match a {
        ActionType::Form { fields, .. } => fields@,
        ActionType::Custom { fields } => fields@,
        _ => Seq::empty(),
    }
}

/// The text an action hands its backend: its query, else its endpoint, else
/// nothing.
pub open spec fn action_query(a: ActionConfig) -> Seq<char> {
    match a.query {
        Some(q) => q@,
        None => match a.endpoint {
            Some(e) => e@,
            None => Seq::empty(),
        },
    }
}

pub fn action_query_text(action: &ActionConfig) -> (r: &str)
    ensures
        r@ == action_query(*action),
{
    match &action.query {
        Some(q) => q.as_str(),
        None => match &action.endpoint {
            Some(e) => e.as_str(),
            None => {
                proof { reveal_strlit(""); }
                ""
            },
        },
    }
}

/// The first step of a mutation, taken before any backend is reached: the
/// request must name a configured action, and the record must pass every
/// rule of the action's fields.
pub fn validate_mutation(
    backoffices: &Vec<BackofficeConfig>,
    backoffice_id: &str,
    section_id: &str,
    action_id: &str,
    payload: &Record,
    clock: &Clock,
) -> (r: Result<(), RequestFailure>)
    ensures
        match route(backoffices@, backoffice_id@, section_id@, action_id@) {
            None => r matches Err(RequestFailure::NotFound(_)),
            Some(t) => {
                let errs = expected_errors(
                    *payload,
                    mutation_fields(backoffices@[t.0].sections@[t.1].actions@[t.2].action_type),
                    *clock,
                );
                if errs.len() == 0 {
                    r is Ok
                } else {
                    r matches Err(RequestFailure::Validation(es)) && error_views(es@) == errs
                }
            },
        },
{
    let (b, s, a) = find_route(backoffices, backoffice_id, section_id, action_id)?;
    let action = &backoffices[b].sections[s].actions[a];
    let errors = match &action.action_type {
        ActionType::Form { fields, .. } => validate_data_at(payload, fields.as_slice(), clock),
        ActionType::Custom { fields } => validate_data_at(payload, fields.as_slice(), clock),
        _ => {
            let none: Vec<FieldConfig> = Vec::new();
            validate_data_at(payload, none.as_slice(), clock)
        },
    };
    if errors.len() == 0 {
        Ok(())
    } else {
        Err(RequestFailure::Validation(errors))
    }
}

/// What a backend's answer to a write makes of the request: its
/// acknowledgment, or its error.
pub fn mutation_outcome(outcome: Result<Value, DataSourceError>) -> (r: Result<Value, RequestFailure>)
    ensures
        match outcome {
            Ok(v) => r == Ok::<Value, RequestFailure>(v),
            Err(e) => r matches Err(RequestFailure::Backend(m)) && m@ == e.message@,
        },
{
    match outcome {
        Ok(v) => Ok(v),
        Err(e) => Err(RequestFailure::Backend(e.message)),
    }
}

/// What happens to a mutation once its references are confirmed: the
/// action's source must be configured; what the backend answers is the
/// outcome.
pub open spec fn dispatched<D>(r: Result<Value, RequestFailure>, action: ActionConfig, sources: Seq<(String, D)>) -> bool {
    match first_key(source_names(sources), action.data_source@) {
        None => r matches Err(RequestFailure::Integrity(e)) && e.kind is DataSourceNotFound,
        Some(_) => r is Ok || r matches Err(RequestFailure::Backend(_)),
    }
}

/// The second step of a mutation: references are checked, then the write is
/// handed to the action's source.
pub fn dispatch_mutation<D: DataSource>(
    backoffice: &BackofficeConfig,
    section_id: &str,
    action: &ActionConfig,
    payload: &Record,
    data_sources: &Vec<(String, D)>,
) -> (r: Result<Value, RequestFailure>)
    ensures
        exists|fa: Seq<Answer>| match #[trigger] fk_run(backoffice.relationships@, *payload, section_id@, *backoffice, data_sources@, fa) {
            Err(x) => r matches Err(RequestFailure::Integrity(e)) && integrity_view(e) == x,
            Ok(fk) => if fk.0.len() > 0 {
                r matches Err(RequestFailure::Relationship(es)) && relationship_error_views(es@) == fk.0
            } else {
                exists|ma: Seq<Answer>| match #[trigger] m2m_run(backoffice.relationships@, *payload, section_id@, *backoffice, data_sources@, ma) {
                    Ok(mm) => if mm.0.len() > 0 {
                        r matches Err(RequestFailure::Relationship(es)) && relationship_error_views(es@) == mm.0
                    } else {
                        dispatched(r, *action, data_sources@)
                    },
                    Err(_) => dispatched(r, *action, data_sources@),
                }
            },
        },
{
    let fk = validate_foreign_keys(payload, section_id, backoffice, data_sources);
    let ghost fa = choose|fa: Seq<Answer>| match #[trigger] fk_run(backoffice.relationships@, *payload, section_id@, *backoffice, data_sources@, fa) {
        Ok(run) => fk matches Ok(errors) && relationship_error_views(errors@) == run.0 && run.1.len() == fa.len(),
        Err(x) => fk matches Err(e) && integrity_view(e) == x,
    };
    match fk {
        Err(e) => {
            return Err(RequestFailure::Integrity(e));
        },
        Ok(errors) => {
            if errors.len() > 0 {
                proof {
                    assert(relationship_error_views(errors@).len() == errors@.len());
                }
                return Err(RequestFailure::Relationship(errors));
            }
        },
    }
    let mm = validate_many_to_many(payload, section_id, backoffice, data_sources);
    let ghost ma = choose|ma: Seq<Answer>| match #[trigger] m2m_run(backoffice.relationships@, *payload, section_id@, *backoffice, data_sources@, ma) {
        Ok(run) => mm matches Ok(errors) && relationship_error_views(errors@) == run.0 && run.1.len() == ma.len(),
        Err(x) => mm matches Err(e) && integrity_view(e) == x,
    };
    match mm {
        Ok(errors) => {
            if errors.len() > 0 {
                return Err(RequestFailure::Relationship(errors));
            }
        },
        Err(_) => {},
    }
    let k = match crate::relationships::find_source_index(data_sources, action.data_source.as_str()) {
        Some(k) => k,
        None => {
            return Err(RequestFailure::Integrity(IntegrityError {
                kind: crate::relationships::IntegrityErrorKind::DataSourceNotFound,
                subject: action.data_source.clone(),
            }));
        },
    };
    mutation_outcome(data_sources[k].1.execute_mutation(action_query_text(action), payload))
}


/// The write that deletes a record of a section, as (query, id): the record
/// handed with the query holds `id` under "id".
pub fn delete_mutation(section_id: &str, record_id: &str) -> (r: (String, Record))
    ensures
        r.0@ == "DELETE FROM "@ + section_id@ + " WHERE id = '"@ + record_id@ + "'"@,
        r.1.entries@.len() == 1 && r.1.entries@[0].0@ == "id"@ && (r.1.entries@[0].1 matches Value::String(v) && v@
            == record_id@),
{
    let query = String::from_str("DELETE FROM ").concat(section_id).concat(" WHERE id = '").concat(record_id).concat(
        "'",
    );
    let mut entries: Vec<(String, Value)> = Vec::new();
    entries.push((String::from_str("id"), Value::String(String::from_str(record_id))));
    (query, Record { entries })
}

/// Deletes a record after the records that depend on it: the cascade is
/// planned, then executed, then the record itself is deleted through the
/// action's source. A failed plan stops before any write; a failure while
/// executing leaves what was written written.
pub fn delete_record<D: DataSource>(
    backoffice: &BackofficeConfig,
    section_index: usize,
    action_id: &str,
    record_id: &str,
    data_sources: &Vec<(String, D)>,
) -> (r: Result<Value, RequestFailure>)
    requires
        section_index < backoffice.sections@.len(),
    ensures
        exists|ans: Seq<Answer>| match #[trigger] cascade_plan(record_id@, backoffice.sections@[section_index as int].id@, *backoffice, data_sources@, ans) {
            Err(x) => r matches Err(RequestFailure::Integrity(e)) && integrity_view(e) == x,
            Ok(_) => r is Ok ==> ({
                let section = backoffice.sections@[section_index as int];
                first_key(action_ids(section.actions@), action_id@) is Some && first_key(
                    source_names(data_sources@),
                    section.actions@[first_key(action_ids(section.actions@), action_id@)->Some_0].data_source@,
                ) is Some
            }),
        },
        ({
            let section = backoffice.sections@[section_index as int];
            &&& r matches Err(RequestFailure::NotFound(_)) ==> first_key(action_ids(section.actions@), action_id@) is None
            &&& first_key(action_ids(section.actions@), action_id@) is None ==> r is Err
            &&& (first_key(action_ids(section.actions@), action_id@) matches Some(a) && first_key(
                source_names(data_sources@),
                section.actions@[a].data_source@,
            ) is None) ==> r is Err
            &&& r matches Err(RequestFailure::Backend(_)) ==> (first_key(action_ids(section.actions@), action_id@) matches Some(a)
                && first_key(source_names(data_sources@), section.actions@[a].data_source@) is Some)
        }),
{
    let section = &backoffice.sections[section_index];
    let ops = match handle_cascade_delete(record_id, section.id.as_str(), backoffice, data_sources) {
        Ok(ops) => ops,
        Err(e) => {
            return Err(RequestFailure::Integrity(e));
        },
    };
    if ops.len() > 0 {
        match execute_cascade_operations(&ops, backoffice, data_sources) {
            Ok(()) => {},
            Err(e) => {
                return Err(RequestFailure::Integrity(e));
            },
        }
    }
    let a = match find_action(&section.actions, action_id) {
        Some(a) => a,
        None => {
            return Err(RequestFailure::NotFound(String::from_str("Action not found")));
        },
    };
    let action = &section.actions[a];
    let k = match crate::relationships::find_source_index(data_sources, action.data_source.as_str()) {
        Some(k) => k,
        None => {
            return Err(RequestFailure::Integrity(IntegrityError {
                kind: crate::relationships::IntegrityErrorKind::DataSourceNotFound,
                subject: action.data_source.clone(),
            }));
        },
    };
    let (query, data) = delete_mutation(section.id.as_str(), record_id);
    mutation_outcome(data_sources[k].1.execute_mutation(query.as_str(), &data))
}

/// One page of a listing, with the size of the whole: the page's records,
/// how many records there are, and how many pages they fill.
pub fn list_page(rows: Vec<Record>, page: usize, page_size: usize) -> (r: (Vec<Record>, usize, usize))
    requires
        page >= 1,
        page_size >= 1,
        (page - 1) * page_size <= usize::MAX,
    ensures
        r.0@ == page_of(rows@, (page - 1) * page_size, page_size as int),
        r.1 == rows@.len(),
        r.2 as int == (rows@.len() as int) / (page_size as int) + (if (rows@.len() as int) % (page_size as int) == 0 { 0int } else { 1int }),
{
    let total = rows.len();
    let q = total / page_size;
    let pages = if total % page_size == 0 {
        q
    } else {
        assert(page_size >= 2);
        assert(q <= total / 2) by (nonlinear_arith)
            requires
                q == total / page_size,
                page_size >= 2,
        ;
        q + 1
    };
    let p = PaginationParams::new(page, page_size);
    (paginate(rows, &p), total, pages)
}

} // verus!
