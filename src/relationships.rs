use vstd::prelude::*;
use vstd::string::StringExecFns;

use crate::config::{BackofficeConfig, RelationshipConfig, RelationshipType, SectionConfig};
use crate::data_source::{DataSource, DataSourceError};
use crate::text::{signed_decimal, str_eq, write_signed_decimal};
use crate::value::{Record, Value};

verus! {

/// A dangling reference, or a reference that could not be confirmed.
#[derive(Clone, Debug)]
pub struct RelationshipError {
    pub relationship_id: String,
    pub field: String,
    pub message: String,
}

/// Cascade operation to be executed.
#[derive(Clone, Debug)]
pub struct CascadeOperation {
    pub operation_type: CascadeOperationType,
    pub section: String,
    pub record_id: String,
    pub relationship_id: String,
}

/// The kinds of cascade operation. `SetNull` is reserved: it is never
/// planned, and executing it does nothing.
#[derive(Clone, Copy, Debug)]
pub enum CascadeOperationType {
    Delete,
    DeleteJunction,
    SetNull,
}

#[derive(Clone, Copy, Debug)]
pub enum IntegrityErrorKind {
    SectionNotFound,
    NoActions,
    DataSourceNotFound,
    RelationshipNotFound,
    CascadeTooDeep,
    Backend,
}

/// Why the integrity engine could not do its work: a configuration that
/// names what is not there, a cascade deeper than the engine follows, or a
/// backend that refused a write. `subject` names what was missing or what the
/// backend said.
#[derive(Clone, Debug)]
pub struct IntegrityError {
    pub kind: IntegrityErrorKind,
    pub subject: String,
}

pub open spec fn integrity_view(e: IntegrityError) -> (IntegrityErrorKind, Seq<char>) {
    (e.kind, e.subject@)
}

pub open spec fn relationship_error_view(e: RelationshipError) -> (Seq<char>, Seq<char>, Seq<char>) {
    (e.relationship_id@, e.field@, e.message@)
}

pub open spec fn relationship_error_views(es: Seq<RelationshipError>) -> Seq<(Seq<char>, Seq<char>, Seq<char>)> {
    es.map_values(|e: RelationshipError| relationship_error_view(e))
}

/// The first position at which `keys` holds `key`.
pub open spec fn first_key(keys: Seq<Seq<char>>, key: Seq<char>) -> Option<int> {
    if exists|i: int| 0 <= i < keys.len() && keys[i] == key {
        Some(choose|i: int| 0 <= i < keys.len() && keys[i] == key && forall|j: int| 0 <= j < i ==> keys[j] != key)
    } else {
        None
    }
}

pub(crate) proof fn lemma_first_key(keys: Seq<Seq<char>>, key: Seq<char>, i: int)
    requires
        0 <= i < keys.len(),
        keys[i] == key,
        forall|j: int| 0 <= j < i ==> keys[j] != key,
    ensures
        first_key(keys, key) == Some(i),
{
    let k = choose|k: int| 0 <= k < keys.len() && keys[k] == key && forall|j: int| 0 <= j < k ==> keys[j] != key;
    assert(0 <= k < keys.len() && keys[k] == key && forall|j: int| 0 <= j < k ==> keys[j] != key);
    if k < i {
        assert(keys[k] != key);
    } else if i < k {
        assert(keys[i] != key);
    }
}

pub open spec fn section_ids(sections: Seq<SectionConfig>) -> Seq<Seq<char>> {
    sections.map_values(|s: SectionConfig| s.id@)
}

pub open spec fn relationship_ids(rels: Seq<RelationshipConfig>) -> Seq<Seq<char>> {
    rels.map_values(|r: RelationshipConfig| r.id@)
}

pub open spec fn source_names<D>(sources: Seq<(String, D)>) -> Seq<Seq<char>> {
    sources.map_values(|p: (String, D)| p.0@)
}

/// Finds a section by id.
pub fn find_section(sections: &Vec<SectionConfig>, id: &str) -> (r: Option<usize>)
    ensures
        match r {
            Some(i) => first_key(section_ids(sections@), id@) == Some(i as int) && i < sections@.len(),
            None => first_key(section_ids(sections@), id@) is None,
        },
{
    let ghost keys = section_ids(sections@);
    let mut i: usize = 0;
    while i < sections.len()
        invariant
            i <= sections@.len(),
            keys == section_ids(sections@),
            forall|j: int| 0 <= j < i ==> keys[j] != id@,
        decreases sections.len() - i,
    {
        if str_eq(sections[i].id.as_str(), id) {
            proof { lemma_first_key(keys, id@, i as int); }
            return Some(i);
        }
        i = i + 1;
    }
    None
}

fn find_relationship(rels: &Vec<RelationshipConfig>, id: &str) -> (r: Option<usize>)
    ensures
        match r {
            Some(i) => first_key(relationship_ids(rels@), id@) == Some(i as int) && i < rels@.len(),
            None => first_key(relationship_ids(rels@), id@) is None,
        },
{
    let ghost keys = relationship_ids(rels@);
    let mut i: usize = 0;
    while i < rels.len()
        invariant
            i <= rels@.len(),
            keys == relationship_ids(rels@),
            forall|j: int| 0 <= j < i ==> keys[j] != id@,
        decreases rels.len() - i,
    {
        if str_eq(rels[i].id.as_str(), id) {
            proof { lemma_first_key(keys, id@, i as int); }
            return Some(i);
        }
        i = i + 1;
    }
    None
}

/// Finds a data source by name.
pub fn find_source_index<D>(sources: &Vec<(String, D)>, name: &str) -> (r: Option<usize>)
    ensures
        match r {
            Some(i) => first_key(source_names(sources@), name@) == Some(i as int) && i < sources@.len(),
            None => first_key(source_names(sources@), name@) is None,
        },
{
    let ghost keys = source_names(sources@);
    let mut i: usize = 0;
    while i < sources.len()
        invariant
            i <= sources@.len(),
            keys == source_names(sources@),
            forall|j: int| 0 <= j < i ==> keys[j] != name@,
        decreases sources.len() - i,
    {
        if str_eq(sources[i].0.as_str(), name) {
            proof { lemma_first_key(keys, name@, i as int); }
            return Some(i);
        }
        i = i + 1;
    }
    None
}

/// The data source that serves a section: the one named by the section's
/// first action.
pub open spec fn resolve_source(
    bo: BackofficeConfig,
    section: Seq<char>,
    names: Seq<Seq<char>>,
) -> Result<int, (IntegrityErrorKind, Seq<char>)> {
    match first_key(section_ids(bo.sections@), section) {
        None => Err((IntegrityErrorKind::SectionNotFound, section)),
        Some(si) => {
            let s = bo.sections@[si];
            if s.actions@.len() == 0 {
                Err((IntegrityErrorKind::NoActions, section))
            } else {
                let ds = s.actions@[0].data_source@;
                match first_key(names, ds) {
                    None => Err((IntegrityErrorKind::DataSourceNotFound, ds)),
                    Some(k) => Ok(k),
                }
            }
        },
    }
}

fn resolve<D>(bo: &BackofficeConfig, section: &str, sources: &Vec<(String, D)>) -> (r: Result<usize, IntegrityError>)
    ensures
        match r {
            Ok(k) => resolve_source(*bo, section@, source_names(sources@)) == Ok::<int, (IntegrityErrorKind, Seq<char>)>(k as int)
                && k < sources@.len(),
            Err(e) => resolve_source(*bo, section@, source_names(sources@)) == Err::<int, (IntegrityErrorKind, Seq<char>)>(integrity_view(e)),
        },
{
    let si = match find_section(&bo.sections, section) {
        Some(si) => si,
        None => {
            return Err(IntegrityError { kind: IntegrityErrorKind::SectionNotFound, subject: String::from_str(section) });
        },
    };
    let s = &bo.sections[si];
    if s.actions.len() == 0 {
        return Err(IntegrityError { kind: IntegrityErrorKind::NoActions, subject: String::from_str(section) });
    }
    let ds = &s.actions[0].data_source;
    match find_source_index(sources, ds.as_str()) {
        Some(k) => Ok(k),
        None => Err(IntegrityError { kind: IntegrityErrorKind::DataSourceNotFound, subject: ds.clone() }),
    }
}


/// The key a foreign-key lookup searches for: the text of a string value,
/// empty for other values.
pub open spec fn key_text(v: Value) -> Seq<char> {
    match v {
        Value::String(s) => s@,
        _ => Seq::empty(),
    }
}

/// How a foreign-key value is shown in a message.
pub open spec fn key_shown(v: Value) -> Seq<char> {
    match v {
        Value::String(s) => s@,
        _ => "(non-string)"@,
    }
}

/// The read that asks whether `to_section` holds a record whose `to_field`
/// is `key`.
pub open spec fn lookup_query(to_field: Seq<char>, to_section: Seq<char>, key: Seq<char>) -> Seq<char> {
    "SELECT "@ + to_field + " FROM "@ + to_section + " WHERE "@ + to_field + " = '"@ + key + "'"@
}

pub open spec fn missing_message(rel: RelationshipConfig, shown: Seq<char>) -> Seq<char> {
    "Referenced "@ + rel.to_section@ + " with "@ + rel.to_field@ + " = "@ + shown + " does not exist"@
}

/// What a backend answered one read: the records, or its error message.
pub type Answer = Result<Seq<Record>, Seq<char>>;

/// A read the engine made: the position of the source among the sources,
/// and the query.
pub type Lookup = (int, Seq<char>);

/// The answers a run got agree with `ext` on every read made so far.
pub open spec fn extends(ext: Seq<Answer>, seen: Seq<Answer>) -> bool {
    seen.len() <= ext.len() && forall|i: int| 0 <= i < seen.len() ==> ext[i] == seen[i]
}

proof fn lemma_extends_push(ext: Seq<Answer>, seen: Seq<Answer>, a: Answer)
    requires
        extends(ext, seen.push(a)),
    ensures
        extends(ext, seen),
        ext[seen.len() as int] == a,
{
    assert(seen.push(a)[seen.len() as int] == a);
    assert forall|i: int| 0 <= i < seen.len() implies ext[i] == seen[i] by {
        assert(seen.push(a)[i] == seen[i]);
    }
}

/// The read a foreign-key check of one relationship makes, as (source,
/// query, how the key is shown): only for a one-to-one or many-to-one
/// relationship from `section` whose field the record fills with a value
/// other than null.
pub open spec fn fk_lookup<D>(
    rel: RelationshipConfig,
    data: Record,
    section: Seq<char>,
    bo: BackofficeConfig,
    sources: Seq<(String, D)>,
) -> Result<Option<(int, Seq<char>, Seq<char>)>, (IntegrityErrorKind, Seq<char>)> {
    if rel.from_section@ != section {
        Ok(None)
    } else {
        match data.get_spec(rel.from_field@) {
            None => Ok(None),
            Some(Value::Null) => Ok(None),
            Some(v) => match resolve_source(bo, rel.to_section@, source_names(sources)) {
                Err(e) => Err(e),
                Ok(k) => match rel.relationship_type {
                    RelationshipType::OneToMany => Ok(None),
                    RelationshipType::ManyToMany { .. } => Ok(None),
                    _ => Ok(Some((k, lookup_query(rel.to_field@, rel.to_section@, key_text(v)), key_shown(v)))),
                },
            },
        }
    }
}

/// The error a foreign-key read gives: one when the source finds no row or
/// fails, none when it finds a row.
pub open spec fn fk_error_for(rel: RelationshipConfig, shown: Seq<char>, a: Answer) -> Option<(Seq<char>, Seq<char>, Seq<char>)> {
    match a {
        Ok(rows) => if rows.len() == 0 {
            Some((rel.id@, rel.from_field@, missing_message(rel, shown)))
        } else {
            None
        },
        Err(m) => Some((rel.id@, rel.from_field@, "Failed to validate relationship: "@ + m)),
    }
}

/// What a read's outcome says, as an answer: the records, or the
/// backend's message.
pub open spec fn answer_of(outcome: Result<Vec<Record>, DataSourceError>) -> Answer {
    match outcome {
        Ok(rows) => Ok(rows@),
        Err(e) => Err(e.message@),
    }
}

pub open spec fn opt_error_view(r: Option<RelationshipError>) -> Option<(Seq<char>, Seq<char>, Seq<char>)> {
    match r {
        Some(e) => Some(relationship_error_view(e)),
        None => None,
    }
}

/// The error a foreign-key lookup of `rel` gives for what its source
/// returned: one when no row was found or the read failed, none when a row
/// was found.
pub fn fk_outcome_error(
    rel: &RelationshipConfig,
    shown: &str,
    outcome: &Result<Vec<Record>, DataSourceError>,
) -> (r: Option<RelationshipError>)
    ensures
        opt_error_view(r) == fk_error_for(*rel, shown@, answer_of(*outcome)),
{
    match outcome {
        Ok(rows) => {
            if rows.len() == 0 {
                Some(RelationshipError {
                    relationship_id: rel.id.clone(),
                    field: rel.from_field.clone(),
                    message: missing_message_exec(rel, shown),
                })
            } else {
                None
            }
        },
        Err(err) => Some(RelationshipError {
            relationship_id: rel.id.clone(),
            field: rel.from_field.clone(),
            message: String::from_str("Failed to validate relationship: ").concat(err.message.as_str()),
        }),
    }
}

/// A foreign-key check over a list of relationships, in order, given the
/// answers to its reads in the order they are made: the errors, and the
/// reads made. The first configuration error stops the check.
pub open spec fn fk_run<D>(
    rels: Seq<RelationshipConfig>,
    data: Record,
    section: Seq<char>,
    bo: BackofficeConfig,
    sources: Seq<(String, D)>,
    ans: Seq<Answer>,
) -> Result<(Seq<(Seq<char>, Seq<char>, Seq<char>)>, Seq<Lookup>), (IntegrityErrorKind, Seq<char>)>
    decreases rels.len(),
{
    if rels.len() == 0 {
        Ok((seq![], seq![]))
    } else {
        match fk_run(rels.drop_last(), data, section, bo, sources, ans) {
            Err(e) => Err(e),
            Ok((errs, asked)) => match fk_lookup(rels.last(), data, section, bo, sources) {
                Err(e) => Err(e),
                Ok(None) => Ok((errs, asked)),
                Ok(Some((k, q, shown))) => {
                    let asked2 = asked.push((k, q));
                    match fk_error_for(rels.last(), shown, ans[asked.len() as int]) {
                        Some(x) => Ok((errs.push(x), asked2)),
                        None => Ok((errs, asked2)),
                    }
                },
            },
        }
    }
}

proof fn lemma_fk_run_stays<D>(
    rels: Seq<RelationshipConfig>,
    k: int,
    data: Record,
    section: Seq<char>,
    bo: BackofficeConfig,
    sources: Seq<(String, D)>,
    ans: Seq<Answer>,
)
    requires
        0 <= k <= rels.len(),
        fk_run(rels.subrange(0, k), data, section, bo, sources, ans) is Err,
    ensures
        fk_run(rels, data, section, bo, sources, ans) == fk_run(rels.subrange(0, k), data, section, bo, sources, ans),
    decreases rels.len() - k,
{
    if k < rels.len() {
        assert(rels.subrange(0, k + 1).drop_last() =~= rels.subrange(0, k));
        lemma_fk_run_stays(rels, k + 1, data, section, bo, sources, ans);
    } else {
        assert(rels.subrange(0, k) =~= rels);
    }
}

fn lookup_query_exec(to_field: &String, to_section: &String, key: &str) -> (r: String)
    ensures
        r@ == lookup_query(to_field@, to_section@, key@),
{
    String::from_str("SELECT ").concat(to_field.as_str()).concat(" FROM ").concat(to_section.as_str()).concat(
        " WHERE ",
    ).concat(to_field.as_str()).concat(" = '").concat(key).concat("'")
}

fn missing_message_exec(rel: &RelationshipConfig, shown: &str) -> (r: String)
    ensures
        r@ == missing_message(*rel, shown@),
{
    String::from_str("Referenced ").concat(rel.to_section.as_str()).concat(" with ").concat(
        rel.to_field.as_str(),
    ).concat(" = ").concat(shown).concat(" does not exist")
}

proof fn lemma_views_push(es: Seq<RelationshipError>, e: RelationshipError)
    ensures
        relationship_error_views(es.push(e)) == relationship_error_views(es).push(relationship_error_view(e)),
{
    assert(relationship_error_views(es.push(e)) =~= relationship_error_views(es).push(relationship_error_view(e)));
}

/// Checks that every reference a record makes from `section_id` points at a
/// record that exists. A lookup that fails is reported as an error of its
/// relationship, as an empty answer is. The outcome is the check's result
/// for the answers the sources gave; what each answer makes of its
/// relationship is `fk_outcome_error`.
pub fn validate_foreign_keys<D: DataSource>(
    data: &Record,
    section_id: &str,
    backoffice: &BackofficeConfig,
    data_sources: &Vec<(String, D)>,
) -> (r: Result<Vec<RelationshipError>, IntegrityError>)
    ensures
        exists|ans: Seq<Answer>|
            match #[trigger] fk_run(backoffice.relationships@, *data, section_id@, *backoffice, data_sources@, ans) {
                Ok(run) => r matches Ok(errors) && relationship_error_views(errors@) == run.0 && run.1.len() == ans.len(),
                Err(x) => r matches Err(e) && integrity_view(e) == x,
            },
{
    let rels = &backoffice.relationships;
    let mut errors: Vec<RelationshipError> = Vec::new();
    let ghost mut seen: Seq<Answer> = Seq::empty();
    let ghost mut asked: Seq<Lookup> = Seq::empty();
    let mut i: usize = 0;
    assert(relationship_error_views(errors@) =~= seq![]);
    assert(rels@.subrange(0, 0) =~= Seq::<RelationshipConfig>::empty());
    while i < rels.len()
        invariant
            i <= rels@.len(),
            rels == backoffice.relationships,
            asked.len() == seen.len(),
            forall|ext: Seq<Answer>| extends(ext, seen) ==> #[trigger] fk_run(rels@.subrange(0, i as int), *data, section_id@, *backoffice, data_sources@, ext)
                == Ok::<_, (IntegrityErrorKind, Seq<char>)>((relationship_error_views(errors@), asked)),
        decreases rels.len() - i,
    {
        let rel = &rels[i];
        assert(rels@.subrange(0, i + 1).drop_last() =~= rels@.subrange(0, i as int));
        let ghost seen0 = seen;
        let ghost asked0 = asked;
        let ghost views0 = relationship_error_views(errors@);
        let ghost mut queried = false;
        if str_eq(rel.from_section.as_str(), section_id) {
            match data.get(rel.from_field.as_str()) {
                None => {},
                Some(Value::Null) => {},
                Some(v) => {
                    let k = match resolve(backoffice, rel.to_section.as_str(), data_sources) {
                        Ok(k) => k,
                        Err(e) => {
                            proof {
                                assert(extends(seen, seen));
                                assert(fk_run(rels@.subrange(0, i as int), *data, section_id@, *backoffice, data_sources@, seen)
                                    == Ok::<_, (IntegrityErrorKind, Seq<char>)>((views0, asked0)));
                                lemma_fk_run_stays(rels@, i + 1, *data, section_id@, *backoffice, data_sources@, seen);
                                assert(fk_run(backoffice.relationships@, *data, section_id@, *backoffice, data_sources@, seen)
                                    == Err::<(Seq<(Seq<char>, Seq<char>, Seq<char>)>, Seq<Lookup>), _>(integrity_view(e)));
                            }
                            return Err(e);
                        },
                    };
                    let check = match rel.relationship_type {
                        RelationshipType::OneToMany => false,
                        RelationshipType::ManyToMany { .. } => false,
                        _ => true,
                    };
                    if check {
                        let key: &str = match v {
                            Value::String(s) => s.as_str(),
                            _ => "",
                        };
                        let shown: &str = match v {
                            Value::String(s) => s.as_str(),
                            _ => "(non-string)",
                        };
                        proof {
                            reveal_strlit("");
                            assert(key@ == key_text(*v));
                            assert(shown@ == key_shown(*v));
                        }
                        let query = lookup_query_exec(&rel.to_field, &rel.to_section, key);
                        let outcome = data_sources[k].1.execute_query(query.as_str(), None);
                        let ghost a: Answer = answer_of(outcome);
                        match fk_outcome_error(rel, shown, &outcome) {
                            Some(e) => {
                                proof { lemma_views_push(errors@, e); }
                                errors.push(e);
                            },
                            None => {},
                        }
                        proof {
                            queried = true;
                            seen = seen0.push(a);
                            asked = asked0.push((k as int, query@));
                            assert forall|ext: Seq<Answer>| extends(ext, seen) implies #[trigger] fk_run(
                                rels@.subrange(0, i + 1),
                                *data,
                                section_id@,
                                *backoffice,
                                data_sources@,
                                ext,
                            ) == Ok::<_, (IntegrityErrorKind, Seq<char>)>((relationship_error_views(errors@), asked)) by {
                                lemma_extends_push(ext, seen0, a);
                                assert(fk_run(rels@.subrange(0, i as int), *data, section_id@, *backoffice, data_sources@, ext)
                                    == Ok::<_, (IntegrityErrorKind, Seq<char>)>((views0, asked0)));
                            }
                        }
                    }
                },
            }
        }
        proof {
            if !queried {
                assert forall|ext: Seq<Answer>| extends(ext, seen) implies #[trigger] fk_run(
                    rels@.subrange(0, i + 1),
                    *data,
                    section_id@,
                    *backoffice,
                    data_sources@,
                    ext,
                ) == Ok::<_, (IntegrityErrorKind, Seq<char>)>((relationship_error_views(errors@), asked)) by {
                    assert(fk_run(rels@.subrange(0, i as int), *data, section_id@, *backoffice, data_sources@, ext)
                        == Ok::<_, (IntegrityErrorKind, Seq<char>)>((views0, asked0)));
                }
            }
        }
        i = i + 1;
    }
    assert(rels@.subrange(0, rels@.len() as int) =~= rels@);
    assert(extends(seen, seen));
    assert(fk_run(backoffice.relationships@, *data, section_id@, *backoffice, data_sources@, seen)
        == Ok::<_, (IntegrityErrorKind, Seq<char>)>((relationship_error_views(errors@), asked)));
    Ok(errors)
}

proof fn lemma_extends_trans(ext: Seq<Answer>, mid: Seq<Answer>, seen: Seq<Answer>)
    requires
        extends(ext, mid),
        extends(mid, seen),
    ensures
        extends(ext, seen),
{
    assert forall|i: int| 0 <= i < seen.len() implies ext[i] == seen[i] by {
        assert(ext[i] == mid[i]);
    }
}

/// A check's state: the errors found, and the reads made so far.
pub type CheckState = (Seq<(Seq<char>, Seq<char>, Seq<char>)>, Seq<Lookup>);

/// The read one element of a many-to-many array needs, as (source, query,
/// id): only string elements are looked up.
pub open spec fn m2m_element_lookup<D>(
    rel: RelationshipConfig,
    element: Value,
    bo: BackofficeConfig,
    sources: Seq<(String, D)>,
) -> Result<Option<(int, Seq<char>, Seq<char>)>, (IntegrityErrorKind, Seq<char>)> {
    match element {
        Value::String(id) => match resolve_source(bo, rel.to_section@, source_names(sources)) {
            Err(e) => Err(e),
            Ok(k) => Ok(Some((k, lookup_query(rel.to_field@, rel.to_section@, id@), id@))),
        },
        _ => Ok(None),
    }
}

/// The error one element's read gives: one when the source finds no row or
/// the read fails, none when a row is found.
pub open spec fn m2m_error_for(rel: RelationshipConfig, id: Seq<char>, a: Answer) -> Option<(Seq<char>, Seq<char>, Seq<char>)> {
    match a {
        Ok(rows) => if rows.len() == 0 {
            Some((rel.id@, rel.from_field@, missing_message(rel, id)))
        } else {
            None
        },
        Err(m) => Some((rel.id@, rel.from_field@, "Failed to validate relationship: "@ + m)),
    }
}

/// The error the lookup of one many-to-many id gives for what its source
/// returned.
pub fn m2m_outcome_error(
    rel: &RelationshipConfig,
    id: &str,
    outcome: &Result<Vec<Record>, DataSourceError>,
) -> (r: Option<RelationshipError>)
    ensures
        opt_error_view(r) == m2m_error_for(*rel, id@, answer_of(*outcome)),
{
    fk_outcome_error(rel, id, outcome)
}

/// The check of the first `j` elements of a many-to-many array.
pub open spec fn m2m_elements<D>(
    rel: RelationshipConfig,
    ids: Seq<Value>,
    j: int,
    bo: BackofficeConfig,
    sources: Seq<(String, D)>,
    ans: Seq<Answer>,
    st: CheckState,
) -> Result<CheckState, (IntegrityErrorKind, Seq<char>)>
    decreases j,
{
    if j <= 0 || j > ids.len() {
        Ok(st)
    } else {
        match m2m_elements(rel, ids, j - 1, bo, sources, ans, st) {
            Err(e) => Err(e),
            Ok(s1) => match m2m_element_lookup(rel, ids[j - 1], bo, sources) {
                Err(e) => Err(e),
                Ok(None) => Ok(s1),
                Ok(Some((k, q, id))) => {
                    let asked2 = s1.1.push((k, q));
                    match m2m_error_for(rel, id, ans[s1.1.len() as int]) {
                        Some(x) => Ok((s1.0.push(x), asked2)),
                        None => Ok((s1.0, asked2)),
                    }
                },
            },
        }
    }
}

/// What one relationship adds to a many-to-many check: for a many-to-many
/// relationship from `section` whose field holds an array, the checks of its
/// elements.
pub open spec fn m2m_step<D>(
    rel: RelationshipConfig,
    data: Record,
    section: Seq<char>,
    bo: BackofficeConfig,
    sources: Seq<(String, D)>,
    ans: Seq<Answer>,
    st: CheckState,
) -> Result<CheckState, (IntegrityErrorKind, Seq<char>)> {
    if rel.from_section@ == section && rel.relationship_type is ManyToMany {
        match data.get_spec(rel.from_field@) {
            Some(Value::Array(ids)) => m2m_elements(rel, ids@, ids@.len() as int, bo, sources, ans, st),
            _ => Ok(st),
        }
    } else {
        Ok(st)
    }
}

/// A many-to-many check over a list of relationships, given the answers to
/// its reads in the order they are made.
pub open spec fn m2m_run<D>(
    rels: Seq<RelationshipConfig>,
    data: Record,
    section: Seq<char>,
    bo: BackofficeConfig,
    sources: Seq<(String, D)>,
    ans: Seq<Answer>,
) -> Result<CheckState, (IntegrityErrorKind, Seq<char>)>
    decreases rels.len(),
{
    if rels.len() == 0 {
        Ok((seq![], seq![]))
    } else {
        match m2m_run(rels.drop_last(), data, section, bo, sources, ans) {
            Err(e) => Err(e),
            Ok(s1) => m2m_step(rels.last(), data, section, bo, sources, ans, s1),
        }
    }
}

proof fn lemma_m2m_run_stays<D>(
    rels: Seq<RelationshipConfig>,
    k: int,
    data: Record,
    section: Seq<char>,
    bo: BackofficeConfig,
    sources: Seq<(String, D)>,
    ans: Seq<Answer>,
)
    requires
        0 <= k <= rels.len(),
        m2m_run(rels.subrange(0, k), data, section, bo, sources, ans) is Err,
    ensures
        m2m_run(rels, data, section, bo, sources, ans) == m2m_run(rels.subrange(0, k), data, section, bo, sources, ans),
    decreases rels.len() - k,
{
    if k < rels.len() {
        assert(rels.subrange(0, k + 1).drop_last() =~= rels.subrange(0, k));
        lemma_m2m_run_stays(rels, k + 1, data, section, bo, sources, ans);
    } else {
        assert(rels.subrange(0, k) =~= rels);
    }
}

proof fn lemma_m2m_elements_stay<D>(
    rel: RelationshipConfig,
    ids: Seq<Value>,
    j: int,
    k: int,
    bo: BackofficeConfig,
    sources: Seq<(String, D)>,
    ans: Seq<Answer>,
    st: CheckState,
)
    requires
        0 <= j <= k <= ids.len(),
        m2m_elements(rel, ids, j, bo, sources, ans, st) is Err,
    ensures
        m2m_elements(rel, ids, k, bo, sources, ans, st) == m2m_elements(rel, ids, j, bo, sources, ans, st),
    decreases k - j,
{
    if j < k {
        lemma_m2m_elements_stay(rel, ids, j, k - 1, bo, sources, ans, st);
    }
}

fn check_many_to_many_ids<D: DataSource>(
    rel: &RelationshipConfig,
    ids: &Vec<Value>,
    backoffice: &BackofficeConfig,
    data_sources: &Vec<(String, D)>,
    errors: &mut Vec<RelationshipError>,
    Ghost(seen_in): Ghost<Seq<Answer>>,
    Ghost(asked_in): Ghost<Seq<Lookup>>,
) -> (r: (Result<(), IntegrityError>, Ghost<Seq<Answer>>, Ghost<Seq<Lookup>>))
    requires
        asked_in.len() == seen_in.len(),
    ensures
        extends(r.1@, seen_in),
        r.2@.len() == r.1@.len(),
        forall|ext: Seq<Answer>| extends(ext, r.1@) ==> match #[trigger] m2m_elements(
            *rel,
            ids@,
            ids@.len() as int,
            *backoffice,
            data_sources@,
            ext,
            (relationship_error_views(old(errors)@), asked_in),
        ) {
            Ok(st) => r.0 is Ok && st == (relationship_error_views(final(errors)@), r.2@),
            Err(x) => r.0 matches Err(e) && integrity_view(e) == x,
        },
{
    let ghost st0: CheckState = (relationship_error_views(errors@), asked_in);
    let ghost mut seen = seen_in;
    let ghost mut asked = asked_in;
    let mut j: usize = 0;
    proof {
        assert(extends(seen_in, seen_in));
        reveal_with_fuel(m2m_elements, 1);
    }
    while j < ids.len()
        invariant
            j <= ids@.len(),
            asked.len() == seen.len(),
            extends(seen, seen_in),
            st0 == (relationship_error_views(old(errors)@), asked_in),
            forall|ext: Seq<Answer>| extends(ext, seen) ==> #[trigger] m2m_elements(*rel, ids@, j as int, *backoffice, data_sources@, ext, st0)
                == Ok::<CheckState, (IntegrityErrorKind, Seq<char>)>((relationship_error_views(errors@), asked)),
        decreases ids.len() - j,
    {
        let ghost seen0 = seen;
        let ghost asked0 = asked;
        let ghost views0 = relationship_error_views(errors@);
        match &ids[j] {
            Value::String(id) => {
                let k = match resolve(backoffice, rel.to_section.as_str(), data_sources) {
                    Ok(k) => k,
                    Err(e) => {
                        proof {
                            assert forall|ext: Seq<Answer>| extends(ext, seen) implies match #[trigger] m2m_elements(
                                *rel,
                                ids@,
                                ids@.len() as int,
                                *backoffice,
                                data_sources@,
                                ext,
                                st0,
                            ) {
                                Ok(st) => false,
                                Err(x) => integrity_view(e) == x,
                            } by {
                                assert(m2m_elements(*rel, ids@, j as int, *backoffice, data_sources@, ext, st0)
                                    == Ok::<CheckState, (IntegrityErrorKind, Seq<char>)>((views0, asked0)));
                                lemma_m2m_elements_stay(*rel, ids@, j + 1, ids@.len() as int, *backoffice, data_sources@, ext, st0);
                            }
                        }
                        return (Err(e), Ghost(seen), Ghost(asked));
                    },
                };
                let query = lookup_query_exec(&rel.to_field, &rel.to_section, id.as_str());
                let outcome = data_sources[k].1.execute_query(query.as_str(), None);
                let ghost a: Answer = answer_of(outcome);
                match m2m_outcome_error(rel, id.as_str(), &outcome) {
                    Some(e) => {
                        proof { lemma_views_push(errors@, e); }
                        errors.push(e);
                    },
                    None => {},
                }
                proof {
                    seen = seen0.push(a);
                    asked = asked0.push((k as int, query@));
                    assert forall|ext: Seq<Answer>| extends(ext, seen) implies #[trigger] m2m_elements(
                        *rel,
                        ids@,
                        j + 1,
                        *backoffice,
                        data_sources@,
                        ext,
                        st0,
                    ) == Ok::<CheckState, (IntegrityErrorKind, Seq<char>)>((relationship_error_views(errors@), asked)) by {
                        lemma_extends_push(ext, seen0, a);
                        assert(m2m_elements(*rel, ids@, j as int, *backoffice, data_sources@, ext, st0)
                            == Ok::<CheckState, (IntegrityErrorKind, Seq<char>)>((views0, asked0)));
                    }
                    assert(extends(seen, seen_in)) by {
                        assert forall|t: int| 0 <= t < seen_in.len() implies seen[t] == seen_in[t] by {
                            assert(seen[t] == seen0[t]);
                        }
                    }
                }
            },
            _ => {
                proof {
                    assert forall|ext: Seq<Answer>| extends(ext, seen) implies #[trigger] m2m_elements(
                        *rel,
                        ids@,
                        j + 1,
                        *backoffice,
                        data_sources@,
                        ext,
                        st0,
                    ) == Ok::<CheckState, (IntegrityErrorKind, Seq<char>)>((relationship_error_views(errors@), asked)) by {
                        assert(m2m_elements(*rel, ids@, j as int, *backoffice, data_sources@, ext, st0)
                            == Ok::<CheckState, (IntegrityErrorKind, Seq<char>)>((views0, asked0)));
                    }
                }
            },
        }
        j = j + 1;
    }
    (Ok(()), Ghost(seen), Ghost(asked))
}

/// Checks that every id in the array a many-to-many field holds points at a
/// record that exists, element by element, collecting one error per element
/// whose lookup finds no row or fails. The outcome is the check's result for
/// the answers the sources gave; what each answer makes of its element is
/// `m2m_outcome_error`.
pub fn validate_many_to_many<D: DataSource>(
    data: &Record,
    section_id: &str,
    backoffice: &BackofficeConfig,
    data_sources: &Vec<(String, D)>,
) -> (r: Result<Vec<RelationshipError>, IntegrityError>)
    ensures
        exists|ans: Seq<Answer>|
            match #[trigger] m2m_run(backoffice.relationships@, *data, section_id@, *backoffice, data_sources@, ans) {
                Ok(run) => r matches Ok(errors) && relationship_error_views(errors@) == run.0 && run.1.len() == ans.len(),
                Err(x) => r matches Err(e) && integrity_view(e) == x,
            },
{
    let rels = &backoffice.relationships;
    let mut errors: Vec<RelationshipError> = Vec::new();
    let ghost mut seen: Seq<Answer> = Seq::empty();
    let ghost mut asked: Seq<Lookup> = Seq::empty();
    let mut i: usize = 0;
    assert(relationship_error_views(errors@) =~= seq![]);
    assert(rels@.subrange(0, 0) =~= Seq::<RelationshipConfig>::empty());
    while i < rels.len()
        invariant
            i <= rels@.len(),
            rels == backoffice.relationships,
            asked.len() == seen.len(),
            forall|ext: Seq<Answer>| extends(ext, seen) ==> #[trigger] m2m_run(rels@.subrange(0, i as int), *data, section_id@, *backoffice, data_sources@, ext)
                == Ok::<CheckState, (IntegrityErrorKind, Seq<char>)>((relationship_error_views(errors@), asked)),
        decreases rels.len() - i,
    {
        let rel = &rels[i];
        assert(rels@.subrange(0, i + 1).drop_last() =~= rels@.subrange(0, i as int));
        let ghost seen0 = seen;
        let ghost st1: CheckState = (relationship_error_views(errors@), asked);
        let is_m2m = match rel.relationship_type {
            RelationshipType::ManyToMany { .. } => true,
            _ => false,
        };
        let ids_opt: Option<&Vec<Value>> = if is_m2m && str_eq(rel.from_section.as_str(), section_id) {
            match data.get(rel.from_field.as_str()) {
                Some(Value::Array(ids)) => Some(ids),
                _ => None,
            }
        } else {
            None
        };
        match ids_opt {
            None => {
                proof {
                    assert forall|ext: Seq<Answer>| extends(ext, seen) implies #[trigger] m2m_run(
                        rels@.subrange(0, i + 1),
                        *data,
                        section_id@,
                        *backoffice,
                        data_sources@,
                        ext,
                    ) == Ok::<CheckState, (IntegrityErrorKind, Seq<char>)>((relationship_error_views(errors@), asked)) by {
                        assert(m2m_run(rels@.subrange(0, i as int), *data, section_id@, *backoffice, data_sources@, ext)
                            == Ok::<CheckState, (IntegrityErrorKind, Seq<char>)>(st1));
                    }
                }
            },
            Some(ids) => {
                let (res, Ghost(seen1), Ghost(asked1)) = check_many_to_many_ids(
                    rel,
                    ids,
                    backoffice,
                    data_sources,
                    &mut errors,
                    Ghost(seen),
                    Ghost(asked),
                );
                proof {
                    assert forall|ext: Seq<Answer>| extends(ext, seen1) implies #[trigger] m2m_run(
                        rels@.subrange(0, i as int),
                        *data,
                        section_id@,
                        *backoffice,
                        data_sources@,
                        ext,
                    ) == Ok::<CheckState, (IntegrityErrorKind, Seq<char>)>(st1) by {
                        lemma_extends_trans(ext, seen1, seen0);
                    }
                    seen = seen1;
                    asked = asked1;
                }
                match res {
                    Ok(()) => {
                        proof {
                            assert forall|ext: Seq<Answer>| extends(ext, seen) implies #[trigger] m2m_run(
                                rels@.subrange(0, i + 1),
                                *data,
                                section_id@,
                                *backoffice,
                                data_sources@,
                                ext,
                            ) == Ok::<CheckState, (IntegrityErrorKind, Seq<char>)>((relationship_error_views(errors@), asked)) by {
                                assert(m2m_run(rels@.subrange(0, i as int), *data, section_id@, *backoffice, data_sources@, ext)
                                    == Ok::<CheckState, (IntegrityErrorKind, Seq<char>)>(st1));
                            }
                        }
                    },
                    Err(e) => {
                        proof {
                            assert(extends(seen, seen));
                            assert(m2m_run(rels@.subrange(0, i as int), *data, section_id@, *backoffice, data_sources@, seen)
                                == Ok::<CheckState, (IntegrityErrorKind, Seq<char>)>(st1));
                            lemma_m2m_run_stays(rels@, i + 1, *data, section_id@, *backoffice, data_sources@, seen);
                            assert(m2m_run(backoffice.relationships@, *data, section_id@, *backoffice, data_sources@, seen)
                                == Err::<CheckState, _>(integrity_view(e)));
                        }
                        return Err(e);
                    },
                }
            },
        }
        i = i + 1;
    }
    assert(rels@.subrange(0, rels@.len() as int) =~= rels@);
    assert(extends(seen, seen));
    assert(m2m_run(backoffice.relationships@, *data, section_id@, *backoffice, data_sources@, seen)
        == Ok::<CheckState, (IntegrityErrorKind, Seq<char>)>((relationship_error_views(errors@), asked)));
    Ok(errors)
}

/// The deepest chain of dependent records a cascade follows.
pub const MAX_CASCADE_DEPTH: u32 = 64;

/// A planned operation, as (kind, section, record id, relationship id).
pub type OperationView = (CascadeOperationType, Seq<char>, Seq<char>, Seq<char>);

/// The state of a cascade walk: the operations planned so far, the
/// (section, record id) pairs already reached, and the reads made.
pub type PlanState = (Seq<OperationView>, Seq<(Seq<char>, Seq<char>)>, Seq<Lookup>);

pub open spec fn op_view(o: CascadeOperation) -> OperationView {
    (o.operation_type, o.section@, o.record_id@, o.relationship_id@)
}

pub open spec fn op_views(ops: Seq<CascadeOperation>) -> Seq<OperationView> {
    ops.map_values(|o: CascadeOperation| op_view(o))
}

pub open spec fn visited_view(visited: Seq<(String, String)>) -> Seq<(Seq<char>, Seq<char>)> {
    visited.map_values(|p: (String, String)| (p.0@, p.1@))
}

pub open spec fn plan_state(ops: Seq<CascadeOperation>, visited: Seq<(String, String)>, asked: Seq<Lookup>) -> PlanState {
    (op_views(ops), visited_view(visited), asked)
}

/// The read that finds the records of the relationship's source section
/// whose foreign key is `record_id`.
pub open spec fn dependents_query(rel: RelationshipConfig, record_id: Seq<char>) -> Seq<char> {
    "SELECT * FROM "@ + rel.from_section@ + " WHERE "@ + rel.from_field@ + " = '"@ + record_id + "'"@
}

/// The id of a dependent record, from its "id" field: a string, or a number
/// in decimal. A record without such an id is passed over.
pub open spec fn id_text(v: Option<Value>) -> Option<Seq<char>> {
    match v {
        Some(Value::String(s)) => Some(s@),
        Some(Value::Number(n)) => Some(signed_decimal(n as int)),
        _ => None,
    }
}

/// The id of a record that depends on a deleted one.
pub open spec fn dependent_id(r: Record) -> Option<Seq<char>> {
    id_text(r.get_spec("id"@))
}

/// The walk from one record: its section's incoming cascading relationships,
/// in their order. `ans` holds the answers to the walk's reads, in the order
/// they are made.
#[verifier::opaque]
pub open spec fn plan_node<D>(
    record_id: Seq<char>,
    section: Seq<char>,
    bo: BackofficeConfig,
    sources: Seq<(String, D)>,
    ans: Seq<Answer>,
    st: PlanState,
    fuel: nat,
) -> Result<PlanState, (IntegrityErrorKind, Seq<char>)>
    decreases fuel, 2int, 0int,
{
    plan_rels(record_id, section, bo, sources, ans, st, bo.relationships@.len() as int, fuel)
}

/// The walk over the first `k` relationships.
#[verifier::opaque]
pub open spec fn plan_rels<D>(
    record_id: Seq<char>,
    section: Seq<char>,
    bo: BackofficeConfig,
    sources: Seq<(String, D)>,
    ans: Seq<Answer>,
    st: PlanState,
    k: int,
    fuel: nat,
) -> Result<PlanState, (IntegrityErrorKind, Seq<char>)>
    decreases fuel, 1int, k,
{
    if k <= 0 || k > bo.relationships@.len() {
        Ok(st)
    } else {
        match plan_rels(record_id, section, bo, sources, ans, st, k - 1, fuel) {
            Err(e) => Err(e),
            Ok(s1) => plan_rel(bo.relationships@[k - 1], record_id, section, bo, sources, ans, s1, fuel),
        }
    }
}

/// What one relationship adds to the walk from a record of `section`: only a
/// cascading relationship into `section` adds anything. A many-to-one
/// relationship never cascades; a many-to-many one removes the record's
/// junction rows; the others read the dependent records, delete each and
/// walk on from it. A failed read stops the walk with the backend's error.
#[verifier::opaque]
pub open spec fn plan_rel<D>(
    rel: RelationshipConfig,
    record_id: Seq<char>,
    section: Seq<char>,
    bo: BackofficeConfig,
    sources: Seq<(String, D)>,
    ans: Seq<Answer>,
    st: PlanState,
    fuel: nat,
) -> Result<PlanState, (IntegrityErrorKind, Seq<char>)>
    decreases fuel, 1int, 0int,
{
    if !(rel.to_section@ == section && rel.cascade_delete) {
        Ok(st)
    } else {
        match rel.relationship_type {
            RelationshipType::ManyToOne => Ok(st),
            RelationshipType::ManyToMany { junction_table, .. } => Ok(
                (st.0.push((CascadeOperationType::DeleteJunction, junction_table@, record_id, rel.id@)), st.1, st.2),
            ),
            _ => match resolve_source(bo, rel.from_section@, source_names(sources)) {
                Err(e) => Err(e),
                Ok(k) => {
                    let st1 = (st.0, st.1, st.2.push((k, dependents_query(rel, record_id))));
                    match ans[st.2.len() as int] {
                        Err(m) => Err((IntegrityErrorKind::Backend, m)),
                        Ok(rows) => plan_rows(rel, rows, rows.len() as int, bo, sources, ans, st1, fuel),
                    }
                },
            },
        }
    }
}

/// The walk over the first `j` dependent records of a relationship. A
/// record already reached adds nothing; a chain deeper than the fuel fails.
#[verifier::opaque]
pub open spec fn plan_rows<D>(
    rel: RelationshipConfig,
    rows: Seq<Record>,
    j: int,
    bo: BackofficeConfig,
    sources: Seq<(String, D)>,
    ans: Seq<Answer>,
    st: PlanState,
    fuel: nat,
) -> Result<PlanState, (IntegrityErrorKind, Seq<char>)>
    decreases fuel, 0int, j,
{
    if j <= 0 || j > rows.len() {
        Ok(st)
    } else {
        match plan_rows(rel, rows, j - 1, bo, sources, ans, st, fuel) {
            Err(e) => Err(e),
            Ok(s1) => match dependent_id(rows[j - 1]) {
                None => Ok(s1),
                Some(id) => if s1.1.contains((rel.from_section@, id)) {
                    Ok(s1)
                } else if fuel == 0 {
                    Err((IntegrityErrorKind::CascadeTooDeep, id))
                } else {
                    plan_node(
                        id,
                        rel.from_section@,
                        bo,
                        sources,
                        ans,
                        (
                            s1.0.push((CascadeOperationType::Delete, rel.from_section@, id, rel.id@)),
                            s1.1.push((rel.from_section@, id)),
                            s1.2,
                        ),
                        (fuel - 1) as nat,
                    )
                },
            },
        }
    }
}

/// The operations that deleting `record_id` of `section` entails, in the
/// order a depth-first walk finds them, with the reads the walk makes; `ans`
/// holds the answers to those reads, in order.
pub open spec fn cascade_plan<D>(
    record_id: Seq<char>,
    section: Seq<char>,
    bo: BackofficeConfig,
    sources: Seq<(String, D)>,
    ans: Seq<Answer>,
) -> Result<(Seq<OperationView>, Seq<Lookup>), (IntegrityErrorKind, Seq<char>)> {
    match plan_node(record_id, section, bo, sources, ans, (seq![], seq![(section, record_id)], seq![]), MAX_CASCADE_DEPTH as nat) {
        Ok(st) => Ok((st.0, st.2)),
        Err(e) => Err(e),
    }
}

proof fn lemma_node_unfold<D>(
    record_id: Seq<char>,
    section: Seq<char>,
    bo: BackofficeConfig,
    sources: Seq<(String, D)>,
    ans: Seq<Answer>,
    st: PlanState,
    fuel: nat,
)
    ensures
        plan_node(record_id, section, bo, sources, ans, st, fuel)
            == plan_rels(record_id, section, bo, sources, ans, st, bo.relationships@.len() as int, fuel),
        plan_rels(record_id, section, bo, sources, ans, st, 0, fuel) == Ok::<PlanState, (IntegrityErrorKind, Seq<char>)>(st),
{
    reveal_with_fuel(plan_node, 1);
    reveal_with_fuel(plan_rels, 1);
}

proof fn lemma_rels_step<D>(
    record_id: Seq<char>,
    section: Seq<char>,
    bo: BackofficeConfig,
    sources: Seq<(String, D)>,
    ans: Seq<Answer>,
    st: PlanState,
    k: int,
    fuel: nat,
)
    requires
        0 <= k < bo.relationships@.len(),
    ensures
        plan_rels(record_id, section, bo, sources, ans, st, k + 1, fuel) == match plan_rels(record_id, section, bo, sources, ans, st, k, fuel) {
            Err(e) => Err(e),
            Ok(s1) => plan_rel(bo.relationships@[k], record_id, section, bo, sources, ans, s1, fuel),
        },
{
    reveal_with_fuel(plan_rels, 1);
    reveal_with_fuel(plan_rel, 1);
}

proof fn lemma_rel_unfold<D>(
    rel: RelationshipConfig,
    record_id: Seq<char>,
    section: Seq<char>,
    bo: BackofficeConfig,
    sources: Seq<(String, D)>,
    ans: Seq<Answer>,
    st: PlanState,
    fuel: nat,
)
    ensures
        !(rel.to_section@ == section && rel.cascade_delete)
            ==> plan_rel(rel, record_id, section, bo, sources, ans, st, fuel) == Ok::<PlanState, (IntegrityErrorKind, Seq<char>)>(st),
        rel.to_section@ == section && rel.cascade_delete && rel.relationship_type is ManyToOne
            ==> plan_rel(rel, record_id, section, bo, sources, ans, st, fuel) == Ok::<PlanState, (IntegrityErrorKind, Seq<char>)>(st),
        rel.to_section@ == section && rel.cascade_delete && rel.relationship_type is ManyToMany
            ==> plan_rel(rel, record_id, section, bo, sources, ans, st, fuel) == Ok::<PlanState, (IntegrityErrorKind, Seq<char>)>(
                (st.0.push((CascadeOperationType::DeleteJunction, rel.relationship_type->junction_table@, record_id, rel.id@)), st.1, st.2),
            ),
        rel.to_section@ == section && rel.cascade_delete && !(rel.relationship_type is ManyToOne)
            && !(rel.relationship_type is ManyToMany) ==> plan_rel(rel, record_id, section, bo, sources, ans, st, fuel)
            == match resolve_source(bo, rel.from_section@, source_names(sources)) {
                Err(e) => Err(e),
                Ok(k) => {
                    let st1 = (st.0, st.1, st.2.push((k, dependents_query(rel, record_id))));
                    match ans[st.2.len() as int] {
                        Err(m) => Err((IntegrityErrorKind::Backend, m)),
                        Ok(rows) => plan_rows(rel, rows, rows.len() as int, bo, sources, ans, st1, fuel),
                    }
                },
            },
{
    reveal_with_fuel(plan_rel, 1);
    reveal_with_fuel(plan_rows, 1);
}

proof fn lemma_rows_zero<D>(
    rel: RelationshipConfig,
    rows: Seq<Record>,
    bo: BackofficeConfig,
    sources: Seq<(String, D)>,
    ans: Seq<Answer>,
    st: PlanState,
    fuel: nat,
)
    ensures
        plan_rows(rel, rows, 0, bo, sources, ans, st, fuel) == Ok::<PlanState, (IntegrityErrorKind, Seq<char>)>(st),
{
    reveal_with_fuel(plan_rows, 1);
}

proof fn lemma_rows_step<D>(
    rel: RelationshipConfig,
    rows: Seq<Record>,
    j: int,
    bo: BackofficeConfig,
    sources: Seq<(String, D)>,
    ans: Seq<Answer>,
    st: PlanState,
    fuel: nat,
    s1: PlanState,
    id: Seq<char>,
)
    requires
        0 <= j < rows.len(),
        plan_rows(rel, rows, j, bo, sources, ans, st, fuel) == Ok::<PlanState, (IntegrityErrorKind, Seq<char>)>(s1),
    ensures
        dependent_id(rows[j]) is None
            ==> plan_rows(rel, rows, j + 1, bo, sources, ans, st, fuel) == Ok::<PlanState, (IntegrityErrorKind, Seq<char>)>(s1),
        dependent_id(rows[j]) == Some(id) && s1.1.contains((rel.from_section@, id))
            ==> plan_rows(rel, rows, j + 1, bo, sources, ans, st, fuel) == Ok::<PlanState, (IntegrityErrorKind, Seq<char>)>(s1),
        dependent_id(rows[j]) == Some(id) && !s1.1.contains((rel.from_section@, id)) && fuel == 0
            ==> plan_rows(rel, rows, j + 1, bo, sources, ans, st, fuel)
                == Err::<PlanState, (IntegrityErrorKind, Seq<char>)>((IntegrityErrorKind::CascadeTooDeep, id)),
        dependent_id(rows[j]) == Some(id) && !s1.1.contains((rel.from_section@, id)) && fuel > 0
            ==> plan_rows(rel, rows, j + 1, bo, sources, ans, st, fuel) == plan_node(
                id,
                rel.from_section@,
                bo,
                sources,
                ans,
                (
                    s1.0.push((CascadeOperationType::Delete, rel.from_section@, id, rel.id@)),
                    s1.1.push((rel.from_section@, id)),
                    s1.2,
                ),
                (fuel - 1) as nat,
            ),
{
    reveal_with_fuel(plan_rows, 1);
    reveal_with_fuel(plan_node, 1);
}

proof fn lemma_plan_rows_stay<D>(
    rel: RelationshipConfig,
    rows: Seq<Record>,
    j: int,
    k: int,
    bo: BackofficeConfig,
    sources: Seq<(String, D)>,
    ans: Seq<Answer>,
    st: PlanState,
    fuel: nat,
)
    requires
        0 <= j <= k <= rows.len(),
        plan_rows(rel, rows, j, bo, sources, ans, st, fuel) is Err,
    ensures
        plan_rows(rel, rows, k, bo, sources, ans, st, fuel) == plan_rows(rel, rows, j, bo, sources, ans, st, fuel),
    decreases k - j,
{
    reveal_with_fuel(plan_rows, 1);
    if j < k {
        lemma_plan_rows_stay(rel, rows, j, k - 1, bo, sources, ans, st, fuel);
    }
}

proof fn lemma_plan_rels_stay<D>(
    record_id: Seq<char>,
    section: Seq<char>,
    bo: BackofficeConfig,
    sources: Seq<(String, D)>,
    ans: Seq<Answer>,
    st: PlanState,
    j: int,
    k: int,
    fuel: nat,
)
    requires
        0 <= j <= k <= bo.relationships@.len(),
        plan_rels(record_id, section, bo, sources, ans, st, j, fuel) is Err,
    ensures
        plan_rels(record_id, section, bo, sources, ans, st, k, fuel) == plan_rels(record_id, section, bo, sources, ans, st, j, fuel),
    decreases k - j,
{
    reveal_with_fuel(plan_rels, 1);
    if j < k {
        lemma_plan_rels_stay(record_id, section, bo, sources, ans, st, j, k - 1, fuel);
    }
}

fn id_text_exec(v: Option<&Value>) -> (r: Option<String>)
    ensures
        match r {
            Some(s) => id_text(match v { Some(x) => Some(*x), None => None }) == Some(s@),
            None => id_text(match v { Some(x) => Some(*x), None => None }) is None,
        },
{
    match v {
        Some(Value::String(s)) => Some(s.clone()),
        Some(Value::Number(n)) => Some(write_signed_decimal(*n)),
        _ => None,
    }
}

fn was_visited(visited: &Vec<(String, String)>, section: &str, id: &str) -> (r: bool)
    ensures
        r == visited_view(visited@).contains((section@, id@)),
{
    let ghost vs = visited_view(visited@);
    let mut i: usize = 0;
    while i < visited.len()
        invariant
            i <= visited@.len(),
            vs == visited_view(visited@),
            forall|j: int| 0 <= j < i ==> vs[j] != (section@, id@),
        decreases visited.len() - i,
    {
        if str_eq(visited[i].0.as_str(), section) && str_eq(visited[i].1.as_str(), id) {
            assert(vs[i as int] == (section@, id@));
            return true;
        }
        i = i + 1;
    }
    false
}

fn dependents_query_exec(rel: &RelationshipConfig, record_id: &str) -> (r: String)
    ensures
        r@ == dependents_query(*rel, record_id@),
{
    String::from_str("SELECT * FROM ").concat(rel.from_section.as_str()).concat(" WHERE ").concat(
        rel.from_field.as_str(),
    ).concat(" = '").concat(record_id).concat("'")
}

proof fn lemma_op_push(ops: Seq<CascadeOperation>, o: CascadeOperation)
    ensures
        op_views(ops.push(o)) == op_views(ops).push(op_view(o)),
{
    assert(op_views(ops.push(o)) =~= op_views(ops).push(op_view(o)));
}

proof fn lemma_visit_push(visited: Seq<(String, String)>, p: (String, String))
    ensures
        visited_view(visited.push(p)) == visited_view(visited).push((p.0@, p.1@)),
{
    assert(visited_view(visited.push(p)) =~= visited_view(visited).push((p.0@, p.1@)));
}

/// What a read of dependent records hands the walk: the records, or the
/// backend's failure, which stops the walk.
pub fn dependents_from(outcome: Result<Vec<Record>, DataSourceError>) -> (r: Result<Vec<Record>, IntegrityError>)
    ensures
        match answer_of(outcome) {
            Ok(rows) => r matches Ok(v) && v@ == rows,
            Err(m) => r matches Err(e) && integrity_view(e) == (IntegrityErrorKind::Backend, m),
        },
{
    match outcome {
        Ok(rows) => Ok(rows),
        Err(err) => Err(IntegrityError { kind: IntegrityErrorKind::Backend, subject: err.message }),
    }
}

/// What the walk does with one dependent record.
#[derive(Debug)]
pub enum CascadeVisit {
    /// The record has no id, or was reached before: nothing to do.
    Pass,
    /// The record would take the walk deeper than it goes.
    TooDeep(String),
    /// Delete the record with this id and walk on from it.
    Descend(String),
}

/// The next step of the walk for a dependent record of `section`, given the
/// records reached so far and the depth left.
pub fn cascade_visit(section: &str, row: &Record, visited: &Vec<(String, String)>, fuel: u32) -> (r: CascadeVisit)
    ensures
        match dependent_id(*row) {
            None => r is Pass,
            Some(id) => if visited_view(visited@).contains((section@, id)) {
                r is Pass
            } else if fuel == 0 {
                r matches CascadeVisit::TooDeep(x) && x@ == id
            } else {
                r matches CascadeVisit::Descend(x) && x@ == id
            },
        },
{
    match id_text_exec(row.get("id")) {
        None => CascadeVisit::Pass,
        Some(id) => {
            if was_visited(visited, section, id.as_str()) {
                CascadeVisit::Pass
            } else if fuel == 0 {
                CascadeVisit::TooDeep(id)
            } else {
                CascadeVisit::Descend(id)
            }
        },
    }
}

fn plan_relationship<D: DataSource>(
    rel: &RelationshipConfig,
    record_id: &str,
    section: &str,
    bo: &BackofficeConfig,
    sources: &Vec<(String, D)>,
    ops: &mut Vec<CascadeOperation>,
    visited: &mut Vec<(String, String)>,
    Ghost(seen_in): Ghost<Seq<Answer>>,
    Ghost(asked_in): Ghost<Seq<Lookup>>,
    fuel: u32,
) -> (r: (Result<(), IntegrityError>, Ghost<Seq<Answer>>, Ghost<Seq<Lookup>>))
    requires
        asked_in.len() == seen_in.len(),
    ensures
        extends(r.1@, seen_in),
        r.2@.len() == r.1@.len(),
        forall|ext: Seq<Answer>| extends(ext, r.1@) ==> match #[trigger] plan_rel(
            *rel,
            record_id@,
            section@,
            *bo,
            sources@,
            ext,
            plan_state(old(ops)@, old(visited)@, asked_in),
            fuel as nat,
        ) {
            Ok(st) => r.0 is Ok && st == plan_state(final(ops)@, final(visited)@, r.2@),
            Err(x) => r.0 matches Err(e) && integrity_view(e) == x,
        },
    decreases fuel, 0int,
{
    let ghost st0 = plan_state(ops@, visited@, asked_in);
    proof {
        assert(extends(seen_in, seen_in));
    }
    if !(str_eq(rel.to_section.as_str(), section) && rel.cascade_delete) {
        proof {
            assert forall|ext: Seq<Answer>| extends(ext, seen_in) implies #[trigger] plan_rel(*rel, record_id@, section@, *bo, sources@, ext, st0, fuel as nat)
                == Ok::<PlanState, (IntegrityErrorKind, Seq<char>)>(st0) by {
                lemma_rel_unfold(*rel, record_id@, section@, *bo, sources@, ext, st0, fuel as nat);
            }
        }
        return (Ok(()), Ghost(seen_in), Ghost(asked_in));
    }
    match &rel.relationship_type {
        RelationshipType::ManyToOne => {
            proof {
                assert forall|ext: Seq<Answer>| extends(ext, seen_in) implies #[trigger] plan_rel(*rel, record_id@, section@, *bo, sources@, ext, st0, fuel as nat)
                    == Ok::<PlanState, (IntegrityErrorKind, Seq<char>)>(st0) by {
                    lemma_rel_unfold(*rel, record_id@, section@, *bo, sources@, ext, st0, fuel as nat);
                }
            }
            (Ok(()), Ghost(seen_in), Ghost(asked_in))
        },
        RelationshipType::ManyToMany { junction_table, .. } => {
            let o = CascadeOperation {
                operation_type: CascadeOperationType::DeleteJunction,
                section: junction_table.clone(),
                record_id: String::from_str(record_id),
                relationship_id: rel.id.clone(),
            };
            proof { lemma_op_push(ops@, o); }
            ops.push(o);
            proof {
                assert forall|ext: Seq<Answer>| extends(ext, seen_in) implies #[trigger] plan_rel(*rel, record_id@, section@, *bo, sources@, ext, st0, fuel as nat)
                    == Ok::<PlanState, (IntegrityErrorKind, Seq<char>)>(plan_state(ops@, visited@, asked_in)) by {
                    lemma_rel_unfold(*rel, record_id@, section@, *bo, sources@, ext, st0, fuel as nat);
                }
            }
            (Ok(()), Ghost(seen_in), Ghost(asked_in))
        },
        _ => {
            let k = match resolve(bo, rel.from_section.as_str(), sources) {
                Ok(k) => k,
                Err(e) => {
                    proof {
                        assert forall|ext: Seq<Answer>| extends(ext, seen_in) implies match #[trigger] plan_rel(*rel, record_id@, section@, *bo, sources@, ext, st0, fuel as nat) {
                            Ok(st) => false,
                            Err(x) => integrity_view(e) == x,
                        } by {
                            lemma_rel_unfold(*rel, record_id@, section@, *bo, sources@, ext, st0, fuel as nat);
                        }
                    }
                    return (Err(e), Ghost(seen_in), Ghost(asked_in));
                },
            };
            let query = dependents_query_exec(rel, record_id);
            let outcome = sources[k].1.execute_query(query.as_str(), None);
            let ghost a: Answer = answer_of(outcome);
            let ghost seen1 = seen_in.push(a);
            let ghost asked1 = asked_in.push((k as int, dependents_query(*rel, record_id@)));
            let ghost st1 = plan_state(ops@, visited@, asked1);
            proof {
                assert(extends(seen1, seen1));
                assert(extends(seen1, seen_in)) by {
                    assert forall|t: int| 0 <= t < seen_in.len() implies seen1[t] == seen_in[t] by {}
                }
            }
            let rows = match dependents_from(outcome) {
                Ok(rows) => rows,
                Err(e) => {
                    proof {
                        assert forall|ext: Seq<Answer>| extends(ext, seen1) implies match #[trigger] plan_rel(*rel, record_id@, section@, *bo, sources@, ext, st0, fuel as nat) {
                            Ok(st) => false,
                            Err(x) => integrity_view(e) == x,
                        } by {
                            lemma_extends_push(ext, seen_in, a);
                            lemma_rel_unfold(*rel, record_id@, section@, *bo, sources@, ext, st0, fuel as nat);
                        }
                    }
                    return (Err(e), Ghost(seen1), Ghost(asked1));
                },
            };
            proof {
                assert forall|ext: Seq<Answer>| extends(ext, seen1) implies #[trigger] plan_rel(*rel, record_id@, section@, *bo, sources@, ext, st0, fuel as nat)
                    == plan_rows(*rel, rows@, rows@.len() as int, *bo, sources@, ext, st1, fuel as nat) by {
                    lemma_extends_push(ext, seen_in, a);
                    lemma_rel_unfold(*rel, record_id@, section@, *bo, sources@, ext, st0, fuel as nat);
                }
                assert forall|ext: Seq<Answer>| extends(ext, seen1) implies #[trigger] plan_rows(*rel, rows@, 0, *bo, sources@, ext, st1, fuel as nat)
                    == Ok::<PlanState, (IntegrityErrorKind, Seq<char>)>(st1) by {
                    lemma_rows_zero(*rel, rows@, *bo, sources@, ext, st1, fuel as nat);
                }
            }
            let ghost mut seen = seen1;
            let ghost mut asked = asked1;
            let mut j: usize = 0;
            while j < rows.len()
                invariant
                    j <= rows@.len(),
                    asked.len() == seen.len(),
                    extends(seen, seen1),
                    extends(seen1, seen_in),
                    st0 == plan_state(old(ops)@, old(visited)@, asked_in),
                    forall|ext: Seq<Answer>| extends(ext, seen1) ==> #[trigger] plan_rel(*rel, record_id@, section@, *bo, sources@, ext, st0, fuel as nat)
                        == plan_rows(*rel, rows@, rows@.len() as int, *bo, sources@, ext, st1, fuel as nat),
                    forall|ext: Seq<Answer>| extends(ext, seen) ==> #[trigger] plan_rows(*rel, rows@, j as int, *bo, sources@, ext, st1, fuel as nat)
                        == Ok::<PlanState, (IntegrityErrorKind, Seq<char>)>(plan_state(ops@, visited@, asked)),
                decreases rows.len() - j,
            {
                let ghost s1 = plan_state(ops@, visited@, asked);
                let ghost seen_j = seen;
                let ghost idv = match dependent_id(rows@[j as int]) {
                    Some(x) => x,
                    None => Seq::<char>::empty(),
                };
                match cascade_visit(rel.from_section.as_str(), &rows[j], visited, fuel) {
                    CascadeVisit::Pass => {
                        proof {
                            assert forall|ext: Seq<Answer>| extends(ext, seen) implies #[trigger] plan_rows(*rel, rows@, j + 1, *bo, sources@, ext, st1, fuel as nat)
                                == Ok::<PlanState, (IntegrityErrorKind, Seq<char>)>(s1) by {
                                lemma_rows_step(*rel, rows@, j as int, *bo, sources@, ext, st1, fuel as nat, s1, idv);
                            }
                        }
                    },
                    CascadeVisit::TooDeep(id) => {
                        proof {
                            assert forall|ext: Seq<Answer>| extends(ext, seen) implies match #[trigger] plan_rel(*rel, record_id@, section@, *bo, sources@, ext, st0, fuel as nat) {
                                Ok(st) => false,
                                Err(x) => x == (IntegrityErrorKind::CascadeTooDeep, id@),
                            } by {
                                lemma_rows_step(*rel, rows@, j as int, *bo, sources@, ext, st1, fuel as nat, s1, idv);
                                lemma_plan_rows_stay(*rel, rows@, j + 1, rows@.len() as int, *bo, sources@, ext, st1, fuel as nat);
                                lemma_extends_trans(ext, seen, seen1);
                            }
                            lemma_extends_trans(seen, seen1, seen_in);
                        }
                        return (Err(IntegrityError { kind: IntegrityErrorKind::CascadeTooDeep, subject: id }), Ghost(seen), Ghost(asked));
                    },
                    CascadeVisit::Descend(id) => {
                        let o = CascadeOperation {
                            operation_type: CascadeOperationType::Delete,
                            section: rel.from_section.clone(),
                            record_id: id.clone(),
                            relationship_id: rel.id.clone(),
                        };
                        let p = (rel.from_section.clone(), id.clone());
                        proof {
                            lemma_op_push(ops@, o);
                            lemma_visit_push(visited@, p);
                        }
                        ops.push(o);
                        visited.push(p);
                        let (res, Ghost(seen2), Ghost(asked2)) = plan_cascade(
                            id.as_str(),
                            rel.from_section.as_str(),
                            bo,
                            sources,
                            ops,
                            visited,
                            Ghost(seen),
                            Ghost(asked),
                            fuel - 1,
                        );
                        match res {
                            Ok(()) => {
                                proof {
                                    assert forall|ext: Seq<Answer>| extends(ext, seen2) implies #[trigger] plan_rows(*rel, rows@, j + 1, *bo, sources@, ext, st1, fuel as nat)
                                        == Ok::<PlanState, (IntegrityErrorKind, Seq<char>)>(plan_state(ops@, visited@, asked2)) by {
                                        lemma_extends_trans(ext, seen2, seen_j);
                                        lemma_rows_step(*rel, rows@, j as int, *bo, sources@, ext, st1, fuel as nat, s1, idv);
                                    }
                                    lemma_extends_trans(seen2, seen_j, seen1);
                                    seen = seen2;
                                    asked = asked2;
                                }
                            },
                            Err(e) => {
                                proof {
                                    assert forall|ext: Seq<Answer>| extends(ext, seen2) implies match #[trigger] plan_rel(*rel, record_id@, section@, *bo, sources@, ext, st0, fuel as nat) {
                                        Ok(st) => false,
                                        Err(x) => integrity_view(e) == x,
                                    } by {
                                        lemma_extends_trans(ext, seen2, seen_j);
                                        lemma_extends_trans(ext, seen_j, seen1);
                                        lemma_rows_step(*rel, rows@, j as int, *bo, sources@, ext, st1, fuel as nat, s1, idv);
                                        lemma_plan_rows_stay(*rel, rows@, j + 1, rows@.len() as int, *bo, sources@, ext, st1, fuel as nat);
                                    }
                                    lemma_extends_trans(seen2, seen_j, seen1);
                                    lemma_extends_trans(seen2, seen1, seen_in);
                                }
                                return (Err(e), Ghost(seen2), Ghost(asked2));
                            },
                        }
                    },
                }
                j = j + 1;
            }
            proof {
                lemma_extends_trans(seen, seen1, seen_in);
                assert forall|ext: Seq<Answer>| extends(ext, seen) implies #[trigger] plan_rel(*rel, record_id@, section@, *bo, sources@, ext, st0, fuel as nat)
                    == Ok::<PlanState, (IntegrityErrorKind, Seq<char>)>(plan_state(ops@, visited@, asked)) by {
                    lemma_extends_trans(ext, seen, seen1);
                }
            }
            (Ok(()), Ghost(seen), Ghost(asked))
        },
    }
}

fn plan_cascade<D: DataSource>(
    record_id: &str,
    section: &str,
    bo: &BackofficeConfig,
    sources: &Vec<(String, D)>,
    ops: &mut Vec<CascadeOperation>,
    visited: &mut Vec<(String, String)>,
    Ghost(seen_in): Ghost<Seq<Answer>>,
    Ghost(asked_in): Ghost<Seq<Lookup>>,
    fuel: u32,
) -> (r: (Result<(), IntegrityError>, Ghost<Seq<Answer>>, Ghost<Seq<Lookup>>))
    requires
        asked_in.len() == seen_in.len(),
    ensures
        extends(r.1@, seen_in),
        r.2@.len() == r.1@.len(),
        forall|ext: Seq<Answer>| extends(ext, r.1@) ==> match #[trigger] plan_node(
            record_id@,
            section@,
            *bo,
            sources@,
            ext,
            plan_state(old(ops)@, old(visited)@, asked_in),
            fuel as nat,
        ) {
            Ok(st) => r.0 is Ok && st == plan_state(final(ops)@, final(visited)@, r.2@),
            Err(x) => r.0 matches Err(e) && integrity_view(e) == x,
        },
    decreases fuel, 1int,
{
    let ghost st0 = plan_state(ops@, visited@, asked_in);
    let ghost mut seen = seen_in;
    let ghost mut asked = asked_in;
    let rels = &bo.relationships;
    let mut k: usize = 0;
    proof {
        assert(extends(seen_in, seen_in));
        assert forall|ext: Seq<Answer>| extends(ext, seen_in) implies #[trigger] plan_rels(record_id@, section@, *bo, sources@, ext, st0, 0, fuel as nat)
            == Ok::<PlanState, (IntegrityErrorKind, Seq<char>)>(st0) by {
            lemma_node_unfold(record_id@, section@, *bo, sources@, ext, st0, fuel as nat);
        }
    }
    while k < rels.len()
        invariant
            k <= rels@.len(),
            rels == bo.relationships,
            asked.len() == seen.len(),
            extends(seen, seen_in),
            st0 == plan_state(old(ops)@, old(visited)@, asked_in),
            forall|ext: Seq<Answer>| extends(ext, seen) ==> #[trigger] plan_rels(record_id@, section@, *bo, sources@, ext, st0, k as int, fuel as nat)
                == Ok::<PlanState, (IntegrityErrorKind, Seq<char>)>(plan_state(ops@, visited@, asked)),
        decreases rels.len() - k,
    {
        let ghost seen_k = seen;
        let ghost s1 = plan_state(ops@, visited@, asked);
        let (res, Ghost(seen2), Ghost(asked2)) = plan_relationship(
            &rels[k],
            record_id,
            section,
            bo,
            sources,
            ops,
            visited,
            Ghost(seen),
            Ghost(asked),
            fuel,
        );
        match res {
            Ok(()) => {
                proof {
                    assert forall|ext: Seq<Answer>| extends(ext, seen2) implies #[trigger] plan_rels(record_id@, section@, *bo, sources@, ext, st0, k + 1, fuel as nat)
                        == Ok::<PlanState, (IntegrityErrorKind, Seq<char>)>(plan_state(ops@, visited@, asked2)) by {
                        lemma_extends_trans(ext, seen2, seen_k);
                        lemma_rels_step(record_id@, section@, *bo, sources@, ext, st0, k as int, fuel as nat);
                    }
                    lemma_extends_trans(seen2, seen_k, seen_in);
                    seen = seen2;
                    asked = asked2;
                }
            },
            Err(e) => {
                proof {
                    assert forall|ext: Seq<Answer>| extends(ext, seen2) implies match #[trigger] plan_node(record_id@, section@, *bo, sources@, ext, st0, fuel as nat) {
                        Ok(st) => false,
                        Err(x) => integrity_view(e) == x,
                    } by {
                        lemma_extends_trans(ext, seen2, seen_k);
                        lemma_rels_step(record_id@, section@, *bo, sources@, ext, st0, k as int, fuel as nat);
                        lemma_plan_rels_stay(record_id@, section@, *bo, sources@, ext, st0, k + 1, rels@.len() as int, fuel as nat);
                        lemma_node_unfold(record_id@, section@, *bo, sources@, ext, st0, fuel as nat);
                    }
                    lemma_extends_trans(seen2, seen_k, seen_in);
                }
                return (Err(e), Ghost(seen2), Ghost(asked2));
            },
        }
        k = k + 1;
    }
    proof {
        assert forall|ext: Seq<Answer>| extends(ext, seen) implies #[trigger] plan_node(record_id@, section@, *bo, sources@, ext, st0, fuel as nat)
            == Ok::<PlanState, (IntegrityErrorKind, Seq<char>)>(plan_state(ops@, visited@, asked)) by {
            lemma_node_unfold(record_id@, section@, *bo, sources@, ext, st0, fuel as nat);
        }
    }
    (Ok(()), Ghost(seen), Ghost(asked))
}

/// Plans the deletions that deleting `record_id` of `section_id` entails,
/// without performing any: the plan is the cascade plan for the answers the
/// sources gave to its reads. A record reached twice is planned once, so a
/// cycle of relationships ends the walk instead of repeating it.
pub fn handle_cascade_delete<D: DataSource>(
    record_id: &str,
    section_id: &str,
    backoffice: &BackofficeConfig,
    data_sources: &Vec<(String, D)>,
) -> (r: Result<Vec<CascadeOperation>, IntegrityError>)
    ensures
        exists|ans: Seq<Answer>| match #[trigger] cascade_plan(record_id@, section_id@, *backoffice, data_sources@, ans) {
            Ok(plan) => r matches Ok(ops) && op_views(ops@) == plan.0 && plan.1.len() == ans.len(),
            Err(x) => r matches Err(e) && integrity_view(e) == x,
        },
{
    let mut ops: Vec<CascadeOperation> = Vec::new();
    let mut visited: Vec<(String, String)> = Vec::new();
    let start = (String::from_str(section_id), String::from_str(record_id));
    visited.push(start);
    proof {
        assert(op_views(ops@) =~= seq![]);
        assert(visited_view(visited@) =~= seq![(section_id@, record_id@)]);
    }
    let (res, Ghost(seen), Ghost(asked)) = plan_cascade(
        record_id,
        section_id,
        backoffice,
        data_sources,
        &mut ops,
        &mut visited,
        Ghost(Seq::empty()),
        Ghost(Seq::empty()),
        MAX_CASCADE_DEPTH,
    );
    proof {
        assert(extends(seen, seen));
        let st0: PlanState = (seq![], seq![(section_id@, record_id@)], seq![]);
        assert(plan_state(Seq::<CascadeOperation>::empty(), seq![start], Seq::empty()) == st0);
        assert(cascade_plan(record_id@, section_id@, *backoffice, data_sources@, seen) == match plan_node(
            record_id@,
            section_id@,
            *backoffice,
            data_sources@,
            seen,
            st0,
            MAX_CASCADE_DEPTH as nat,
        ) {
            Ok(st) => Ok((st.0, st.2)),
            Err(e) => Err(e),
        });
    }
    match res {
        Ok(()) => Ok(ops),
        Err(e) => Err(e),
    }
}

/// The write a cascade operation asks of its section's source, as (query,
/// field, value): the record handed with the query holds that one field with
/// the value as a string. A reserved operation, or a junction operation whose
/// relationship is not many-to-many, asks for no write.
pub open spec fn cascade_write(op: CascadeOperation, bo: BackofficeConfig) -> Result<Option<(Seq<char>, Seq<char>, Seq<char>)>, (IntegrityErrorKind, Seq<char>)> {
    match op.operation_type {
        CascadeOperationType::Delete => Ok(Some((
            "DELETE FROM "@ + op.section@ + " WHERE id = '"@ + op.record_id@ + "'"@,
            "id"@,
            op.record_id@,
        ))),
        CascadeOperationType::DeleteJunction => match first_key(relationship_ids(bo.relationships@), op.relationship_id@) {
            None => Err((IntegrityErrorKind::RelationshipNotFound, op.relationship_id@)),
            Some(i) => match bo.relationships@[i].relationship_type {
                RelationshipType::ManyToMany { junction_table, from_junction_field, .. } => Ok(Some((
                    "DELETE FROM "@ + junction_table@ + " WHERE "@ + from_junction_field@ + " = '"@ + op.record_id@ + "'"@,
                    from_junction_field@,
                    op.record_id@,
                ))),
                _ => Ok(None),
            },
        },
        CascadeOperationType::SetNull => Ok(None),
    }
}

/// A record of one field holding a string.
pub open spec fn single_field(data: Record, field: Seq<char>, value: Seq<char>) -> bool {
    data.entries@.len() == 1 && data.entries@[0].0@ == field && (data.entries@[0].1 matches Value::String(v) && v@ == value)
}

fn single_field_record(field: String, value: String) -> (r: Record)
    ensures
        single_field(r, field@, value@),
{
    let mut entries: Vec<(String, Value)> = Vec::new();
    entries.push((field, Value::String(value)));
    Record { entries }
}

/// The write a cascade operation asks for: its query and the record handed
/// with it.
pub fn cascade_mutation(op: &CascadeOperation, backoffice: &BackofficeConfig) -> (r: Result<Option<(String, Record)>, IntegrityError>)
    ensures
        match cascade_write(*op, *backoffice) {
            Ok(Some(w)) => r matches Ok(Some(m)) && m.0@ == w.0 && single_field(m.1, w.1, w.2),
            Ok(None) => r matches Ok(None),
            Err(x) => r matches Err(e) && integrity_view(e) == x,
        },
{
    match op.operation_type {
        CascadeOperationType::Delete => {
            let query = String::from_str("DELETE FROM ").concat(op.section.as_str()).concat(" WHERE id = '").concat(
                op.record_id.as_str(),
            ).concat("'");
            Ok(Some((query, single_field_record(String::from_str("id"), op.record_id.clone()))))
        },
        CascadeOperationType::DeleteJunction => {
            let i = match find_relationship(&backoffice.relationships, op.relationship_id.as_str()) {
                Some(i) => i,
                None => {
                    return Err(IntegrityError {
                        kind: IntegrityErrorKind::RelationshipNotFound,
                        subject: op.relationship_id.clone(),
                    });
                },
            };
            match &backoffice.relationships[i].relationship_type {
                RelationshipType::ManyToMany { junction_table, from_junction_field, .. } => {
                    let query = String::from_str("DELETE FROM ").concat(junction_table.as_str()).concat(" WHERE ").concat(
                        from_junction_field.as_str(),
                    ).concat(" = '").concat(op.record_id.as_str()).concat("'");
                    Ok(Some((query, single_field_record(from_junction_field.clone(), op.record_id.clone()))))
                },
                _ => Ok(None),
            }
        },
        CascadeOperationType::SetNull => Ok(None),
    }
}

/// What executing one operation needs from the configuration: the source
/// serving its section, and the write it asks for.
pub open spec fn op_config<D>(op: CascadeOperation, bo: BackofficeConfig, sources: Seq<(String, D)>) -> Result<(int, Option<(Seq<char>, Seq<char>, Seq<char>)>), (IntegrityErrorKind, Seq<char>)> {
    match resolve_source(bo, op.section@, source_names(sources)) {
        Err(e) => Err(e),
        Ok(k) => match cascade_write(op, bo) {
            Err(e) => Err(e),
            Ok(w) => Ok((k, w)),
        },
    }
}

/// An operation whose configuration resolves and that asks for no write.
pub open spec fn writes_nothing(c: Result<(int, Option<(Seq<char>, Seq<char>, Seq<char>)>), (IntegrityErrorKind, Seq<char>)>) -> bool {
    c matches Ok(x) && x.1 is None
}

/// An operation whose configuration resolves and that asks for a write.
pub open spec fn asks_write(c: Result<(int, Option<(Seq<char>, Seq<char>, Seq<char>)>), (IntegrityErrorKind, Seq<char>)>) -> bool {
    c matches Ok(x) && x.1 is Some
}

/// What a cascade write's outcome means for the run: a failed write stops it
/// with the backend's error.
pub fn write_outcome(outcome: Result<Value, DataSourceError>) -> (r: Result<(), IntegrityError>)
    ensures
        match outcome {
            Ok(_) => r is Ok,
            Err(err) => r matches Err(e) && integrity_view(e) == (IntegrityErrorKind::Backend, err.message@),
        },
{
    match outcome {
        Ok(_) => Ok(()),
        Err(err) => Err(IntegrityError { kind: IntegrityErrorKind::Backend, subject: err.message }),
    }
}

/// Executes planned operations in order, each as a write to the source of
/// its section. The first failure stops the run: what was written before it
/// stays written.
#[verifier::rlimit(60)]
pub fn execute_cascade_operations<D: DataSource>(
    operations: &Vec<CascadeOperation>,
    backoffice: &BackofficeConfig,
    data_sources: &Vec<(String, D)>,
) -> (r: Result<(), IntegrityError>)
    ensures
        r is Ok ==> forall|i: int| 0 <= i < operations@.len() ==> op_config(#[trigger] operations@[i], *backoffice, data_sources@) is Ok,
        (exists|i: int| 0 <= i < operations@.len() && op_config(#[trigger] operations@[i], *backoffice, data_sources@) is Err) ==> r is Err,
        (forall|i: int| 0 <= i < operations@.len() ==> writes_nothing(#[trigger] op_config(operations@[i], *backoffice, data_sources@)))
            ==> r is Ok,
        match r {
            Err(e) => if e.kind is Backend {
                exists|i: int|
                    0 <= i < operations@.len() && asks_write(#[trigger] op_config(operations@[i], *backoffice, data_sources@))
                        && forall|j: int| 0 <= j < i ==> op_config(operations@[j], *backoffice, data_sources@) is Ok
            } else {
                exists|i: int|
                    0 <= i < operations@.len() && #[trigger] op_config(operations@[i], *backoffice, data_sources@)
                        == Err::<(int, Option<(Seq<char>, Seq<char>, Seq<char>)>), (IntegrityErrorKind, Seq<char>)>(integrity_view(e))
                        && forall|j: int| 0 <= j < i ==> op_config(operations@[j], *backoffice, data_sources@) is Ok
            },
            Ok(()) => true,
        },
{
    let mut i: usize = 0;
    while i < operations.len()
        invariant
            i <= operations@.len(),
            forall|j: int| 0 <= j < i ==> op_config(#[trigger] operations@[j], *backoffice, data_sources@) is Ok,
        decreases operations.len() - i,
    {
        let op = &operations[i];
        let k = match resolve(backoffice, op.section.as_str(), data_sources) {
            Ok(k) => k,
            Err(e) => {
                assert(op_config(operations@[i as int], *backoffice, data_sources@) is Err);
                return Err(e);
            },
        };
        match cascade_mutation(op, backoffice) {
            Err(e) => {
                assert(op_config(operations@[i as int], *backoffice, data_sources@) is Err);
                return Err(e);
            },
            Ok(None) => {},
            Ok(Some((query, data))) => {
                let outcome = data_sources[k].1.execute_mutation(query.as_str(), &data);
                match write_outcome(outcome) {
                    Ok(()) => {},
                    Err(e) => {
                        assert(asks_write(op_config(operations@[i as int], *backoffice, data_sources@)));
                        return Err(e);
                    },
                }
            },
        }
        i = i + 1;
    }
    Ok(())
}

/// `b` continues `a`: every read `a` lists comes first in `b`, in order.
pub open spec fn grows(a: Seq<Lookup>, b: Seq<Lookup>) -> bool {
    a.len() <= b.len() && forall|i: int| 0 <= i < a.len() ==> b[i] == a[i]
}

/// The answers from position `from` on are what `backend` gives to the reads
/// made at those positions.
pub open spec fn answered_by(ans: Seq<Answer>, asked: Seq<Lookup>, from: int, backend: spec_fn(Lookup) -> Answer) -> bool {
    forall|i: int| from <= i < asked.len() ==> ans[i] == backend(asked[i])
}

proof fn lemma_grows_trans(a: Seq<Lookup>, b: Seq<Lookup>, c: Seq<Lookup>)
    requires
        grows(a, b),
        grows(b, c),
    ensures
        grows(a, c),
{
    assert forall|i: int| 0 <= i < a.len() implies c[i] == a[i] by {
        assert(c[i] == b[i]);
    }
}

proof fn lemma_grows_push(a: Seq<Lookup>, q: Lookup)
    ensures
        grows(a, a.push(q)),
        grows(a, a),
{
    assert forall|i: int| 0 <= i < a.len() implies a.push(q)[i] == a[i] by {}
}

proof fn lemma_node_grows<D>(
    record_id: Seq<char>,
    section: Seq<char>,
    bo: BackofficeConfig,
    sources: Seq<(String, D)>,
    ans: Seq<Answer>,
    st: PlanState,
    fuel: nat,
)
    ensures
        plan_node(record_id, section, bo, sources, ans, st, fuel) matches Ok(s) ==> grows(st.2, s.2),
    decreases fuel, 2int, 0int,
{
    lemma_node_unfold(record_id, section, bo, sources, ans, st, fuel);
    lemma_rels_grows(record_id, section, bo, sources, ans, st, bo.relationships@.len() as int, fuel);
}

proof fn lemma_rels_grows<D>(
    record_id: Seq<char>,
    section: Seq<char>,
    bo: BackofficeConfig,
    sources: Seq<(String, D)>,
    ans: Seq<Answer>,
    st: PlanState,
    k: int,
    fuel: nat,
)
    ensures
        plan_rels(record_id, section, bo, sources, ans, st, k, fuel) matches Ok(s) ==> grows(st.2, s.2),
    decreases fuel, 1int, k,
{
    lemma_grows_push(st.2, (0, Seq::empty()));
    if k <= 0 || k > bo.relationships@.len() {
        reveal_with_fuel(plan_rels, 1);
    } else {
        lemma_rels_step(record_id, section, bo, sources, ans, st, k - 1, fuel);
        lemma_rels_grows(record_id, section, bo, sources, ans, st, k - 1, fuel);
        if let Ok(s1) = plan_rels(record_id, section, bo, sources, ans, st, k - 1, fuel) {
            lemma_rel_grows(bo.relationships@[k - 1], record_id, section, bo, sources, ans, s1, fuel);
            if let Ok(s) = plan_rels(record_id, section, bo, sources, ans, st, k, fuel) {
                lemma_grows_trans(st.2, s1.2, s.2);
            }
        }
    }
}

proof fn lemma_rel_grows<D>(
    rel: RelationshipConfig,
    record_id: Seq<char>,
    section: Seq<char>,
    bo: BackofficeConfig,
    sources: Seq<(String, D)>,
    ans: Seq<Answer>,
    st: PlanState,
    fuel: nat,
)
    ensures
        plan_rel(rel, record_id, section, bo, sources, ans, st, fuel) matches Ok(s) ==> grows(st.2, s.2),
    decreases fuel, 1int, 0int,
{
    lemma_rel_unfold(rel, record_id, section, bo, sources, ans, st, fuel);
    lemma_grows_push(st.2, (0, Seq::empty()));
    if rel.to_section@ == section && rel.cascade_delete && !(rel.relationship_type is ManyToOne)
        && !(rel.relationship_type is ManyToMany) {
        if let Ok(k) = resolve_source(bo, rel.from_section@, source_names(sources)) {
            let q: Lookup = (k, dependents_query(rel, record_id));
            let st1: PlanState = (st.0, st.1, st.2.push(q));
            lemma_grows_push(st.2, q);
            if let Ok(rows) = ans[st.2.len() as int] {
                lemma_rows_grows(rel, rows, rows.len() as int, bo, sources, ans, st1, fuel);
                if let Ok(s) = plan_rel(rel, record_id, section, bo, sources, ans, st, fuel) {
                    lemma_grows_trans(st.2, st1.2, s.2);
                }
            }
        }
    }
}

proof fn lemma_rows_grows<D>(
    rel: RelationshipConfig,
    rows: Seq<Record>,
    j: int,
    bo: BackofficeConfig,
    sources: Seq<(String, D)>,
    ans: Seq<Answer>,
    st: PlanState,
    fuel: nat,
)
    ensures
        plan_rows(rel, rows, j, bo, sources, ans, st, fuel) matches Ok(s) ==> grows(st.2, s.2),
    decreases fuel, 0int, j,
{
    lemma_grows_push(st.2, (0, Seq::empty()));
    if j <= 0 || j > rows.len() {
        reveal_with_fuel(plan_rows, 1);
    } else {
        lemma_rows_grows(rel, rows, j - 1, bo, sources, ans, st, fuel);
        if let Ok(s1) = plan_rows(rel, rows, j - 1, bo, sources, ans, st, fuel) {
            let idv = match dependent_id(rows[j - 1]) {
                Some(x) => x,
                None => Seq::<char>::empty(),
            };
            lemma_rows_step(rel, rows, j - 1, bo, sources, ans, st, fuel, s1, idv);
            if let Some(id) = dependent_id(rows[j - 1]) {
                if !s1.1.contains((rel.from_section@, id)) && fuel > 0 {
                    let s2: PlanState = (
                        s1.0.push((CascadeOperationType::Delete, rel.from_section@, id, rel.id@)),
                        s1.1.push((rel.from_section@, id)),
                        s1.2,
                    );
                    lemma_node_grows(id, rel.from_section@, bo, sources, ans, s2, (fuel - 1) as nat);
                    if let Ok(s) = plan_rows(rel, rows, j, bo, sources, ans, st, fuel) {
                        lemma_grows_trans(st.2, s1.2, s.2);
                    }
                }
            }
        } else {
            lemma_plan_rows_stay(rel, rows, j - 1, j, bo, sources, ans, st, fuel);
        }
    }
}

proof fn lemma_plan_rows_err<D>(
    rel: RelationshipConfig,
    rows: Seq<Record>,
    j: int,
    bo: BackofficeConfig,
    sources: Seq<(String, D)>,
    ans: Seq<Answer>,
    st: PlanState,
    fuel: nat,
)
    requires
        0 < j <= rows.len(),
        plan_rows(rel, rows, j, bo, sources, ans, st, fuel) is Ok,
    ensures
        plan_rows(rel, rows, j - 1, bo, sources, ans, st, fuel) is Ok,
{
    if plan_rows(rel, rows, j - 1, bo, sources, ans, st, fuel) is Err {
        lemma_plan_rows_stay(rel, rows, j - 1, j, bo, sources, ans, st, fuel);
    }
}

proof fn lemma_plan_rels_err<D>(
    record_id: Seq<char>,
    section: Seq<char>,
    bo: BackofficeConfig,
    sources: Seq<(String, D)>,
    ans: Seq<Answer>,
    st: PlanState,
    k: int,
    fuel: nat,
)
    requires
        0 < k <= bo.relationships@.len(),
        plan_rels(record_id, section, bo, sources, ans, st, k, fuel) is Ok,
    ensures
        plan_rels(record_id, section, bo, sources, ans, st, k - 1, fuel) is Ok,
{
    if plan_rels(record_id, section, bo, sources, ans, st, k - 1, fuel) is Err {
        lemma_plan_rels_stay(record_id, section, bo, sources, ans, st, k - 1, k, fuel);
    }
}

proof fn lemma_node_same<D>(
    record_id: Seq<char>,
    section: Seq<char>,
    bo: BackofficeConfig,
    sources: Seq<(String, D)>,
    a1: Seq<Answer>,
    a2: Seq<Answer>,
    backend: spec_fn(Lookup) -> Answer,
    st: PlanState,
    fuel: nat,
)
    requires
        plan_node(record_id, section, bo, sources, a1, st, fuel) matches Ok(s) && answered_by(a1, s.2, st.2.len() as int, backend),
        plan_node(record_id, section, bo, sources, a2, st, fuel) matches Ok(s) && answered_by(a2, s.2, st.2.len() as int, backend),
    ensures
        plan_node(record_id, section, bo, sources, a1, st, fuel) == plan_node(record_id, section, bo, sources, a2, st, fuel),
    decreases fuel, 2int, 0int,
{
    lemma_node_unfold(record_id, section, bo, sources, a1, st, fuel);
    lemma_node_unfold(record_id, section, bo, sources, a2, st, fuel);
    lemma_rels_same(record_id, section, bo, sources, a1, a2, backend, st, bo.relationships@.len() as int, fuel);
}

proof fn lemma_rels_same<D>(
    record_id: Seq<char>,
    section: Seq<char>,
    bo: BackofficeConfig,
    sources: Seq<(String, D)>,
    a1: Seq<Answer>,
    a2: Seq<Answer>,
    backend: spec_fn(Lookup) -> Answer,
    st: PlanState,
    k: int,
    fuel: nat,
)
    requires
        plan_rels(record_id, section, bo, sources, a1, st, k, fuel) matches Ok(s) && answered_by(a1, s.2, st.2.len() as int, backend),
        plan_rels(record_id, section, bo, sources, a2, st, k, fuel) matches Ok(s) && answered_by(a2, s.2, st.2.len() as int, backend),
    ensures
        plan_rels(record_id, section, bo, sources, a1, st, k, fuel) == plan_rels(record_id, section, bo, sources, a2, st, k, fuel),
    decreases fuel, 1int, k,
{
    if k <= 0 || k > bo.relationships@.len() {
        reveal_with_fuel(plan_rels, 1);
    } else {
        lemma_rels_step(record_id, section, bo, sources, a1, st, k - 1, fuel);
        lemma_rels_step(record_id, section, bo, sources, a2, st, k - 1, fuel);
        lemma_plan_rels_err(record_id, section, bo, sources, a1, st, k, fuel);
        lemma_plan_rels_err(record_id, section, bo, sources, a2, st, k, fuel);
        let rel = bo.relationships@[k - 1];
        let m1 = plan_rels(record_id, section, bo, sources, a1, st, k - 1, fuel)->Ok_0;
        let m2 = plan_rels(record_id, section, bo, sources, a2, st, k - 1, fuel)->Ok_0;
        let f1 = plan_rels(record_id, section, bo, sources, a1, st, k, fuel)->Ok_0;
        let f2 = plan_rels(record_id, section, bo, sources, a2, st, k, fuel)->Ok_0;
        lemma_rel_grows(rel, record_id, section, bo, sources, a1, m1, fuel);
        lemma_rel_grows(rel, record_id, section, bo, sources, a2, m2, fuel);
        lemma_rels_grows(record_id, section, bo, sources, a1, st, k - 1, fuel);
        assert(answered_by(a1, m1.2, st.2.len() as int, backend)) by {
            assert forall|i: int| st.2.len() <= i < m1.2.len() implies a1[i] == backend(m1.2[i]) by {
                assert(f1.2[i] == m1.2[i]);
            }
        }
        assert(answered_by(a2, m2.2, st.2.len() as int, backend)) by {
            assert forall|i: int| st.2.len() <= i < m2.2.len() implies a2[i] == backend(m2.2[i]) by {
                assert(f2.2[i] == m2.2[i]);
            }
        }
        lemma_rels_same(record_id, section, bo, sources, a1, a2, backend, st, k - 1, fuel);
        lemma_rels_grows(record_id, section, bo, sources, a1, st, k - 1, fuel);
        assert(answered_by(a1, f1.2, m1.2.len() as int, backend));
        assert(answered_by(a2, f2.2, m1.2.len() as int, backend));
        lemma_rel_same(rel, record_id, section, bo, sources, a1, a2, backend, m1, fuel);
    }
}

proof fn lemma_rel_same<D>(
    rel: RelationshipConfig,
    record_id: Seq<char>,
    section: Seq<char>,
    bo: BackofficeConfig,
    sources: Seq<(String, D)>,
    a1: Seq<Answer>,
    a2: Seq<Answer>,
    backend: spec_fn(Lookup) -> Answer,
    st: PlanState,
    fuel: nat,
)
    requires
        plan_rel(rel, record_id, section, bo, sources, a1, st, fuel) matches Ok(s) && answered_by(a1, s.2, st.2.len() as int, backend),
        plan_rel(rel, record_id, section, bo, sources, a2, st, fuel) matches Ok(s) && answered_by(a2, s.2, st.2.len() as int, backend),
    ensures
        plan_rel(rel, record_id, section, bo, sources, a1, st, fuel) == plan_rel(rel, record_id, section, bo, sources, a2, st, fuel),
    decreases fuel, 1int, 0int,
{
    lemma_rel_unfold(rel, record_id, section, bo, sources, a1, st, fuel);
    lemma_rel_unfold(rel, record_id, section, bo, sources, a2, st, fuel);
    if rel.to_section@ == section && rel.cascade_delete && !(rel.relationship_type is ManyToOne)
        && !(rel.relationship_type is ManyToMany) {
        if let Ok(k) = resolve_source(bo, rel.from_section@, source_names(sources)) {
            let q: Lookup = (k, dependents_query(rel, record_id));
            let st1: PlanState = (st.0, st.1, st.2.push(q));
            let pos = st.2.len() as int;
            let f1 = plan_rel(rel, record_id, section, bo, sources, a1, st, fuel)->Ok_0;
            let f2 = plan_rel(rel, record_id, section, bo, sources, a2, st, fuel)->Ok_0;
            let rows1 = a1[pos]->Ok_0;
            let rows2 = a2[pos]->Ok_0;
            lemma_rows_grows(rel, rows1, rows1.len() as int, bo, sources, a1, st1, fuel);
            lemma_rows_grows(rel, rows2, rows2.len() as int, bo, sources, a2, st1, fuel);
            assert(st1.2[pos] == q);
            assert(f1.2[pos] == q);
            assert(f2.2[pos] == q);
            assert(a1[pos] == backend(q));
            assert(a2[pos] == backend(q));
            lemma_rows_same(rel, rows1, rows1.len() as int, bo, sources, a1, a2, backend, st1, fuel);
        }
    }
}

proof fn lemma_rows_same<D>(
    rel: RelationshipConfig,
    rows: Seq<Record>,
    j: int,
    bo: BackofficeConfig,
    sources: Seq<(String, D)>,
    a1: Seq<Answer>,
    a2: Seq<Answer>,
    backend: spec_fn(Lookup) -> Answer,
    st: PlanState,
    fuel: nat,
)
    requires
        plan_rows(rel, rows, j, bo, sources, a1, st, fuel) matches Ok(s) && answered_by(a1, s.2, st.2.len() as int, backend),
        plan_rows(rel, rows, j, bo, sources, a2, st, fuel) matches Ok(s) && answered_by(a2, s.2, st.2.len() as int, backend),
    ensures
        plan_rows(rel, rows, j, bo, sources, a1, st, fuel) == plan_rows(rel, rows, j, bo, sources, a2, st, fuel),
    decreases fuel, 0int, j,
{
    if j <= 0 || j > rows.len() {
        reveal_with_fuel(plan_rows, 1);
    } else {
        lemma_plan_rows_err(rel, rows, j, bo, sources, a1, st, fuel);
        lemma_plan_rows_err(rel, rows, j, bo, sources, a2, st, fuel);
        let m1 = plan_rows(rel, rows, j - 1, bo, sources, a1, st, fuel)->Ok_0;
        let m2 = plan_rows(rel, rows, j - 1, bo, sources, a2, st, fuel)->Ok_0;
        let idv = match dependent_id(rows[j - 1]) {
            Some(x) => x,
            None => Seq::<char>::empty(),
        };
        lemma_rows_step(rel, rows, j - 1, bo, sources, a1, st, fuel, m1, idv);
        lemma_rows_step(rel, rows, j - 1, bo, sources, a2, st, fuel, m2, idv);
        let f1 = plan_rows(rel, rows, j, bo, sources, a1, st, fuel)->Ok_0;
        let f2 = plan_rows(rel, rows, j, bo, sources, a2, st, fuel)->Ok_0;
        let tail = |m: PlanState, id: Seq<char>| -> PlanState {
            (
                m.0.push((CascadeOperationType::Delete, rel.from_section@, id, rel.id@)),
                m.1.push((rel.from_section@, id)),
                m.2,
            )
        };
        if let Some(id) = dependent_id(rows[j - 1]) {
            if !m1.1.contains((rel.from_section@, id)) && fuel > 0 {
                lemma_node_grows(id, rel.from_section@, bo, sources, a1, tail(m1, id), (fuel - 1) as nat);
            }
            if !m2.1.contains((rel.from_section@, id)) && fuel > 0 {
                lemma_node_grows(id, rel.from_section@, bo, sources, a2, tail(m2, id), (fuel - 1) as nat);
            }
        }
        assert(grows(m1.2, f1.2));
        assert(grows(m2.2, f2.2));
        assert(answered_by(a1, m1.2, st.2.len() as int, backend)) by {
            assert forall|i: int| st.2.len() <= i < m1.2.len() implies a1[i] == backend(m1.2[i]) by {
                assert(f1.2[i] == m1.2[i]);
            }
        }
        assert(answered_by(a2, m2.2, st.2.len() as int, backend)) by {
            assert forall|i: int| st.2.len() <= i < m2.2.len() implies a2[i] == backend(m2.2[i]) by {
                assert(f2.2[i] == m2.2[i]);
            }
        }
        lemma_rows_same(rel, rows, j - 1, bo, sources, a1, a2, backend, st, fuel);
        lemma_rows_grows(rel, rows, j - 1, bo, sources, a1, st, fuel);
        if let Some(id) = dependent_id(rows[j - 1]) {
            if !m1.1.contains((rel.from_section@, id)) && fuel > 0 {
                lemma_node_same(id, rel.from_section@, bo, sources, a1, a2, backend, tail(m1, id), (fuel - 1) as nat);
            }
        }
    }
}

/// Cascade planning is pure: against an unchanged backend, one that gives
/// the same answer to the same read, two plans of the same deletion are the
/// same, operations and reads alike.
pub proof fn cascade_planning_is_pure<D>(
    record_id: Seq<char>,
    section: Seq<char>,
    bo: BackofficeConfig,
    sources: Seq<(String, D)>,
    backend: spec_fn(Lookup) -> Answer,
    first: Seq<Answer>,
    second: Seq<Answer>,
)
    requires
        cascade_plan(record_id, section, bo, sources, first) matches Ok(p) && answered_by(first, p.1, 0, backend),
        cascade_plan(record_id, section, bo, sources, second) matches Ok(p) && answered_by(second, p.1, 0, backend),
    ensures
        cascade_plan(record_id, section, bo, sources, first) == cascade_plan(record_id, section, bo, sources, second),
{
    let st0: PlanState = (seq![], seq![(section, record_id)], seq![]);
    lemma_node_same(record_id, section, bo, sources, first, second, backend, st0, MAX_CASCADE_DEPTH as nat);
}

/// A many-to-one relationship never cascades: it reads nothing and plans
/// nothing, whatever the backends answer.
pub proof fn many_to_one_never_cascades<D>(
    rel: RelationshipConfig,
    record_id: Seq<char>,
    section: Seq<char>,
    bo: BackofficeConfig,
    sources: Seq<(String, D)>,
    ans: Seq<Answer>,
    st: PlanState,
    fuel: nat,
)
    requires
        rel.relationship_type is ManyToOne,
    ensures
        plan_rel(rel, record_id, section, bo, sources, ans, st, fuel) == Ok::<PlanState, (IntegrityErrorKind, Seq<char>)>(st),
{
    lemma_rel_unfold(rel, record_id, section, bo, sources, ans, st, fuel);
}

/// Relationship existence: for a one-to-one or many-to-one relationship from
/// `section` whose target section has a source, a record holding a value in
/// the relationship's field gets exactly one error, on that field, when the
/// source finds no matching row, and none when it finds one.
pub proof fn relationship_existence<D>(
    rel: RelationshipConfig,
    data: Record,
    section: Seq<char>,
    bo: BackofficeConfig,
    sources: Seq<(String, D)>,
    rows: Seq<Record>,
)
    requires
        bo.relationships@ == seq![rel],
        rel.from_section@ == section,
        rel.relationship_type is OneToOne || rel.relationship_type is ManyToOne,
        data.get_spec(rel.from_field@) matches Some(v) && !(v is Null),
        resolve_source(bo, rel.to_section@, source_names(sources)) is Ok,
    ensures
        ({
            let v = data.get_spec(rel.from_field@)->Some_0;
            let run = fk_run(bo.relationships@, data, section, bo, sources, seq![Ok::<Seq<Record>, Seq<char>>(rows)]);
            &&& rows.len() == 0 ==> (run matches Ok(p) && p.0 == seq![(rel.id@, rel.from_field@, missing_message(rel, key_shown(v)))])
            &&& rows.len() > 0 ==> (run matches Ok(p) && p.0 == Seq::<(Seq<char>, Seq<char>, Seq<char>)>::empty())
        }),
{
    let rels = bo.relationships@;
    let ans = seq![Ok::<Seq<Record>, Seq<char>>(rows)];
    assert(rels.drop_last() =~= Seq::<RelationshipConfig>::empty());
    assert(rels.last() == rel);
    let v = data.get_spec(rel.from_field@)->Some_0;
    let k = resolve_source(bo, rel.to_section@, source_names(sources))->Ok_0;
    assert(fk_run(rels.drop_last(), data, section, bo, sources, ans) == Ok::<_, (IntegrityErrorKind, Seq<char>)>(
        (Seq::<(Seq<char>, Seq<char>, Seq<char>)>::empty(), Seq::<Lookup>::empty()),
    ));
    assert(fk_lookup(rel, data, section, bo, sources) == Ok::<_, (IntegrityErrorKind, Seq<char>)>(
        Some((k, lookup_query(rel.to_field@, rel.to_section@, key_text(v)), key_shown(v))),
    ));
    assert(ans[0] == Ok::<Seq<Record>, Seq<char>>(rows));
    assert(seq![].push((rel.id@, rel.from_field@, missing_message(rel, key_shown(v))))
        =~= seq![(rel.id@, rel.from_field@, missing_message(rel, key_shown(v)))]);
}

} // verus!
