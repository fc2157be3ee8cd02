//! Audit entries: what changed in a record, by whom, when. Writing entries
//! to storage is left to the caller.
use vstd::prelude::*;

use crate::bindings::{current_clock, fresh_uuid, Instant};
use crate::config::AuditConfig;
use crate::text::str_eq;
use crate::value::{opt_same, values_equal, Record, Value};

verus! {

/// Audit log entry.
#[derive(Clone, Debug)]
pub struct AuditLogEntry {
    pub id: String,
    pub timestamp: Instant,
    pub operation: AuditOperation,
    pub section_id: String,
    pub record_id: Option<String>,
    pub user_id: Option<String>,
    pub old_values: Option<Record>,
    pub new_values: Option<Record>,
    pub changes: Vec<FieldChange>,
    pub metadata: Vec<(String, String)>,
}

#[derive(Clone, Copy, Debug)]
pub enum AuditOperation {
    Create,
    Update,
    Delete,
    Read,
}

/// One field's value before and after an operation; `None` where the field
/// was absent.
#[derive(Clone, Debug)]
pub struct FieldChange {
    pub field: String,
    pub old_value: Option<Value>,
    pub new_value: Option<Value>,
}

/// Audit logger settings: where entries go, and whether they are written.
pub struct AuditLogger {
    pub log_dir: String,
    pub enabled: bool,
}

/// A field differs between two records when it is present in one only, or
/// holds different values.
pub open spec fn differs(old: Record, new: Record, k: Seq<char>) -> bool {
    !opt_same(old.get_spec(k), new.get_spec(k))
}

/// A change that records a real difference, with the values the records hold.
pub open spec fn faithful_change(c: FieldChange, old: Record, new: Record) -> bool {
    differs(old, new, c.field@) && opt_same(c.old_value, old.get_spec(c.field@)) && opt_same(
        c.new_value,
        new.get_spec(c.field@),
    )
}

pub open spec fn has_key(r: Record, k: Seq<char>) -> bool {
    exists|i: int| 0 <= i < r.entries@.len() && #[trigger] r.entries@[i].0@ == k
}

pub open spec fn seen_view(seen: Seq<String>) -> Seq<Seq<char>> {
    seen.map_values(|s: String| s@)
}

fn copy_of(v: Option<&Value>) -> (r: Option<Value>)
    ensures
        opt_same(r, match v { Some(x) => Some(*x), None => None }),
{
    match v {
        Some(x) => Some(x.deep_copy()),
        None => None,
    }
}

fn same_option(a: Option<&Value>, b: Option<&Value>) -> (r: bool)
    ensures
        r == opt_same(match a { Some(x) => Some(*x), None => None }, match b { Some(x) => Some(*x), None => None }),
{
    match (a, b) {
        (None, None) => true,
        (Some(x), Some(y)) => values_equal(x, y),
        _ => false,
    }
}

fn is_seen(seen: &Vec<String>, key: &String) -> (r: bool)
    ensures
        r == seen_view(seen@).contains(key@),
{
    let mut i: usize = 0;
    while i < seen.len()
        invariant
            i <= seen@.len(),
            forall|j: int| 0 <= j < i ==> seen_view(seen@)[j] != key@,
        decreases seen.len() - i,
    {
        if str_eq(seen[i].as_str(), key.as_str()) {
            assert(seen_view(seen@)[i as int] == key@);
            return true;
        }
        i = i + 1;
    }
    false
}

/// Considers one field: the first time it comes up it is marked seen and,
/// where the records differ on it, a change is recorded.
fn consider(key: &String, old_data: &Record, new_data: &Record, seen: &mut Vec<String>, changes: &mut Vec<FieldChange>)
    requires
        seen_view(old(seen)@).no_duplicates(),
        forall|i: int| 0 <= i < old(changes)@.len() ==> faithful_change(#[trigger] old(changes)@[i], *old_data, *new_data)
            && seen_view(old(seen)@).contains(old(changes)@[i].field@),
        forall|i: int, j: int| 0 <= i < j < old(changes)@.len() ==> old(changes)@[i].field@ != old(changes)@[j].field@,
        forall|k: Seq<char>| seen_view(old(seen)@).contains(k) && differs(*old_data, *new_data, k) ==> exists|i: int|
            0 <= i < old(changes)@.len() && #[trigger] old(changes)@[i].field@ == k,
    ensures
        seen_view(final(seen)@).no_duplicates(),
        seen_view(final(seen)@).contains(key@),
        forall|k: Seq<char>| seen_view(old(seen)@).contains(k) ==> seen_view(final(seen)@).contains(k),
        forall|i: int| 0 <= i < final(changes)@.len() ==> faithful_change(#[trigger] final(changes)@[i], *old_data, *new_data)
            && seen_view(final(seen)@).contains(final(changes)@[i].field@),
        forall|i: int, j: int| 0 <= i < j < final(changes)@.len() ==> final(changes)@[i].field@ != final(changes)@[j].field@,
        forall|k: Seq<char>| seen_view(final(seen)@).contains(k) && differs(*old_data, *new_data, k) ==> exists|i: int|
            0 <= i < final(changes)@.len() && #[trigger] final(changes)@[i].field@ == k,
{
    if is_seen(seen, key) {
        return;
    }
    let ghost seen0 = seen_view(seen@);
    let ghost changes0 = changes@;
    seen.push(key.clone());
    assert(seen_view(seen@) =~= seen0.push(key@));
    assert(seen0.push(key@)[seen0.len() as int] == key@);
    assert forall|k: Seq<char>| seen0.contains(k) implies #[trigger] seen_view(seen@).contains(k) by {
        let t = choose|t: int| 0 <= t < seen0.len() && seen0[t] == k;
        assert(seen_view(seen@)[t] == k);
    }
    let ov = old_data.get(key.as_str());
    let nv = new_data.get(key.as_str());
    if !same_option(ov, nv) {
        let c = FieldChange { field: key.clone(), old_value: copy_of(ov), new_value: copy_of(nv) };
        changes.push(c);
        assert(changes@[changes0.len() as int] == c);
        assert forall|i: int| 0 <= i < changes@.len() implies faithful_change(#[trigger] changes@[i], *old_data, *new_data)
            && seen_view(seen@).contains(changes@[i].field@) by {
            if i < changes0.len() {
                assert(changes@[i] == changes0[i]);
                assert(seen0.contains(changes0[i].field@));
            }
        }
        assert forall|k: Seq<char>| seen_view(seen@).contains(k) && differs(*old_data, *new_data, k) implies exists|i: int|
            0 <= i < changes@.len() && #[trigger] changes@[i].field@ == k by {
            if k == key@ {
                assert(changes@[changes0.len() as int].field@ == k);
            } else {
                assert(seen0.contains(k));
                let i = choose|i: int| 0 <= i < changes0.len() && #[trigger] changes0[i].field@ == k;
                assert(changes@[i] == changes0[i]);
            }
        }
    } else {
        assert forall|k: Seq<char>| seen_view(seen@).contains(k) && differs(*old_data, *new_data, k) implies exists|i: int|
            0 <= i < changes@.len() && #[trigger] changes@[i].field@ == k by {
            if k != key@ {
                assert(seen0.contains(k));
            }
        }
    }
}

/// The fields on which two records differ: every field of either record
/// whose value is not the same in both, once each, with its old and new
/// value.
pub fn compute_changes(old_data: &Record, new_data: &Record) -> (r: Vec<FieldChange>)
    ensures
        forall|i: int| 0 <= i < r@.len() ==> faithful_change(#[trigger] r@[i], *old_data, *new_data),
        forall|i: int, j: int| 0 <= i < j < r@.len() ==> r@[i].field@ != r@[j].field@,
        forall|k: Seq<char>| (has_key(*old_data, k) || has_key(*new_data, k)) && differs(*old_data, *new_data, k)
            ==> exists|i: int| 0 <= i < r@.len() && #[trigger] r@[i].field@ == k,
{
    let mut seen: Vec<String> = Vec::new();
    let mut changes: Vec<FieldChange> = Vec::new();
    assert(seen_view(seen@) =~= Seq::<Seq<char>>::empty());
    let mut i: usize = 0;
    while i < old_data.entries.len()
        invariant
            i <= old_data.entries@.len(),
            seen_view(seen@).no_duplicates(),
            forall|t: int| 0 <= t < changes@.len() ==> faithful_change(#[trigger] changes@[t], *old_data, *new_data)
                && seen_view(seen@).contains(changes@[t].field@),
            forall|t: int, u: int| 0 <= t < u < changes@.len() ==> changes@[t].field@ != changes@[u].field@,
            forall|k: Seq<char>| seen_view(seen@).contains(k) && differs(*old_data, *new_data, k) ==> exists|t: int|
                0 <= t < changes@.len() && #[trigger] changes@[t].field@ == k,
            forall|t: int| 0 <= t < i ==> seen_view(seen@).contains(#[trigger] old_data.entries@[t].0@),
        decreases old_data.entries.len() - i,
    {
        consider(&old_data.entries[i].0, old_data, new_data, &mut seen, &mut changes);
        i = i + 1;
    }
    let mut j: usize = 0;
    while j < new_data.entries.len()
        invariant
            j <= new_data.entries@.len(),
            seen_view(seen@).no_duplicates(),
            forall|t: int| 0 <= t < changes@.len() ==> faithful_change(#[trigger] changes@[t], *old_data, *new_data)
                && seen_view(seen@).contains(changes@[t].field@),
            forall|t: int, u: int| 0 <= t < u < changes@.len() ==> changes@[t].field@ != changes@[u].field@,
            forall|k: Seq<char>| seen_view(seen@).contains(k) && differs(*old_data, *new_data, k) ==> exists|t: int|
                0 <= t < changes@.len() && #[trigger] changes@[t].field@ == k,
            forall|t: int| 0 <= t < old_data.entries@.len() ==> seen_view(seen@).contains(#[trigger] old_data.entries@[t].0@),
            forall|t: int| 0 <= t < j ==> seen_view(seen@).contains(#[trigger] new_data.entries@[t].0@),
        decreases new_data.entries.len() - j,
    {
        consider(&new_data.entries[j].0, old_data, new_data, &mut seen, &mut changes);
        j = j + 1;
    }
    changes
}

impl AuditLogger {
    /// Whether a section's audit settings ask for an entry for this
    /// operation; reads are never audited, and neither is a section without
    /// settings.
    pub fn should_audit(audit_config: &Option<AuditConfig>, operation: &AuditOperation) -> (r: bool)
        ensures
            r == match audit_config {
                Some(c) => match operation {
                    AuditOperation::Create => c.track_created,
                    AuditOperation::Update => c.track_updated,
                    AuditOperation::Delete => c.track_deleted,
                    AuditOperation::Read => false,
                },
                None => false,
            },
    {
        match audit_config {
            Some(config) => match operation {
                AuditOperation::Create => config.track_created,
                AuditOperation::Update => config.track_updated,
                AuditOperation::Delete => config.track_deleted,
                AuditOperation::Read => false,
            },
            None => false,
        }
    }

    /// An entry for a created record: every field is a change from absent to
    /// its value.
    pub fn create_entry(section_id: String, record_id: Option<String>, data: &Record, user_id: Option<String>) -> (r: AuditLogEntry)
        ensures
            r.operation is Create,
            r.section_id == section_id,
            r.record_id == record_id,
            r.user_id == user_id,
            r.old_values is None,
            r.new_values is Some,
            r.changes@.len() == data.entries@.len(),
            forall|i: int| 0 <= i < r.changes@.len() ==> (#[trigger] r.changes@[i]).field@ == data.entries@[i].0@
                && r.changes@[i].old_value is None && opt_same(r.changes@[i].new_value, Some(data.entries@[i].1)),
            r.metadata@.len() == 0,
    {
        let mut changes: Vec<FieldChange> = Vec::new();
        let mut i: usize = 0;
        while i < data.entries.len()
            invariant
                i <= data.entries@.len(),
                changes@.len() == i,
                forall|t: int| 0 <= t < i ==> (#[trigger] changes@[t]).field@ == data.entries@[t].0@
                    && changes@[t].old_value is None && opt_same(changes@[t].new_value, Some(data.entries@[t].1)),
            decreases data.entries.len() - i,
        {
            let v = data.entries[i].1.deep_copy();
            changes.push(FieldChange { field: data.entries[i].0.clone(), old_value: None, new_value: Some(v) });
            i = i + 1;
        }
        AuditLogEntry {
            id: fresh_uuid(),
            timestamp: current_clock().now,
            operation: AuditOperation::Create,
            section_id,
            record_id,
            user_id,
            old_values: None,
            new_values: Some(data.clone()),
            changes,
            metadata: Vec::new(),
        }
    }

    /// An entry for an updated record, with the fields that changed.
    pub fn update_entry(
        section_id: String,
        record_id: String,
        old_data: &Record,
        new_data: &Record,
        user_id: Option<String>,
    ) -> (r: AuditLogEntry)
        ensures
            r.operation is Update,
            r.section_id == section_id,
            r.record_id == Some(record_id),
            r.user_id == user_id,
            r.old_values is Some,
            r.new_values is Some,
            forall|i: int| 0 <= i < r.changes@.len() ==> faithful_change(#[trigger] r.changes@[i], *old_data, *new_data),
            forall|i: int, j: int| 0 <= i < j < r.changes@.len() ==> r.changes@[i].field@ != r.changes@[j].field@,
            forall|k: Seq<char>| (has_key(*old_data, k) || has_key(*new_data, k)) && differs(*old_data, *new_data, k)
                ==> exists|i: int| 0 <= i < r.changes@.len() && #[trigger] r.changes@[i].field@ == k,
    {
        let changes = compute_changes(old_data, new_data);
        AuditLogEntry {
            id: fresh_uuid(),
            timestamp: current_clock().now,
            operation: AuditOperation::Update,
            section_id,
            record_id: Some(record_id),
            user_id,
            old_values: Some(old_data.clone()),
            new_values: Some(new_data.clone()),
            changes,
            metadata: Vec::new(),
        }
    }

    /// An entry for a deleted record: every field it held, when known, is a
    /// change from its value to absent.
    pub fn delete_entry(section_id: String, record_id: String, old_data: Option<&Record>, user_id: Option<String>) -> (r: AuditLogEntry)
        ensures
            r.operation is Delete,
            r.section_id == section_id,
            r.record_id == Some(record_id),
            r.user_id == user_id,
            r.new_values is None,
            r.old_values is Some == old_data is Some,
            match old_data {
                Some(d) => r.changes@.len() == d.entries@.len() && forall|i: int| 0 <= i < r.changes@.len()
                    ==> (#[trigger] r.changes@[i]).field@ == d.entries@[i].0@ && r.changes@[i].new_value is None
                    && opt_same(r.changes@[i].old_value, Some(d.entries@[i].1)),
                None => r.changes@.len() == 0,
            },
    {
        let mut changes: Vec<FieldChange> = Vec::new();
        let old_values = match old_data {
            Some(d) => {
                let mut i: usize = 0;
                while i < d.entries.len()
                    invariant
                        i <= d.entries@.len(),
                        changes@.len() == i,
                        forall|t: int| 0 <= t < i ==> (#[trigger] changes@[t]).field@ == d.entries@[t].0@
                            && changes@[t].new_value is None && opt_same(changes@[t].old_value, Some(d.entries@[t].1)),
                    decreases d.entries.len() - i,
                {
                    let v = d.entries[i].1.deep_copy();
                    changes.push(FieldChange { field: d.entries[i].0.clone(), old_value: Some(v), new_value: None });
                    i = i + 1;
                }
                Some(d.clone())
            },
            None => None,
        };
        AuditLogEntry {
            id: fresh_uuid(),
            timestamp: current_clock().now,
            operation: AuditOperation::Delete,
            section_id,
            record_id: Some(record_id),
            user_id,
            old_values,
            new_values: None,
            changes,
            metadata: Vec::new(),
        }
    }
}

} // verus!
