use vstd::prelude::*;

verus! {

broadcast use vstd::std_specs::vec::group_vec_axioms;

/// A semi-structured value: the currency of records between the engine and
/// its backends. Numbers are whole numbers.
#[derive(Debug)]
pub enum Value {
    Null,
    Bool(bool),
    Number(i64),
    String(String),
    Array(Vec<Value>),
    Object(Vec<(String, Value)>),
}

/// Two values are the same when they have the same shape and the same
/// scalars; strings compare by their characters, objects entry by entry.
pub open spec fn same_value(a: Value, b: Value) -> bool
    decreases a,
{
    match a {
        Value::Null => b is Null,
        Value::Bool(x) => b is Bool && b->Bool_0 == x,
        Value::Number(x) => b is Number && b->Number_0 == x,
        Value::String(x) => b is String && b->String_0@ == x@,
        Value::Array(xs) => b is Array && xs.len() == b->Array_0.len() && forall|i: int|
            0 <= i < xs.len() ==> same_value(#[trigger] xs[i], b->Array_0[i]),
        Value::Object(xs) => b is Object && xs.len() == b->Object_0.len() && forall|i: int|
            0 <= i < xs.len() ==> (#[trigger] xs[i]).0@ == b->Object_0[i].0@ && same_value(
                xs[i].1,
                b->Object_0[i].1,
            ),
    }
}

/// Tells whether two values are the same.
pub fn values_equal(a: &Value, b: &Value) -> (r: bool)
    ensures
        r == same_value(*a, *b),
    decreases a,
{
    match a {
        Value::Null => match b {
            Value::Null => true,
            _ => false,
        },
        Value::Bool(x) => match b {
            Value::Bool(y) => *x == *y,
            _ => false,
        },
        Value::Number(x) => match b {
            Value::Number(y) => *x == *y,
            _ => false,
        },
        Value::String(x) => match b {
            Value::String(y) => x.eq(y),
            _ => false,
        },
        Value::Array(xs) => match b {
            Value::Array(ys) => {
                if xs.len() != ys.len() {
                    return false;
                }
                let mut i: usize = 0;
                while i < xs.len()
                    invariant
                        xs.len() == ys.len(),
                        i <= xs.len(),
                        *a == Value::Array(*xs),
                        *b == Value::Array(*ys),
                        forall|j: int| 0 <= j < i ==> same_value(#[trigger] xs[j], ys[j]),
                    decreases xs.len() - i,
                {
                    proof {
                        assert(decreases_to!(*a => (*a)->Array_0));
                        assert(decreases_to!(*xs => xs@));
                        assert(decreases_to!(xs@ => xs@[i as int]));
                    }
                    if !values_equal(&xs[i], &ys[i]) {
                        assert(!same_value(xs[i as int], ys[i as int]));
                        return false;
                    }
                    i = i + 1;
                }
                true
            },
            _ => false,
        },
        Value::Object(xs) => match b {
            Value::Object(ys) => {
                if xs.len() != ys.len() {
                    return false;
                }
                let mut i: usize = 0;
                while i < xs.len()
                    invariant
                        xs.len() == ys.len(),
                        i <= xs.len(),
                        *a == Value::Object(*xs),
                        *b == Value::Object(*ys),
                        forall|j: int|
                            0 <= j < i ==> (#[trigger] xs[j]).0@ == ys[j].0@ && same_value(
                                xs[j].1,
                                ys[j].1,
                            ),
                    decreases xs.len() - i,
                {
                    proof {
                        assert(decreases_to!(*a => (*a)->Object_0));
                        assert(decreases_to!(*xs => xs@));
                        assert(decreases_to!(xs@ => xs@[i as int]));
                        assert(decreases_to!(xs@[i as int] => xs@[i as int].1));
                    }
                    if !xs[i].0.eq(&ys[i].0) {
                        assert(xs[i as int].0@ != ys[i as int].0@);
                        return false;
                    }
                    if !values_equal(&xs[i].1, &ys[i].1) {
                        assert(!same_value(xs[i as int].1, ys[i as int].1));
                        return false;
                    }
                    i = i + 1;
                }
                true
            },
            _ => false,
        },
    }
}


impl Value {
    /// The characters of a string value.
    pub open spec fn str_of(self) -> Option<Seq<char>> {
        match self {
            Value::String(s) => Some(s@),
            _ => None,
        }
    }

    pub fn is_array(&self) -> (r: bool)
        ensures
            r == (*self is Array),
    {
        match self {
            Value::Array(_) => true,
            _ => false,
        }
    }

    pub fn is_object(&self) -> (r: bool)
        ensures
            r == (*self is Object),
    {
        match self {
            Value::Object(_) => true,
            _ => false,
        }
    }

    pub fn is_null(&self) -> (r: bool)
        ensures
            r == (*self is Null),
    {
        match self {
            Value::Null => true,
            _ => false,
        }
    }

    pub fn as_str(&self) -> (r: Option<&String>)
        ensures
            r is Some <==> *self is String,
            r is Some ==> self.str_of() == Some(r->Some_0@),
    {
        match self {
            Value::String(s) => Some(s),
            _ => None,
        }
    }

    /// A copy of this value.
    pub fn deep_copy(&self) -> (r: Value)
        ensures
            same_value(r, *self),
        decreases self,
    {
        match self {
            Value::Null => Value::Null,
            Value::Bool(x) => Value::Bool(*x),
            Value::Number(x) => Value::Number(*x),
            Value::String(x) => Value::String(x.clone()),
            Value::Array(xs) => {
                let mut out: Vec<Value> = Vec::new();
                let mut i: usize = 0;
                while i < xs.len()
                    invariant
                        i <= xs.len(),
                        out.len() == i,
                        *self == Value::Array(*xs),
                        forall|j: int| 0 <= j < i ==> same_value(#[trigger] out[j], xs[j]),
                    decreases xs.len() - i,
                {
                    proof {
                        assert(decreases_to!(*self => (*self)->Array_0));
                        assert(decreases_to!(*xs => xs@));
                        assert(decreases_to!(xs@ => xs@[i as int]));
                    }
                    let v = xs[i].deep_copy();
                    out.push(v);
                    i = i + 1;
                }
                Value::Array(out)
            },
            Value::Object(xs) => {
                let mut out: Vec<(String, Value)> = Vec::new();
                let mut i: usize = 0;
                while i < xs.len()
                    invariant
                        i <= xs.len(),
                        out.len() == i,
                        *self == Value::Object(*xs),
                        forall|j: int|
                            0 <= j < i ==> (#[trigger] out[j]).0@ == xs[j].0@ && same_value(
                                out[j].1,
                                xs[j].1,
                            ),
                    decreases xs.len() - i,
                {
                    proof {
                        assert(decreases_to!(*self => (*self)->Object_0));
                        assert(decreases_to!(*xs => xs@));
                        assert(decreases_to!(xs@ => xs@[i as int]));
                        assert(decreases_to!(xs@[i as int] => xs@[i as int].1));
                    }
                    let v = xs[i].1.deep_copy();
                    out.push((xs[i].0.clone(), v));
                    i = i + 1;
                }
                Value::Object(out)
            },
        }
    }
}

impl Clone for Value {
    fn clone(&self) -> (r: Self)
        ensures
            same_value(r, *self),
    {
        self.deep_copy()
    }
}

/// Two optional values are the same when both are absent or both hold the
/// same value.
pub open spec fn opt_same(a: Option<Value>, b: Option<Value>) -> bool {
    match (a, b) {
        (None, None) => true,
        (Some(x), Some(y)) => same_value(x, y),
        _ => false,
    }
}

/// The value that an entry list holds for `key`: the first entry with that key.
pub open spec fn lookup(entries: Seq<(String, Value)>, key: Seq<char>) -> Option<Value>
    decreases entries.len(),
{
    if entries.len() == 0 {
        None
    } else if entries[0].0@ == key {
        Some(entries[0].1)
    } else {
        lookup(entries.drop_first(), key)
    }
}

proof fn lemma_lookup_push(entries: Seq<(String, Value)>, e: (String, Value), key: Seq<char>)
    ensures
        lookup(entries.push(e), key) == (if lookup(entries, key) is Some {
            lookup(entries, key)
        } else if e.0@ == key {
            Some(e.1)
        } else {
            None
        }),
    decreases entries.len(),
{
    if entries.len() > 0 {
        assert(entries.push(e).drop_first() =~= entries.drop_first().push(e));
        assert(entries.push(e)[0] == entries[0]);
        lemma_lookup_push(entries.drop_first(), e, key);
    } else {
        assert(entries.push(e).drop_first() =~= entries);
    }
}

proof fn lemma_lookup_update(entries: Seq<(String, Value)>, i: int, e: (String, Value), key: Seq<char>)
    requires
        0 <= i < entries.len(),
        entries[i].0@ == e.0@,
        forall|j: int| 0 <= j < i ==> entries[j].0@ != e.0@,
    ensures
        lookup(entries.update(i, e), key) == (if e.0@ == key { Some(e.1) } else { lookup(entries, key) }),
    decreases entries.len(),
{
    if i > 0 {
        assert(entries.update(i, e).drop_first() =~= entries.drop_first().update(i - 1, e));
        assert(entries.update(i, e)[0] == entries[0]);
        lemma_lookup_update(entries.drop_first(), i - 1, e, key);
    } else {
        assert(entries.update(0, e).drop_first() =~= entries.drop_first());
    }
}

/// The position of the first entry with `key`.
pub fn entry_position(entries: &Vec<(String, Value)>, key: &str) -> (r: Option<usize>)
    ensures
        match r {
            Some(i) => i < entries@.len() && entries@[i as int].0@ == key@
                && lookup(entries@, key@) == Some(entries@[i as int].1)
                && forall|j: int| 0 <= j < i ==> entries@[j].0@ != key@,
            None => lookup(entries@, key@) is None,
        },
{
    let mut i: usize = 0;
    assert(entries@.subrange(0, entries@.len() as int) =~= entries@);
    while i < entries.len()
        invariant
            i <= entries@.len(),
            forall|j: int| 0 <= j < i ==> entries@[j].0@ != key@,
            lookup(entries@, key@) == lookup(entries@.subrange(i as int, entries@.len() as int), key@),
        decreases entries.len() - i,
    {
        let ghost rest = entries@.subrange(i as int, entries@.len() as int);
        if crate::text::str_eq(entries[i].0.as_str(), key) {
            return Some(i);
        }
        assert(rest.drop_first() =~= entries@.subrange(i + 1, entries@.len() as int));
        i = i + 1;
    }
    None
}


proof fn lemma_lookup_copy(a: Seq<(String, Value)>, b: Seq<(String, Value)>, key: Seq<char>)
    requires
        a.len() == b.len(),
        forall|j: int| 0 <= j < a.len() ==> (#[trigger] a[j]).0@ == b[j].0@ && same_value(a[j].1, b[j].1),
    ensures
        opt_same(lookup(a, key), lookup(b, key)),
    decreases a.len(),
{
    if a.len() > 0 {
        assert(a[0].0@ == b[0].0@ && same_value(a[0].1, b[0].1));
        assert forall|j: int| 0 <= j < a.drop_first().len() implies (#[trigger] a.drop_first()[j]).0@ == b.drop_first()[j].0@
            && same_value(a.drop_first()[j].1, b.drop_first()[j].1) by {
            assert(a.drop_first()[j] == a[j + 1]);
            assert(b.drop_first()[j] == b[j + 1]);
        }
        lemma_lookup_copy(a.drop_first(), b.drop_first(), key);
    }
}

/// A record: field names mapped to values. A name stands at most once when
/// the record is built with `insert`; where it stands more than once, the
/// first entry counts.
#[derive(Clone, Debug)]
pub struct Record {
    pub entries: Vec<(String, Value)>,
}

impl Record {
    pub open spec fn get_spec(&self, key: Seq<char>) -> Option<Value> {
        lookup(self.entries@, key)
    }

    pub fn new() -> (r: Record)
        ensures
            r.entries@.len() == 0,
    {
        Record { entries: Vec::new() }
    }

    pub fn len(&self) -> (r: usize)
        ensures
            r == self.entries@.len(),
    {
        self.entries.len()
    }

    pub(crate) fn position(&self, key: &str) -> (r: Option<usize>)
        ensures
            match r {
                Some(i) => i < self.entries@.len() && self.entries@[i as int].0@ == key@
                    && self.get_spec(key@) == Some(self.entries@[i as int].1)
                    && forall|j: int| 0 <= j < i ==> self.entries@[j].0@ != key@,
                None => self.get_spec(key@) is None,
            },
    {
        entry_position(&self.entries, key)
    }

    /// The value held for `key`, if any.
    pub fn get(&self, key: &str) -> (r: Option<&Value>)
        ensures
            match r {
                Some(v) => self.get_spec(key@) == Some(*v),
                None => self.get_spec(key@) is None,
            },
    {
        match self.position(key) {
            Some(i) => Some(&self.entries[i].1),
            None => None,
        }
    }

    /// Sets the value of `key`, in place of the one it held if any.
    pub fn insert(&mut self, key: String, value: Value)
        ensures
            final(self).get_spec(key@) == Some(value),
            forall|k: Seq<char>| k != key@ ==> final(self).get_spec(k) == old(self).get_spec(k),
    {
        let ghost e = (key, value);
        match self.position(key.as_str()) {
            Some(i) => {
                proof {
                    assert forall|k: Seq<char>| true implies lookup(self.entries@.update(i as int, e), k) == (if key@ == k {
                        Some(value)
                    } else {
                        lookup(self.entries@, k)
                    }) by {
                        lemma_lookup_update(self.entries@, i as int, e, k);
                    }
                }
                self.entries.set(i, (key, value));
            },
            None => {
                proof {
                    assert forall|k: Seq<char>| true implies lookup(self.entries@.push(e), k) == (if lookup(self.entries@, k) is Some {
                        lookup(self.entries@, k)
                    } else if key@ == k {
                        Some(value)
                    } else {
                        None
                    }) by {
                        lemma_lookup_push(self.entries@, e, k);
                    }
                }
                self.entries.push((key, value));
            },
        }
    }

    /// A copy of this record: the same names, in order, with the same values.
    pub fn deep_copy(&self) -> (r: Record)
        ensures
            forall|k: Seq<char>| #[trigger] opt_same(r.get_spec(k), self.get_spec(k)),
    {
        let mut entries: Vec<(String, Value)> = Vec::new();
        let mut i: usize = 0;
        while i < self.entries.len()
            invariant
                i <= self.entries@.len(),
                entries@.len() == i,
                forall|j: int| 0 <= j < i ==> (#[trigger] entries@[j]).0@ == self.entries@[j].0@ && same_value(
                    entries@[j].1,
                    self.entries@[j].1,
                ),
            decreases self.entries.len() - i,
        {
            entries.push((self.entries[i].0.clone(), self.entries[i].1.deep_copy()));
            i = i + 1;
        }
        let r = Record { entries };
        proof {
            assert forall|k: Seq<char>| #[trigger] opt_same(r.get_spec(k), self.get_spec(k)) by {
                lemma_lookup_copy(r.entries@, self.entries@, k);
            }
        }
        r
    }

    pub fn contains_key(&self, key: &str) -> (r: bool)
        ensures
            r == self.get_spec(key@) is Some,
    {
        self.position(key).is_some()
    }
}

} // verus!
