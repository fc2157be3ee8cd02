use vstd::prelude::*;
use vstd::string::{StrSliceExecFns, StringExecFns};

use crate::text::{decimal, push_char, str_eq, write_decimal};
use crate::value::{entry_position, lookup, opt_same, Record, Value};

verus! {

/// Pagination parameters for data source queries: the page (counted from
/// one), its size, and how many records precede it.
#[derive(Clone, Copy, Debug)]
pub struct PaginationParams {
    pub page: usize,
    pub page_size: usize,
    pub offset: usize,
}

impl PaginationParams {
    pub fn new(page: usize, page_size: usize) -> (r: Self)
        requires
            page >= 1,
            (page - 1) * page_size <= usize::MAX,
        ensures
            r.page == page,
            r.page_size == page_size,
            r.offset == (page - 1) * page_size,
    {
        let offset = (page - 1) * page_size;
        PaginationParams { page, page_size, offset }
    }
}

/// The records of one page of a full result: at most `size` records after
/// the first `offset`.
pub open spec fn page_of(rows: Seq<Record>, offset: int, size: int) -> Seq<Record> {
    let start = if offset < rows.len() { offset } else { rows.len() as int };
    let end = if start + size < rows.len() { start + size } else { rows.len() as int };
    rows.subrange(start, end)
}

/// A sequence without its first `n` elements.
pub open spec fn drop_front(rows: Seq<Record>, n: int) -> Seq<Record> {
    if n < rows.len() { rows.subrange(n, rows.len() as int) } else { Seq::empty() }
}

/// The page a pagination asks for, cut from a full result.
pub fn paginate(rows: Vec<Record>, pagination: &PaginationParams) -> (r: Vec<Record>)
    ensures
        r@ == page_of(rows@, pagination.offset as int, pagination.page_size as int),
{
    let mut rows = rows;
    let n = rows.len();
    let start = if pagination.offset < n { pagination.offset } else { n };
    let mut page = rows.split_off(start);
    if pagination.page_size < page.len() {
        page.truncate(pagination.page_size);
    }
    page
}

/// Pagination round trip: for a result that does not change, a page of
/// `size` records after `offset` is what a first page of `offset + size`
/// records holds once its first `offset` records are dropped; so page two of
/// ten is page one of twenty without its first ten.
pub proof fn pagination_round_trip(rows: Seq<Record>, offset: int, size: int)
    requires
        offset >= 0,
        size >= 0,
    ensures
        page_of(rows, offset, size) == drop_front(page_of(rows, 0, offset + size), offset),
{
    assert(page_of(rows, offset, size) =~= drop_front(page_of(rows, 0, offset + size), offset));
}

/// A text without the semicolons that end it.
pub open spec fn trim_semicolons(s: Seq<char>) -> Seq<char>
    decreases s.len(),
{
    if s.len() > 0 && s.last() == ';' { trim_semicolons(s.drop_last()) } else { s }
}

/// The SQL a relational backend runs for a paginated read: the query without
/// its closing semicolons, then LIMIT and OFFSET.
pub open spec fn paginated_sql(query: Seq<char>, pagination: Option<PaginationParams>) -> Seq<char> {
    match pagination {
        Some(p) => trim_semicolons(query) + " LIMIT "@ + decimal(p.page_size as nat) + " OFFSET "@ + decimal(p.offset as nat),
        None => query,
    }
}

/// Writes the SQL for a paginated read.
pub fn sql_with_pagination(query: &str, pagination: Option<&PaginationParams>) -> (r: String)
    ensures
        r@ == paginated_sql(query@, match pagination { Some(p) => Some(*p), None => None }),
{
    match pagination {
        None => String::from_str(query),
        Some(p) => {
            let n = query.unicode_len();
            let mut end: usize = n;
            assert(query@.subrange(0, n as int) =~= query@);
            while end > 0 && query.get_char(end - 1) == ';'
                invariant
                    n == query@.len(),
                    end <= n,
                    trim_semicolons(query@) == trim_semicolons(query@.subrange(0, end as int)),
                decreases end,
            {
                assert(query@.subrange(0, end as int).drop_last() =~= query@.subrange(0, end - 1));
                end = end - 1;
            }
            proof {
                assert(query@.subrange(0, n as int) =~= query@);
            }
            let base = String::from_str(query.substring_char(0, end));
            base.concat(" LIMIT ").concat(write_decimal(p.page_size as u128).as_str()).concat(" OFFSET ").concat(
                write_decimal(p.offset as u128).as_str(),
            )
        },
    }
}

/// The item range a Range header asks for, as `first-last`.
pub fn range_header(pagination: &PaginationParams) -> (r: String)
    requires
        pagination.page_size >= 1,
        pagination.offset + pagination.page_size - 1 <= usize::MAX,
    ensures
        r@ == decimal(pagination.offset as nat) + "-"@ + decimal((pagination.offset + pagination.page_size - 1) as nat),
{
    let last = pagination.offset + (pagination.page_size - 1);
    write_decimal(pagination.offset as u128).concat("-").concat(write_decimal(last as u128).as_str())
}

/// The records an array of values holds: its objects, in order; other
/// elements are passed over.
pub open spec fn objects_of(items: Seq<Value>) -> Seq<Record>
    decreases items.len(),
{
    if items.len() == 0 {
        Seq::empty()
    } else {
        match items.last() {
            Value::Object(o) => objects_of(items.drop_last()).push(Record { entries: o }),
            _ => objects_of(items.drop_last()),
        }
    }
}

/// Takes the objects out of an array of values.
pub fn records_of(items: Vec<Value>) -> (r: Vec<Record>)
    ensures
        r@ == objects_of(items@),
{
    let ghost all = items@;
    let mut items = items;
    let total = items.len();
    assert(all.len() == total);
    let mut out: Vec<Record> = Vec::new();
    let mut i: usize = 0;
    while items.len() > 0
        invariant
            i <= all.len(),
            all.len() <= usize::MAX,
            items@ == all.subrange(i as int, all.len() as int),
            out@ == objects_of(all.subrange(0, i as int)),
        decreases items.len(),
    {
        assert(items@.len() == all.len() - i);
        let x = items.remove(0);
        assert(all.subrange(0, i + 1).drop_last() =~= all.subrange(0, i as int));
        assert(items@ =~= all.subrange(i + 1, all.len() as int));
        match x {
            Value::Object(o) => out.push(Record { entries: o }),
            _ => {},
        }
        i = i + 1;
    }
    assert(all.subrange(0, all.len() as int) =~= all);
    out
}

/// The records a REST response carries: the objects of a top-level array;
/// for an object, the objects of its `data` array when it has one, else the
/// object itself. Any other response is refused.
pub open spec fn response_records(v: Value) -> Option<Seq<Record>> {
    match v {
        Value::Array(items) => Some(objects_of(items@)),
        Value::Object(o) => match lookup(o@, "data"@) {
            Some(Value::Array(items)) => Some(objects_of(items@)),
            _ => Some(seq![Record { entries: o }]),
        },
        _ => None,
    }
}

/// Normalizes a REST response into records.
pub fn records_from_response(v: Value) -> (r: Result<Vec<Record>, DataSourceError>)
    ensures
        match response_records(v) {
            Some(rows) => r matches Ok(out) && out@ == rows,
            None => r is Err,
        },
{
    match v {
        Value::Array(items) => Ok(records_of(items)),
        Value::Object(o) => {
            let mut rec = Record { entries: o };
            match rec.position("data") {
                Some(i) => {
                    if rec.entries[i].1.is_array() {
                        let (_, data) = rec.entries.remove(i);
                        match data {
                            Value::Array(items) => Ok(records_of(items)),
                            _ => Ok(Vec::new()),
                        }
                    } else {
                        Ok(vec![rec])
                    }
                },
                None => Ok(vec![rec]),
            }
        },
        _ => Err(DataSourceError { message: String::from_str("Unexpected API response format") }),
    }
}

/// The records a key-value, object-storage or socket payload stands for: a
/// JSON object is one record, a JSON array its objects; any other text is one
/// record that holds it under `field`.
pub open spec fn payload_records(text: Seq<char>, parsed: Option<Value>, field: Seq<char>) -> Seq<Record> {
    match parsed {
        Some(Value::Object(o)) => seq![Record { entries: o }],
        Some(Value::Array(items)) => objects_of(items@),
        _ => seq![],
    }
}

/// Whether a payload stands as text rather than as JSON.
pub open spec fn payload_is_text(parsed: Option<Value>) -> bool {
    !(parsed matches Some(Value::Object(_))) && !(parsed matches Some(Value::Array(_)))
}

/// Turns a payload, and what parsing it as JSON gave, into records.
pub fn records_from_payload(text: String, parsed: Option<Value>, field: &str) -> (r: Vec<Record>)
    ensures
        payload_is_text(parsed) ==> r@.len() == 1 && r@[0].entries@.len() == 1 && r@[0].entries@[0].0@ == field@
            && r@[0].entries@[0].1 == Value::String(text),
        !payload_is_text(parsed) ==> r@ == payload_records(text@, parsed, field@),
{
    match parsed {
        Some(Value::Object(o)) => vec![Record { entries: o }],
        Some(Value::Array(items)) => records_of(items),
        _ => {
            let mut entries: Vec<(String, Value)> = Vec::new();
            entries.push((String::from_str(field), Value::String(text)));
            vec![Record { entries }]
        },
    }
}

/// What the engine does after a failed attempt of a network call: wait and
/// try again, or give up.
#[derive(Clone, Copy, Debug)]
pub enum RetryStep {
    RetryAfterMs(u64),
    GiveUp,
}

/// The wait before attempt `attempt` (the first retry being attempt one):
/// a base of 100 ms doubled with each attempt.
pub open spec fn backoff_ms(attempt: nat) -> int {
    (vstd::arithmetic::power2::pow2(attempt) * 100) as int
}

/// After attempt `attempt` (counted from zero) failed, retry while fewer
/// than `max_retries` retries were made, after the doubled delay.
pub fn after_failed_attempt(attempt: u32, max_retries: u32) -> (r: RetryStep)
    requires
        max_retries <= 57,
    ensures
        attempt < max_retries ==> r == RetryStep::RetryAfterMs((backoff_ms((attempt + 1) as nat)) as u64),
        attempt >= max_retries ==> r is GiveUp,
{
    if attempt < max_retries {
        let next = attempt + 1;
        let mut delay: u64 = 100;
        let mut k: u32 = 0;
        proof {
            vstd::arithmetic::power2::lemma2_to64();
            vstd::arithmetic::power2::lemma2_to64_rest();
        }
        while k < next
            invariant
                k <= next,
                next <= 57,
                delay as int == vstd::arithmetic::power2::pow2(k as nat) * 100,
                vstd::arithmetic::power2::pow2(57) == 0x200000000000000,
            decreases next - k,
        {
            proof {
                vstd::arithmetic::power2::lemma_pow2_unfold((k + 1) as nat);
                if k + 1 < 57 {
                    vstd::arithmetic::power2::lemma_pow2_strictly_increases((k + 1) as nat, 57);
                }
            }
            delay = delay * 2;
            k = k + 1;
        }
        RetryStep::RetryAfterMs(delay)
    } else {
        RetryStep::GiveUp
    }
}

/// Whether a search or document query asks for everything: an empty query
/// or an empty JSON object.
pub fn matches_everything(query: &str) -> (r: bool)
    ensures
        r == (query@.len() == 0 || query@ == "{}"@),
{
    query.unicode_len() == 0 || str_eq(query, "{}")
}

/// The search body that matches every document: `{"query": {"match_all": {}}}`.
pub fn match_all_search() -> (r: Value)
    ensures
        r matches Value::Object(o) && o@.len() == 1 && o@[0].0@ == "query"@ && (o@[0].1 matches Value::Object(q)
            && q@.len() == 1 && q@[0].0@ == "match_all"@ && (q@[0].1 matches Value::Object(e) && e@.len() == 0)),
{
    let mut inner: Vec<(String, Value)> = Vec::new();
    inner.push((String::from_str("match_all"), Value::Object(Vec::new())));
    let mut outer: Vec<(String, Value)> = Vec::new();
    outer.push((String::from_str("query"), Value::Object(inner)));
    Value::Object(outer)
}

/// The messages of a GraphQL response's `errors` array: the `message` text
/// of each error object that has one.
pub open spec fn error_messages(v: Value) -> Seq<Seq<char>> {
    match v {
        Value::Object(o) => match lookup(o@, "errors"@) {
            Some(Value::Array(es)) => messages_of(es@),
            _ => Seq::empty(),
        },
        _ => Seq::empty(),
    }
}

pub open spec fn messages_of(es: Seq<Value>) -> Seq<Seq<char>>
    decreases es.len(),
{
    if es.len() == 0 {
        Seq::empty()
    } else {
        match es.last() {
            Value::Object(eo) => match lookup(eo@, "message"@) {
                Some(Value::String(m)) => messages_of(es.drop_last()).push(m@),
                _ => messages_of(es.drop_last()),
            },
            _ => messages_of(es.drop_last()),
        }
    }
}

/// Collects the error messages of a GraphQL response.
pub fn graphql_error_messages(v: &Value) -> (r: Vec<String>)
    ensures
        r@.map_values(|s: String| s@) == error_messages(*v),
{
    let mut out: Vec<String> = Vec::new();
    assert(out@.map_values(|s: String| s@) =~= Seq::<Seq<char>>::empty());
    let o = match v {
        Value::Object(o) => o,
        _ => {
            return out;
        },
    };
    let es = match entry_position(o, "errors") {
        Some(i) => match &o[i].1 {
            Value::Array(es) => es,
            _ => {
                return out;
            },
        },
        None => {
            return out;
        },
    };
    let mut k: usize = 0;
    assert(es@.subrange(0, 0) =~= Seq::<Value>::empty());
    while k < es.len()
        invariant
            k <= es@.len(),
            out@.map_values(|s: String| s@) == messages_of(es@.subrange(0, k as int)),
        decreases es.len() - k,
    {
        assert(es@.subrange(0, k + 1).drop_last() =~= es@.subrange(0, k as int));
        let ghost before = out@;
        match &es[k] {
            Value::Object(eo) => match entry_position(eo, "message") {
                Some(j) => match &eo[j].1 {
                    Value::String(m) => {
                        out.push(m.clone());
                        assert(out@.map_values(|s: String| s@) =~= before.map_values(|s: String| s@).push(m@));
                    },
                    _ => {},
                },
                None => {},
            },
            _ => {},
        }
        k = k + 1;
    }
    assert(es@.subrange(0, es@.len() as int) =~= es@);
    out
}

/// The list a GraphQL `data` object wraps, if any: the first of its `items`,
/// `nodes`, `edges` and `results` fields that holds an array, and whether it
/// was `edges`.
pub open spec fn wrapped_list(d: Seq<(String, Value)>) -> Option<(bool, Seq<Value>)> {
    if lookup(d, "items"@) matches Some(Value::Array(a)) {
        Some((false, lookup(d, "items"@)->Some_0->Array_0@))
    } else if lookup(d, "nodes"@) matches Some(Value::Array(a)) {
        Some((false, lookup(d, "nodes"@)->Some_0->Array_0@))
    } else if lookup(d, "edges"@) matches Some(Value::Array(a)) {
        Some((true, lookup(d, "edges"@)->Some_0->Array_0@))
    } else if lookup(d, "results"@) matches Some(Value::Array(a)) {
        Some((false, lookup(d, "results"@)->Some_0->Array_0@))
    } else {
        None
    }
}

/// The records of a list of edges: each edge's `node` object when it has
/// one, else the edge itself when it is an object.
pub open spec fn edge_records(items: Seq<Value>) -> Seq<Record>
    decreases items.len(),
{
    if items.len() == 0 {
        Seq::empty()
    } else {
        let prev = edge_records(items.drop_last());
        match items.last() {
            Value::Object(e) => match lookup(e@, "node"@) {
                Some(Value::Object(n)) => prev.push(Record { entries: n }),
                _ => prev.push(Record { entries: e }),
            },
            _ => prev,
        }
    }
}

/// The records a GraphQL response carries: the objects of the list its
/// `data` object wraps, or that object itself; none without a `data` object.
pub open spec fn graphql_rows(v: Value) -> Seq<Record> {
    match v {
        Value::Object(o) => match lookup(o@, "data"@) {
            Some(Value::Object(d)) => match wrapped_list(d@) {
                Some((true, items)) => edge_records(items),
                Some((false, items)) => objects_of(items),
                None => seq![Record { entries: d }],
            },
            _ => Seq::empty(),
        },
        _ => Seq::empty(),
    }
}

/// Takes the field `key` out of an object's entries, when it holds an array.
fn take_array(entries: &mut Vec<(String, Value)>, key: &str) -> (r: Option<Vec<Value>>)
    ensures
        match lookup(old(entries)@, key@) {
            Some(Value::Array(a)) => r == Some(a),
            _ => r is None && *final(entries) == *old(entries),
        },
{
    match entry_position(entries, key) {
        Some(i) => {
            if entries[i].1.is_array() {
                let (_, v) = entries.remove(i);
                match v {
                    Value::Array(a) => Some(a),
                    _ => None,
                }
            } else {
                None
            }
        },
        None => None,
    }
}

/// Takes the field `key` out of an object's entries, when it holds an object.
fn take_object(entries: &mut Vec<(String, Value)>, key: &str) -> (r: Option<Vec<(String, Value)>>)
    ensures
        match lookup(old(entries)@, key@) {
            Some(Value::Object(a)) => r == Some(a),
            _ => r is None && *final(entries) == *old(entries),
        },
{
    match entry_position(entries, key) {
        Some(i) => {
            if entries[i].1.is_object() {
                let (_, v) = entries.remove(i);
                match v {
                    Value::Object(a) => Some(a),
                    _ => None,
                }
            } else {
                None
            }
        },
        None => None,
    }
}

fn records_of_edges(items: Vec<Value>) -> (r: Vec<Record>)
    ensures
        r@ == edge_records(items@),
{
    let ghost all = items@;
    let mut items = items;
    let total = items.len();
    let mut out: Vec<Record> = Vec::new();
    let mut i: usize = 0;
    while items.len() > 0
        invariant
            i <= all.len(),
            all.len() == total,
            items@ == all.subrange(i as int, all.len() as int),
            out@ == edge_records(all.subrange(0, i as int)),
        decreases items.len(),
    {
        assert(items@.len() == all.len() - i);
        let x = items.remove(0);
        assert(all.subrange(0, i + 1).drop_last() =~= all.subrange(0, i as int));
        assert(items@ =~= all.subrange(i + 1, all.len() as int));
        match x {
            Value::Object(e) => {
                let mut e = e;
                match take_object(&mut e, "node") {
                    Some(n) => out.push(Record { entries: n }),
                    None => out.push(Record { entries: e }),
                }
            },
            _ => {},
        }
        i = i + 1;
    }
    assert(all.subrange(0, all.len() as int) =~= all);
    out
}

/// Takes the records out of a GraphQL response.
pub fn graphql_records(v: Value) -> (r: Vec<Record>)
    ensures
        r@ == graphql_rows(v),
{
    let mut o = match v {
        Value::Object(o) => o,
        _ => {
            return Vec::new();
        },
    };
    let mut d = match take_object(&mut o, "data") {
        Some(d) => d,
        None => {
            return Vec::new();
        },
    };
    match take_array(&mut d, "items") {
        Some(items) => {
            return records_of(items);
        },
        None => {},
    }
    match take_array(&mut d, "nodes") {
        Some(items) => {
            return records_of(items);
        },
        None => {},
    }
    match take_array(&mut d, "edges") {
        Some(items) => {
            return records_of_edges(items);
        },
        None => {},
    }
    match take_array(&mut d, "results") {
        Some(items) => {
            return records_of(items);
        },
        None => {},
    }
    vec![Record { entries: d }]
}

/// The variables of a GraphQL read: the read's parameters, and for a
/// paginated read `limit`, `offset`, `page` and `pageSize` as well.
/// The value a read's parameters hold for `k`.
pub open spec fn param_value(params: Option<&Record>, k: Seq<char>) -> Option<Value> {
    match params {
        Some(pr) => pr.get_spec(k),
        None => None,
    }
}

pub fn graphql_variables(params: Option<&Record>, pagination: Option<&PaginationParams>) -> (r: Record)
    requires
        pagination matches Some(p) ==> p.page <= i64::MAX && p.page_size <= i64::MAX && p.offset <= i64::MAX,
    ensures
        pagination is None ==> forall|k: Seq<char>| #[trigger] opt_same(
            r.get_spec(k),
            param_value(params, k),
        ),
        pagination matches Some(p) ==> {
            &&& r.get_spec("limit"@) == Some(Value::Number(p.page_size as i64))
            &&& r.get_spec("offset"@) == Some(Value::Number(p.offset as i64))
            &&& r.get_spec("page"@) == Some(Value::Number(p.page as i64))
            &&& r.get_spec("pageSize"@) == Some(Value::Number(p.page_size as i64))
            &&& forall|k: Seq<char>|
                k != "limit"@ && k != "offset"@ && k != "page"@ && k != "pageSize"@ ==> #[trigger] opt_same(
                    r.get_spec(k),
                    param_value(params, k),
                )
        },
{
    let mut variables = match params {
        Some(pr) => pr.deep_copy(),
        None => Record::new(),
    };
    proof {
        if params is None {
            assert forall|k: Seq<char>| #[trigger] opt_same(variables.get_spec(k), param_value(params, k)) by {}
        }
    }
    match pagination {
        Some(p) => {
            let ghost v0 = variables;
            proof {
                reveal_strlit("limit");
                reveal_strlit("offset");
                reveal_strlit("page");
                reveal_strlit("pageSize");
                assert("limit"@.len() == 5 && "offset"@.len() == 6 && "page"@.len() == 4 && "pageSize"@.len() == 8);
            }
            variables.insert(String::from_str("limit"), Value::Number(p.page_size as i64));
            variables.insert(String::from_str("offset"), Value::Number(p.offset as i64));
            variables.insert(String::from_str("page"), Value::Number(p.page as i64));
            variables.insert(String::from_str("pageSize"), Value::Number(p.page_size as i64));
            proof {
                assert forall|k: Seq<char>| k != "limit"@ && k != "offset"@ && k != "page"@ && k != "pageSize"@ implies #[trigger] opt_same(
                    variables.get_spec(k),
                    param_value(params, k),
                ) by {
                    assert(variables.get_spec(k) == v0.get_spec(k));
                    assert(opt_same(v0.get_spec(k), param_value(params, k)));
                }
            }
        },
        None => {},
    }
    variables
}

/// The key under which a key-value store keeps `key`: the prefix and the
/// key joined by a colon, when there is a prefix.
pub fn prefixed_key(prefix: Option<&String>, key: &str) -> (r: String)
    ensures
        r@ == match prefix {
            Some(p) => p@ + ":"@ + key@,
            None => key@,
        },
{
    match prefix {
        Some(p) => p.clone().concat(":").concat(key),
        None => String::from_str(key),
    }
}

/// The key under which object storage keeps `key`: the prefix and the key
/// joined by a slash, when there is a prefix.
pub fn full_key(prefix: Option<&String>, key: &str) -> (r: String)
    ensures
        r@ == match prefix {
            Some(p) => p@ + "/"@ + key@,
            None => key@,
        },
{
    match prefix {
        Some(p) => p.clone().concat("/").concat(key),
        None => String::from_str(key),
    }
}

/// The hits of a search response, as (source fields, id): each hit under
/// `hits.hits` whose `_source` is an object, with the hit's `_id` if any.
pub open spec fn hit_list(v: Value) -> Seq<(Seq<(String, Value)>, Option<Value>)> {
    match v {
        Value::Object(o) => match lookup(o@, "hits"@) {
            Some(Value::Object(h)) => match lookup(h@, "hits"@) {
                Some(Value::Array(hs)) => hits_of(hs@),
                _ => Seq::empty(),
            },
            _ => Seq::empty(),
        },
        _ => Seq::empty(),
    }
}

pub open spec fn hits_of(hs: Seq<Value>) -> Seq<(Seq<(String, Value)>, Option<Value>)>
    decreases hs.len(),
{
    if hs.len() == 0 {
        Seq::empty()
    } else {
        match hs.last() {
            Value::Object(h) => match lookup(h@, "_source"@) {
                Some(Value::Object(src)) => hits_of(hs.drop_last()).push((src@, lookup(h@, "_id"@))),
                _ => hits_of(hs.drop_last()),
            },
            _ => hits_of(hs.drop_last()),
        }
    }
}

/// A hit's record holds the fields of its source, and the hit's `_id` when
/// the hit has one.
pub open spec fn hit_record(r: Record, hit: (Seq<(String, Value)>, Option<Value>)) -> bool {
    &&& forall|k: Seq<char>| k != "_id"@ ==> #[trigger] r.get_spec(k) == lookup(hit.0, k)
    &&& match hit.1 {
        Some(id) => opt_same(r.get_spec("_id"@), Some(id)),
        None => r.get_spec("_id"@) == lookup(hit.0, "_id"@),
    }
}

/// Takes the records out of a search response.
pub fn search_hits(v: Value) -> (r: Vec<Record>)
    ensures
        r@.len() == hit_list(v).len(),
        forall|i: int| 0 <= i < r@.len() ==> hit_record(#[trigger] r@[i], hit_list(v)[i]),
{
    let mut o = match v {
        Value::Object(o) => o,
        _ => {
            return Vec::new();
        },
    };
    let mut h = match take_object(&mut o, "hits") {
        Some(h) => h,
        None => {
            return Vec::new();
        },
    };
    let hs = match take_array(&mut h, "hits") {
        Some(hs) => hs,
        None => {
            return Vec::new();
        },
    };
    let ghost all = hs@;
    let mut hs = hs;
    let total = hs.len();
    let mut out: Vec<Record> = Vec::new();
    let mut i: usize = 0;
    while hs.len() > 0
        invariant
            i <= all.len(),
            all.len() == total,
            hs@ == all.subrange(i as int, all.len() as int),
            out@.len() == hits_of(all.subrange(0, i as int)).len(),
            forall|j: int| 0 <= j < out@.len() ==> hit_record(#[trigger] out@[j], hits_of(all.subrange(0, i as int))[j]),
        decreases hs.len(),
    {
        assert(hs@.len() == all.len() - i);
        let x = hs.remove(0);
        assert(all.subrange(0, i + 1).drop_last() =~= all.subrange(0, i as int));
        assert(hs@ =~= all.subrange(i + 1, all.len() as int));
        let ghost prev = hits_of(all.subrange(0, i as int));
        match x {
            Value::Object(he) => {
                let mut he = he;
                let ghost he0 = he@;
                let id = match entry_position(&he, "_id") {
                    Some(k) => Some(he[k].1.deep_copy()),
                    None => None,
                };
                match take_object(&mut he, "_source") {
                    Some(src) => {
                        let mut rec = Record { entries: src };
                        let ghost src0 = rec.entries@;
                        match id {
                            Some(idv) => {
                                rec.insert(String::from_str("_id"), idv);
                            },
                            None => {},
                        }
                        proof {
                            assert(hits_of(all.subrange(0, i + 1)) == prev.push((src0, lookup(he0, "_id"@))));
                            assert forall|k: Seq<char>| k != "_id"@ implies #[trigger] rec.get_spec(k) == lookup(src0, k) by {}
                        }
                        let ghost out0 = out@;
                        out.push(rec);
                        proof {
                            assert forall|j: int| 0 <= j < out@.len() implies hit_record(#[trigger] out@[j], hits_of(all.subrange(0, i + 1))[j]) by {
                                if j < prev.len() {
                                    assert(out@[j] == out0[j]);
                                    assert(hit_record(out0[j], prev[j]));
                                }
                            }
                        }
                    },
                    None => {
                        assert(hits_of(all.subrange(0, i + 1)) == prev);
                    },
                }
            },
            _ => {
                assert(hits_of(all.subrange(0, i + 1)) == prev);
            },
        }
        i = i + 1;
    }
    assert(all.subrange(0, all.len() as int) =~= all);
    out
}

/// The pieces of a text between the separator `c`, as `str::split` gives
/// them: a text without the separator is one piece.
pub open spec fn split_on(s: Seq<char>, c: char) -> Seq<Seq<char>>
    decreases s.len(),
{
    if s.len() == 0 {
        seq![Seq::empty()]
    } else {
        let prev = split_on(s.drop_last(), c);
        if s.last() == c {
            prev.push(Seq::empty())
        } else {
            prev.update(prev.len() - 1, prev.last().push(s.last()))
        }
    }
}

/// The first position of `c` in a text.
pub open spec fn first_at(s: Seq<char>, c: char) -> Option<int> {
    if exists|i: int| 0 <= i < s.len() && s[i] == c {
        Some(choose|i: int| 0 <= i < s.len() && s[i] == c && forall|j: int| 0 <= j < i ==> s[j] != c)
    } else {
        None
    }
}

/// A filter piece `key=value`, split at its first `=`; a piece without one
/// is no filter.
pub open spec fn filter_of(piece: Seq<char>) -> Option<(Seq<char>, Seq<char>)> {
    match first_at(piece, '=') {
        Some(i) => Some((piece.subrange(0, i), piece.subrange(i + 1, piece.len() as int))),
        None => None,
    }
}

/// The filters a query string of the form `key=value&key=value` holds, in
/// order.
pub open spec fn filters_of(pieces: Seq<Seq<char>>) -> Seq<(Seq<char>, Seq<char>)>
    decreases pieces.len(),
{
    if pieces.len() == 0 {
        Seq::empty()
    } else {
        match filter_of(pieces.last()) {
            Some(f) => filters_of(pieces.drop_last()).push(f),
            None => filters_of(pieces.drop_last()),
        }
    }
}

fn pieces(s: &str, c: char) -> (r: Vec<String>)
    ensures
        r@.map_values(|p: String| p@) == split_on(s@, c),
{
    let n = s.unicode_len();
    let mut out: Vec<String> = Vec::new();
    let mut cur = String::new();
    let mut i: usize = 0;
    assert(s@.subrange(0, 0) =~= Seq::<char>::empty());
    assert(out@.map_values(|p: String| p@).push(cur@) =~= split_on(s@.subrange(0, 0), c));
    while i < n
        invariant
            n == s@.len(),
            i <= n,
            out@.map_values(|p: String| p@).push(cur@) == split_on(s@.subrange(0, i as int), c),
        decreases n - i,
    {
        let ch = s.get_char(i);
        let ghost prev = split_on(s@.subrange(0, i as int), c);
        assert(s@.subrange(0, i + 1).drop_last() =~= s@.subrange(0, i as int));
        assert(s@.subrange(0, i + 1).last() == ch);
        if ch == c {
            let done = cur;
            out.push(done);
            cur = String::new();
            assert(out@.map_values(|p: String| p@).push(cur@) =~= prev.push(Seq::empty()));
        } else {
            let ghost before = out@.map_values(|p: String| p@);
            push_char(&mut cur, ch);
            assert(before.push(cur@) =~= prev.update(prev.len() - 1, prev.last().push(ch)));
        }
        i = i + 1;
    }
    assert(s@.subrange(0, n as int) =~= s@);
    out.push(cur);
    out
}

fn filter_piece(piece: &str) -> (r: Option<(String, String)>)
    ensures
        match filter_of(piece@) {
            Some(f) => r matches Some(p) && p.0@ == f.0 && p.1@ == f.1,
            None => r is None,
        },
{
    let n = piece.unicode_len();
    let mut i: usize = 0;
    while i < n
        invariant
            n == piece@.len(),
            i <= n,
            forall|j: int| 0 <= j < i ==> piece@[j] != '=',
        decreases n - i,
    {
        if piece.get_char(i) == '=' {
            proof {
                let k = choose|k: int| 0 <= k < piece@.len() && piece@[k] == '=' && forall|j: int| 0 <= j < k ==> piece@[j] != '=';
                if k < i {
                    assert(piece@[k] != '=');
                } else if i < k {
                    assert(piece@[i as int] != '=');
                }
            }
            let key = String::from_str(piece.substring_char(0, i));
            let value = String::from_str(piece.substring_char(i + 1, n));
            return Some((key, value));
        }
        i = i + 1;
    }
    None
}

/// The filters of a query string of the form `key=value&key=value`.
pub fn query_filters(query: &str) -> (r: Vec<(String, String)>)
    ensures
        r@.map_values(|p: (String, String)| (p.0@, p.1@)) == filters_of(split_on(query@, '&')),
{
    let parts = pieces(query, '&');
    let ghost all = parts@.map_values(|p: String| p@);
    let mut out: Vec<(String, String)> = Vec::new();
    let mut i: usize = 0;
    assert(all.subrange(0, 0) =~= Seq::<Seq<char>>::empty());
    assert(out@.map_values(|p: (String, String)| (p.0@, p.1@)) =~= Seq::<(Seq<char>, Seq<char>)>::empty());
    while i < parts.len()
        invariant
            i <= parts@.len(),
            all == parts@.map_values(|p: String| p@),
            out@.map_values(|p: (String, String)| (p.0@, p.1@)) == filters_of(all.subrange(0, i as int)),
        decreases parts.len() - i,
    {
        assert(all.subrange(0, i + 1).drop_last() =~= all.subrange(0, i as int));
        assert(all.subrange(0, i + 1).last() == parts@[i as int]@);
        let ghost before = out@.map_values(|p: (String, String)| (p.0@, p.1@));
        match filter_piece(parts[i].as_str()) {
            Some(f) => {
                out.push(f);
                assert(out@.map_values(|p: (String, String)| (p.0@, p.1@)) =~= before.push((f.0@, f.1@)));
            },
            None => {},
        }
        i = i + 1;
    }
    assert(all.subrange(0, parts@.len() as int) =~= all);
    out
}

/// How a database column's declared type is read into a value.
#[derive(Clone, Copy, Debug)]
pub enum ColumnKind {
    Text,
    Integer,
    Real,
    Boolean,
    Json,
    Timestamp,
    Other,
}

pub open spec fn column_kind_of(t: Seq<char>) -> ColumnKind {
    if t == "TEXT"@ || t == "VARCHAR"@ || t == "CHAR"@ || t == "STRING"@ || t == "BPCHAR"@ {
        ColumnKind::Text
    } else if t == "INTEGER"@ || t == "INT"@ || t == "SMALLINT"@ || t == "BIGINT"@ || t == "INT4"@ || t == "INT2"@ || t == "INT8"@ {
        ColumnKind::Integer
    } else if t == "REAL"@ || t == "FLOAT"@ || t == "DOUBLE"@ || t == "NUMERIC"@ || t == "DECIMAL"@ || t == "FLOAT4"@ || t == "FLOAT8"@ {
        ColumnKind::Real
    } else if t == "BOOLEAN"@ || t == "BOOL"@ {
        ColumnKind::Boolean
    } else if t == "JSON"@ || t == "JSONB"@ {
        ColumnKind::Json
    } else if t == "TIMESTAMP"@ || t == "TIMESTAMPTZ"@ || t == "DATETIME"@ || t == "DATE"@ || t == "TIME"@ {
        ColumnKind::Timestamp
    } else {
        ColumnKind::Other
    }
}

/// Classifies a column by the name of its declared type; unknown types are
/// read as text when they can be.
pub fn column_kind(declared: &str) -> (r: ColumnKind)
    ensures
        r == column_kind_of(declared@),
{
    let t = declared;
    if str_eq(t, "TEXT") || str_eq(t, "VARCHAR") || str_eq(t, "CHAR") || str_eq(t, "STRING") || str_eq(t, "BPCHAR") {
        ColumnKind::Text
    } else if str_eq(t, "INTEGER") || str_eq(t, "INT") || str_eq(t, "SMALLINT") || str_eq(t, "BIGINT") || str_eq(t, "INT4")
        || str_eq(t, "INT2") || str_eq(t, "INT8") {
        ColumnKind::Integer
    } else if str_eq(t, "REAL") || str_eq(t, "FLOAT") || str_eq(t, "DOUBLE") || str_eq(t, "NUMERIC") || str_eq(t, "DECIMAL")
        || str_eq(t, "FLOAT4") || str_eq(t, "FLOAT8") {
        ColumnKind::Real
    } else if str_eq(t, "BOOLEAN") || str_eq(t, "BOOL") {
        ColumnKind::Boolean
    } else if str_eq(t, "JSON") || str_eq(t, "JSONB") {
        ColumnKind::Json
    } else if str_eq(t, "TIMESTAMP") || str_eq(t, "TIMESTAMPTZ") || str_eq(t, "DATETIME") || str_eq(t, "DATE") || str_eq(t, "TIME") {
        ColumnKind::Timestamp
    } else {
        ColumnKind::Other
    }
}

/// A failure a backend reported for one call.
#[derive(Clone, Debug)]
pub struct DataSourceError {
    pub message: String,
}

/// The capability set every backend adapter offers: reads that return
/// records, and writes that return an acknowledgment.
pub trait DataSource {
    /// A read: the records the query selects.
    fn execute_query(&self, query: &str, params: Option<&Record>) -> (r: Result<Vec<Record>, DataSourceError>)
    ;

    /// A read of one page, in the backend's own idiom of pagination; backends
    /// without one return the whole result.
    fn execute_query_paginated(
        &self,
        query: &str,
        params: Option<&Record>,
        pagination: Option<&PaginationParams>,
    ) -> (r: Result<Vec<Record>, DataSourceError>)
    ;

    fn execute_mutation(&self, query: &str, data: &Record) -> (r: Result<Value, DataSourceError>)
    ;
}

/// gRPC data source; calls are acknowledged without reaching a service yet.
pub struct GrpcDataSource {
    pub endpoint: String,
    pub proto_file: String,
    pub service_name: String,
    pub tls_enabled: bool,
}

impl GrpcDataSource {
    pub fn new(endpoint: String, proto_file: String, service_name: String, tls_enabled: bool) -> (r: Self)
        ensures
            r.endpoint == endpoint,
            r.proto_file == proto_file,
            r.service_name == service_name,
            r.tls_enabled == tls_enabled,
    {
        GrpcDataSource { endpoint, proto_file, service_name, tls_enabled }
    }
}

impl DataSource for GrpcDataSource {
    fn execute_query(&self, query: &str, params: Option<&Record>) -> (r: Result<Vec<Record>, DataSourceError>)
        ensures
            r matches Ok(rows) && rows@.len() == 0,
    {
        let rows: Vec<Record> = Vec::new();
        assert(rows@ =~= Seq::<Record>::empty());
        Ok(rows)
    }

    fn execute_query_paginated(
        &self,
        query: &str,
        params: Option<&Record>,
        pagination: Option<&PaginationParams>,
    ) -> (r: Result<Vec<Record>, DataSourceError>)
        ensures
            r matches Ok(rows) && rows@.len() == 0,
    {
        self.execute_query(query, params)
    }

    fn execute_mutation(&self, query: &str, data: &Record) -> (r: Result<Value, DataSourceError>)
        ensures
            r matches Ok(Value::Bool(true)),
    {
        Ok(Value::Bool(true))
    }
}

/// Kafka data source; calls are acknowledged without reaching a broker yet.
pub struct KafkaDataSource {
    pub brokers: Vec<String>,
    pub topic: String,
    pub group_id: String,
}

impl KafkaDataSource {
    pub fn new(brokers: Vec<String>, topic: String, group_id: String) -> (r: Self)
        ensures
            r.brokers == brokers,
            r.topic == topic,
            r.group_id == group_id,
    {
        KafkaDataSource { brokers, topic, group_id }
    }
}

impl DataSource for KafkaDataSource {
    fn execute_query(&self, query: &str, params: Option<&Record>) -> (r: Result<Vec<Record>, DataSourceError>)
        ensures
            r matches Ok(rows) && rows@.len() == 0,
    {
        let rows: Vec<Record> = Vec::new();
        assert(rows@ =~= Seq::<Record>::empty());
        Ok(rows)
    }

    fn execute_query_paginated(
        &self,
        query: &str,
        params: Option<&Record>,
        pagination: Option<&PaginationParams>,
    ) -> (r: Result<Vec<Record>, DataSourceError>)
        ensures
            r matches Ok(rows) && rows@.len() == 0,
    {
        self.execute_query(query, params)
    }

    fn execute_mutation(&self, query: &str, data: &Record) -> (r: Result<Value, DataSourceError>)
        ensures
            r matches Ok(Value::Bool(true)),
    {
        Ok(Value::Bool(true))
    }
}

/// Firebase data source; calls are acknowledged without reaching the
/// service yet.
pub struct FirebaseDataSource {
    pub project_id: String,
    pub collection: String,
}

impl FirebaseDataSource {
    pub fn new(project_id: String, collection: String) -> (r: Self)
        ensures
            r.project_id == project_id,
            r.collection == collection,
    {
        FirebaseDataSource { project_id, collection }
    }
}

impl DataSource for FirebaseDataSource {
    fn execute_query(&self, query: &str, params: Option<&Record>) -> (r: Result<Vec<Record>, DataSourceError>)
        ensures
            r matches Ok(rows) && rows@.len() == 0,
    {
        let rows: Vec<Record> = Vec::new();
        assert(rows@ =~= Seq::<Record>::empty());
        Ok(rows)
    }

    fn execute_query_paginated(
        &self,
        query: &str,
        params: Option<&Record>,
        pagination: Option<&PaginationParams>,
    ) -> (r: Result<Vec<Record>, DataSourceError>)
        ensures
            r matches Ok(rows) && rows@.len() == 0,
    {
        self.execute_query(query, params)
    }

    fn execute_mutation(&self, query: &str, data: &Record) -> (r: Result<Value, DataSourceError>)
        ensures
            r matches Ok(Value::Bool(true)),
    {
        Ok(Value::Bool(true))
    }
}

} // verus!
