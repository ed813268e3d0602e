//! The statements that keep the ledger in a SQL store: one membership query
//! per batch of identifiers, and one multi-row upsert per batch of items.
use vstd::prelude::*;
use crate::chunk::{chunk_ranges, is_chunking, lemma_chunk_step, lemma_chunking_empty};
use crate::ledger::ids_in_range;
use crate::model::{ids_of, UndoneList, UndoneListItem};
use crate::text::{decimal, decimal_string};

verus! {

/// The query that selects the known identifiers among a JSON array of them.
pub open spec fn select_sql() -> Seq<char> {
    "SELECT activity_id FROM activities WHERE activity_id IN (SELECT value FROM json_each(?1))"@
}

/// The membership query, bound to one JSON array of identifiers.
pub fn select_statement() -> (r: String)
    ensures
        r@ == select_sql(),
{
    String::from_str(
        "SELECT activity_id FROM activities WHERE activity_id IN (SELECT value FROM json_each(?1))",
    )
}

/// The JSON array of a list of strings, as `serde_json` writes it.
pub uninterp spec fn json_array_of(v: Seq<Seq<char>>) -> Seq<char>;

/// Relies on `serde_json::to_string` on a list of strings, which cannot fail.
#[verifier::external_body]
fn json_array(v: &Vec<String>) -> (r: String)
    ensures
        r@ == json_array_of(v@.map_values(|s: String| s@)),
{
    serde_json::to_string(v).unwrap_or_default()
}

/// The parameter of the membership query for the identifiers `ids`.
pub fn ids_param(ids: &Vec<String>) -> (r: String)
    ensures
        r@ == json_array_of(ids@.map_values(|s: String| s@)),
{
    json_array(ids)
}

/// The parameters of the membership queries for `list`: the JSON array of
/// each batch of at most `chunk_size` consecutive identifiers. No query at
/// all for an empty list.
pub fn query_params(list: &UndoneList, chunk_size: usize) -> (r: Vec<String>)
    requires
        chunk_size > 0,
    ensures
        list.undone_list@.len() == 0 ==> r@.len() == 0,
        exists|rs: Seq<(usize, usize)>|
            is_chunking(rs, list.undone_list@.len(), chunk_size as nat) && rs.len() == r@.len()
                && forall|j: int|
                0 <= j < rs.len() ==> #[trigger] r@[j]@ == json_array_of(
                    ids_of(list.undone_list@).subrange(rs[j].0 as int, rs[j].1 as int),
                ),
{
    let items = &list.undone_list;
    let ranges = chunk_ranges(items.len(), chunk_size);
    let mut r: Vec<String> = Vec::new();
    let mut j: usize = 0;
    while j < ranges.len()
        invariant
            items@ == list.undone_list@,
            is_chunking(ranges@, items@.len(), chunk_size as nat),
            j <= ranges@.len(),
            r@.len() == j,
            forall|k: int|
                0 <= k < j ==> #[trigger] r@[k]@ == json_array_of(
                    ids_of(items@).subrange(ranges@[k].0 as int, ranges@[k].1 as int),
                ),
        decreases ranges@.len() - j,
    {
        let (lo, hi) = ranges[j];
        proof {
            lemma_chunk_step(ranges@, items@.len(), chunk_size as nat, j as int);
        }
        let ids = ids_in_range(items, lo, hi);
        assert(ids@.map_values(|s: String| s@) =~= ids_of(items@).subrange(lo as int, hi as int));
        r.push(ids_param(&ids));
        j += 1;
    }
    proof {
        lemma_chunking_empty(ranges@, items@.len(), chunk_size as nat);
    }
    r
}

/// A value bound to a statement parameter.
pub enum SqlValue {
    Text(String),
    Int(i32),
}

/// The head of the multi-row upsert.
pub open spec fn insert_head() -> Seq<char> {
    "INSERT OR IGNORE INTO activities (activity_id, activity_name, type, end_time, assignment_type, evaluation_status, is_open_evaluation, course_info, description, start_time) VALUES "@
}

/// The tail of the multi-row upsert: a known identifier has only its due time
/// and status refreshed.
pub open spec fn insert_tail() -> Seq<char> {
    " ON CONFLICT(activity_id) DO UPDATE SET end_time = excluded.end_time, evaluation_status = excluded.evaluation_status"@
}

/// The number of parameters of one row.
pub const ROW_PARAMS: u64 = 10;

/// `?p` for parameters `first..first + n`, separated by `", "`.
pub open spec fn params_list(first: nat, n: nat) -> Seq<char>
    decreases n,
{
    if n == 0 {
        Seq::empty()
    } else if n == 1 {
        "?"@ + decimal(first)
    } else {
        params_list(first, (n - 1) as nat) + ", ?"@ + decimal((first + n - 1) as nat)
    }
}

/// The placeholders of row `i` (from zero): `(?a, ..., ?b)` over its ten
/// parameters.
pub open spec fn row_placeholders(i: nat) -> Seq<char> {
    "("@ + params_list(i * 10 + 1, 10) + ")"@
}

/// The placeholders of rows `0..n`, separated by commas.
pub open spec fn rows_placeholders(n: nat) -> Seq<char>
    decreases n,
{
    if n == 0 {
        Seq::empty()
    } else if n == 1 {
        row_placeholders(0)
    } else {
        rows_placeholders((n - 1) as nat) + ","@ + row_placeholders((n - 1) as nat)
    }
}

/// The upsert of `n` rows.
pub open spec fn insert_sql(n: nat) -> Seq<char> {
    insert_head() + rows_placeholders(n) + insert_tail()
}

fn row_placeholders_text(i: u64) -> (r: String)
    requires
        i * 10 + 10 <= u64::MAX,
    ensures
        r@ == row_placeholders(i as nat),
{
    let first = i * ROW_PARAMS + 1;
    let mut s = String::from_str("(?");
    let d = decimal_string(first);
    s.append(d.as_str());
    let mut k: u64 = 1;
    assert(s@ == "("@ + params_list(first as nat, 1)) by {
        reveal_strlit("(?");
        reveal_strlit("(");
        reveal_strlit("?");
        assert(s@ =~= "("@ + params_list(first as nat, 1));
    }
    while k < ROW_PARAMS
        invariant
            1 <= k <= ROW_PARAMS,
            first == i * 10 + 1,
            i * 10 + 10 <= u64::MAX,
            s@ == "("@ + params_list(first as nat, k as nat),
        decreases ROW_PARAMS - k,
    {
        s.append(", ?");
        let d = decimal_string(first + k);
        s.append(d.as_str());
        k += 1;
        assert(s@ =~= "("@ + params_list(first as nat, k as nat));
    }
    s.append(")");
    s
}

/// The upsert statement for `rows` items.
pub fn insert_statement(rows: u64) -> (r: String)
    requires
        rows * 10 + 10 <= u64::MAX,
    ensures
        r@ == insert_sql(rows as nat),
{
    let mut s = String::from_str(
        "INSERT OR IGNORE INTO activities (activity_id, activity_name, type, end_time, assignment_type, evaluation_status, is_open_evaluation, course_info, description, start_time) VALUES ",
    );
    let mut i: u64 = 0;
    while i < rows
        invariant
            i <= rows,
            rows * 10 + 10 <= u64::MAX,
            s@ == insert_head() + rows_placeholders(i as nat),
        decreases rows - i,
    {
        if i > 0 {
            s.append(",");
        }
        let row = row_placeholders_text(i);
        s.append(row.as_str());
        proof {
            if i == 0 {
                assert(rows_placeholders(1) == row_placeholders(0));
                assert(rows_placeholders(0) =~= Seq::<char>::empty());
            }
        }
        assert(s@ =~= insert_head() + rows_placeholders((i + 1) as nat));
        i += 1;
    }
    s.append(
        " ON CONFLICT(activity_id) DO UPDATE SET end_time = excluded.end_time, evaluation_status = excluded.evaluation_status",
    );
    s
}

/// The text of an optional field, empty when absent.
pub open spec fn text_or_empty(o: Option<String>) -> Seq<char> {
    match o {
        Some(s) => s@,
        None => Seq::empty(),
    }
}

/// `v` is the text `t`.
pub open spec fn is_text(v: SqlValue, t: Seq<char>) -> bool {
    match v {
        SqlValue::Text(s) => s@ == t,
        SqlValue::Int(_) => false,
    }
}

/// `v` is the integer `n`.
pub open spec fn is_int(v: SqlValue, n: i32) -> bool {
    match v {
        SqlValue::Int(m) => m == n,
        SqlValue::Text(_) => false,
    }
}

/// `row` holds the ten parameters of `item`, whose course is written as
/// `course_json`, in column order.
pub open spec fn row_of(row: Seq<SqlValue>, item: UndoneListItem, course_json: Seq<char>) -> bool {
    &&& row.len() == 10
    &&& is_text(row[0], item.activity_id@)
    &&& is_text(row[1], item.activity_name@)
    &&& is_int(row[2], item.kind)
    &&& is_text(row[3], item.end_time@)
    &&& is_int(row[4], item.assignment_type)
    &&& is_int(row[5], item.evaluation_status)
    &&& is_int(row[6], item.is_open_evaluation)
    &&& is_text(row[7], course_json)
    &&& is_text(row[8], text_or_empty(item.description))
    &&& is_text(row[9], text_or_empty(item.start_time))
}

fn text_or_default(o: &Option<String>) -> (r: String)
    ensures
        r@ == text_or_empty(*o),
{
    match o {
        Some(s) => s.clone(),
        None => String::new(),
    }
}

/// The parameters of one item's row.
pub fn row_params(item: &UndoneListItem, course_json: &String) -> (r: Vec<SqlValue>)
    ensures
        row_of(r@, *item, course_json@),
{
    let r = vec![
        SqlValue::Text(item.activity_id.clone()),
        SqlValue::Text(item.activity_name.clone()),
        SqlValue::Int(item.kind),
        SqlValue::Text(item.end_time.clone()),
        SqlValue::Int(item.assignment_type),
        SqlValue::Int(item.evaluation_status),
        SqlValue::Int(item.is_open_evaluation),
        SqlValue::Text(course_json.clone()),
        SqlValue::Text(text_or_default(&item.description)),
        SqlValue::Text(text_or_default(&item.start_time)),
    ];
    r
}

/// One upsert statement and the parameters of its rows, row by row.
pub struct SqlBatch {
    pub sql: String,
    pub rows: Vec<Vec<SqlValue>>,
}

/// `b` upserts `items[lo..hi]`, whose courses are written as `courses`.
pub open spec fn batch_of(
    b: SqlBatch,
    items: Seq<UndoneListItem>,
    courses: Seq<String>,
    lo: int,
    hi: int,
) -> bool {
    &&& b.sql@ == insert_sql((hi - lo) as nat)
    &&& b.rows@.len() == hi - lo
    &&& forall|t: int| 0 <= t < hi - lo ==> #[trigger] row_of(b.rows@[t]@, items[lo + t], courses[lo + t]@)
}

fn batch_for(items: &Vec<UndoneListItem>, courses: &Vec<String>, lo: usize, hi: usize) -> (b: SqlBatch)
    requires
        lo < hi <= items@.len(),
        courses@.len() == items@.len(),
        (hi - lo) * 10 + 10 <= u64::MAX,
    ensures
        batch_of(b, items@, courses@, lo as int, hi as int),
{
    let sql = insert_statement((hi - lo) as u64);
    let mut rows: Vec<Vec<SqlValue>> = Vec::new();
    let mut t: usize = lo;
    while t < hi
        invariant
            lo <= t <= hi <= items@.len(),
            courses@.len() == items@.len(),
            rows@.len() == t - lo,
            forall|u: int| 0 <= u < t - lo ==> #[trigger] row_of(rows@[u]@, items@[lo + u], courses@[lo + u]@),
        decreases hi - t,
    {
        rows.push(row_params(&items[t], &courses[t]));
        t += 1;
    }
    SqlBatch { sql, rows }
}

/// The statements that upsert `items`, one per batch of at most `chunk_size`
/// consecutive items; `courses[i]` is the stored form of item `i`'s course.
/// No statement at all when there is no item.
pub fn save_activities_batch(items: &Vec<UndoneListItem>, courses: &Vec<String>, chunk_size: usize) -> (r: Vec<SqlBatch>)
    requires
        courses@.len() == items@.len(),
        chunk_size > 0,
        chunk_size * 10 + 10 <= u64::MAX,
    ensures
        items@.len() == 0 ==> r@.len() == 0,
        exists|rs: Seq<(usize, usize)>|
            is_chunking(rs, items@.len(), chunk_size as nat) && rs.len() == r@.len() && forall|j: int|
                0 <= j < rs.len() ==> #[trigger] batch_of(r@[j], items@, courses@, rs[j].0 as int, rs[j].1 as int),
{
    let ranges = chunk_ranges(items.len(), chunk_size);
    let mut r: Vec<SqlBatch> = Vec::new();
    let mut j: usize = 0;
    while j < ranges.len()
        invariant
            is_chunking(ranges@, items@.len(), chunk_size as nat),
            courses@.len() == items@.len(),
            chunk_size * 10 + 10 <= u64::MAX,
            j <= ranges@.len(),
            r@.len() == j,
            forall|k: int|
                0 <= k < j ==> #[trigger] batch_of(r@[k], items@, courses@, ranges@[k].0 as int, ranges@[k].1 as int),
        decreases ranges@.len() - j,
    {
        let (lo, hi) = ranges[j];
        proof {
            lemma_chunk_step(ranges@, items@.len(), chunk_size as nat, j as int);
        }
        r.push(batch_for(items, courses, lo, hi));
        j += 1;
    }
    proof {
        lemma_chunking_empty(ranges@, items@.len(), chunk_size as nat);
    }
    r
}

} // verus!

