//! Per-row extraction: reading the two target positions out of each inserted
//! row, with errors that name the offending positions and row.

use vstd::prelude::*;
use vstd::string::*;
use crate::statement::{
    LiteralValue, LiteralV, parse_of, extract_data_spec, ExtractedV, ExtractedSql, unexpected_create_msg,
    parse_statement, extract_data, parse_safe, unsafe_statement_msg, make_unsafe_statement_msg,
    check_parse_safe,
};

verus! {

// ---------------------------------------------------------------------------
// Decimal rendering of positions.
// ---------------------------------------------------------------------------

pub open spec fn digit_seq(n: nat) -> Seq<char> {
    if n == 0 {
        "0"@
    } else if n == 1 {
        "1"@
    } else if n == 2 {
        "2"@
    } else if n == 3 {
        "3"@
    } else if n == 4 {
        "4"@
    } else if n == 5 {
        "5"@
    } else if n == 6 {
        "6"@
    } else if n == 7 {
        "7"@
    } else if n == 8 {
        "8"@
    } else {
        "9"@
    }
}

/// Decimal representation of a number, most significant digit first.
pub open spec fn dec_rep(n: nat) -> Seq<char>
    decreases n,
{
    if n < 10 {
        digit_seq(n)
    } else {
        dec_rep(n / 10) + digit_seq(n % 10)
    }
}

fn digit_str(d: usize) -> (r: String)
    requires
        d < 10,
    ensures
        r@ == digit_seq(d as nat),
{
    if d == 0 {
        "0".to_owned()
    } else if d == 1 {
        "1".to_owned()
    } else if d == 2 {
        "2".to_owned()
    } else if d == 3 {
        "3".to_owned()
    } else if d == 4 {
        "4".to_owned()
    } else if d == 5 {
        "5".to_owned()
    } else if d == 6 {
        "6".to_owned()
    } else if d == 7 {
        "7".to_owned()
    } else if d == 8 {
        "8".to_owned()
    } else {
        "9".to_owned()
    }
}

fn usize_str(n: usize) -> (r: String)
    ensures
        r@ == dec_rep(n as nat),
    decreases n,
{
    if n < 10 {
        digit_str(n)
    } else {
        proof {
            assert(n / 10 < n) by (nonlinear_arith)
                requires
                    n >= 10,
            ;
        }
        let mut r = usize_str(n / 10);
        let d = digit_str(n % 10);
        r.append(d.as_str());
        r
    }
}

// ---------------------------------------------------------------------------
// Row descriptions for error messages.
// ---------------------------------------------------------------------------

pub open spec fn item_desc(v: LiteralV) -> Seq<char> {
    match v {
        LiteralV::Str(s) => "\""@ + s + "\""@,
        LiteralV::Other(d) => d,
    }
}

pub open spec fn row_items_desc(row: Seq<LiteralV>) -> Seq<char>
    decreases row.len(),
{
    if row.len() == 0 {
        Seq::empty()
    } else if row.len() == 1 {
        item_desc(row[0])
    } else {
        row_items_desc(row.drop_last()) + ", "@ + item_desc(row.last())
    }
}

/// Printable description of one row's contents.
pub open spec fn row_desc(row: Seq<LiteralV>) -> Seq<char> {
    "["@ + row_items_desc(row) + "]"@
}

fn append_item(m: &mut String, v: &LiteralValue)
    ensures
        final(m)@ == old(m)@ + item_desc(v@),
{
    match v {
        LiteralValue::Str(s) => {
            m.append("\"");
            m.append(s.as_str());
            m.append("\"");
            proof {
                assert(final(m)@ =~= old(m)@ + item_desc(v@));
            }
        },
        LiteralValue::Other(d) => {
            m.append(d.as_str());
        },
    }
}

/// Renders a row for inclusion in an error message.
pub fn describe_row(values: &Vec<LiteralValue>) -> (r: String)
    ensures
        r@ == row_desc(values.deep_view()),
{
    let ghost rv = values.deep_view();
    let mut m = "[".to_owned();
    let mut i: usize = 0;
    while i < values.len()
        invariant
            0 <= i <= values.len(),
            rv == values.deep_view(),
            rv.len() == values.len(),
            m@ == "["@ + row_items_desc(rv.take(i as int)),
        decreases values.len() - i,
    {
        proof {
            assert(rv.take(i + 1).drop_last() =~= rv.take(i as int));
            assert(rv.take(i + 1).last() == rv[i as int]);
            assert(rv[i as int] == values[i as int]@);
        }
        if i > 0 {
            m.append(", ");
        }
        append_item(&mut m, &values[i]);
        proof {
            if i == 0 {
                assert(rv.take(1).len() == 1);
                assert(m@ =~= "["@ + row_items_desc(rv.take(1)));
            } else {
                assert(m@ =~= "["@ + row_items_desc(rv.take(i + 1)));
            }
        }
        i += 1;
    }
    proof {
        assert(rv.take(values.len() as int) =~= rv);
    }
    m.append("]");
    proof {
        assert(m@ =~= row_desc(rv));
    }
    m
}

// ---------------------------------------------------------------------------
// Messages for failed rows.
// ---------------------------------------------------------------------------

pub open spec fn too_few_msg(row: Seq<LiteralV>) -> Seq<char> {
    "Too few inserted values: "@ + row_desc(row)
}

pub open spec fn invalid_types_msg(t: (int, int), row: Seq<LiteralV>) -> Seq<char> {
    "Invalid value types at indices ("@ + dec_rep(t.0 as nat) + ", "@ + dec_rep(t.1 as nat) + "): "@
        + row_desc(row)
}

fn make_too_few_msg(values: &Vec<LiteralValue>) -> (m: String)
    ensures
        m@ == too_few_msg(values.deep_view()),
{
    let mut m = "Too few inserted values: ".to_owned();
    let d = describe_row(values);
    m.append(d.as_str());
    m
}

fn make_invalid_types_msg(targets: (usize, usize), values: &Vec<LiteralValue>) -> (m: String)
    ensures
        m@ == invalid_types_msg((targets.0 as int, targets.1 as int), values.deep_view()),
{
    let mut m = "Invalid value types at indices (".to_owned();
    let n1 = usize_str(targets.0);
    m.append(n1.as_str());
    m.append(", ");
    let n2 = usize_str(targets.1);
    m.append(n2.as_str());
    m.append("): ");
    let d = describe_row(values);
    m.append(d.as_str());
    proof {
        assert(m@ =~= invalid_types_msg((targets.0 as int, targets.1 as int), values.deep_view()));
    }
    m
}

// ---------------------------------------------------------------------------
// Extraction from one row.
// ---------------------------------------------------------------------------

/// What extraction yields on one row, given the two resolved positions: the
/// pair of string values at those positions; a "too few values" error when
/// the row does not reach both; an "invalid value types" error when either
/// position holds a non-string literal.
pub open spec fn extract_row_spec(row: Seq<LiteralV>, t: (int, int)) -> Result<
    (Seq<char>, Seq<char>),
    Seq<char>,
> {
    if row.len() <= t.0 || row.len() <= t.1 {
        Err(too_few_msg(row))
    } else {
        match (row[t.0], row[t.1]) {
            (LiteralV::Str(s1), LiteralV::Str(s2)) => Ok((s1, s2)),
            _ => Err(invalid_types_msg(t, row)),
        }
    }
}

/// Model of one success-or-error extraction result.
pub open spec fn res_view(r: Result<(String, String), String>) -> Result<
    (Seq<char>, Seq<char>),
    Seq<char>,
> {
    match r {
        Ok(p) => Ok((p.0@, p.1@)),
        Err(e) => Err(e@),
    }
}

/// Model of a sequence of extraction results.
pub open spec fn results_view(s: Seq<Result<(String, String), String>>) -> Seq<
    Result<(Seq<char>, Seq<char>), Seq<char>>,
> {
    s.map_values(|r: Result<(String, String), String>| res_view(r))
}

/// Reads the two target positions out of one row.
pub fn extract_target_strings(values: Vec<LiteralValue>, targets: (usize, usize)) -> (r: Result<
    (String, String),
    String,
>)
    ensures
        res_view(r) == extract_row_spec(
            values.deep_view(),
            (targets.0 as int, targets.1 as int),
        ),
{
    let (i1, i2) = targets;
    if values.len() <= i1 || values.len() <= i2 {
        return Err(make_too_few_msg(&values));
    }
    proof {
        assert(values.deep_view()[i1 as int] == values[i1 as int]@);
        assert(values.deep_view()[i2 as int] == values[i2 as int]@);
    }
    match (&values[i1], &values[i2]) {
        (LiteralValue::Str(s1), LiteralValue::Str(s2)) => Ok((s1.clone(), s2.clone())),
        _ => Err(make_invalid_types_msg(targets, &values)),
    }
}

// ---------------------------------------------------------------------------
// Extraction from all rows of one insert statement.
// ---------------------------------------------------------------------------

/// What extraction yields on a sequence of rows: one result per row, in row
/// order, each row extracted independently.
pub open spec fn extract_rows_spec(rows: Seq<Seq<LiteralV>>, t: (int, int)) -> Seq<
    Result<(Seq<char>, Seq<char>), Seq<char>>,
> {
    rows.map_values(|row: Seq<LiteralV>| extract_row_spec(row, t))
}

/// Extracts the pair of target values from every row of an insert
/// statement's data, independently; yields one result per row.
pub fn extract_urls_from_insert_data(data: Vec<Vec<LiteralValue>>, target_indices: (usize, usize))
    -> (r: Vec<Result<(String, String), String>>)
    ensures
        results_view(r@) == extract_rows_spec(
            data.deep_view(),
            (target_indices.0 as int, target_indices.1 as int),
        ),
{
    let ghost t = (target_indices.0 as int, target_indices.1 as int);
    let ghost dv = data.deep_view();
    let mut out: Vec<Result<(String, String), String>> = Vec::new();
    let mut i: usize = 0;
    while i < data.len()
        invariant
            0 <= i <= data.len(),
            dv == data.deep_view(),
            dv.len() == data.len(),
            t == (target_indices.0 as int, target_indices.1 as int),
            out@.len() == i,
            forall|j: int| 0 <= j < i ==> res_view(out@[j]) == extract_row_spec(dv[j], t),
        decreases data.len() - i,
    {
        let row = copy_row(&data[i]);
        proof {
            assert(dv[i as int] == data[i as int].deep_view());
            assert(row.deep_view() =~= data[i as int].deep_view());
        }
        let res = extract_target_strings(row, target_indices);
        out.push(res);
        i += 1;
    }
    proof {
        assert(results_view(out@) =~= extract_rows_spec(dv, t));
    }
    out
}

fn copy_row(row: &Vec<LiteralValue>) -> (r: Vec<LiteralValue>)
    ensures
        r@ == row@,
{
    let mut r: Vec<LiteralValue> = Vec::new();
    let mut i: usize = 0;
    while i < row.len()
        invariant
            0 <= i <= row.len(),
            r@ == row@.take(i as int),
        decreases row.len() - i,
    {
        let v = match &row[i] {
            LiteralValue::Str(s) => LiteralValue::Str(s.clone()),
            LiteralValue::Other(d) => LiteralValue::Other(d.clone()),
        };
        proof {
            assert(v == row[i as int]);
        }
        r.push(v);
        proof {
            assert(r@ =~= row@.take(i + 1));
        }
        i += 1;
    }
    proof {
        assert(row@.take(row.len() as int) =~= row@);
    }
    r
}

// ---------------------------------------------------------------------------
// Parsing one dispatched statement as an insert.
// ---------------------------------------------------------------------------

/// What parsing a dispatched statement as an insert yields: the rows of an
/// `INSERT` for the target table, and otherwise exactly the error that the
/// statement's classification produces (a statement the parse guard
/// declines is reported as such; a `CREATE TABLE` dispatched here is
/// itself unexpected).
pub open spec fn parse_insert_spec(stmt: Seq<u8>) -> Result<Seq<Seq<LiteralV>>, Seq<char>> {
    if !parse_safe(stmt) {
        Err(unsafe_statement_msg())
    } else {
        match parse_of(stmt) {
            Ok(q) => match extract_data_spec(q) {
                ExtractedV::InsertData(rows) => Ok(rows),
                ExtractedV::CreateTableData(t) => Err(unexpected_create_msg()),
                ExtractedV::Error(e) => Err(e),
            },
            Err(e) => Err(e),
        }
    }
}

pub open spec fn insert_result_view(r: Result<Vec<Vec<LiteralValue>>, String>) -> Result<
    Seq<Seq<LiteralV>>,
    Seq<char>,
> {
    match r {
        Ok(d) => Ok(d.deep_view()),
        Err(e) => Err(e@),
    }
}

/// Parses one complete statement's bytes and yields its insert rows, or the
/// error its classification produces.
pub fn parse_insert(sql_statement: &Vec<u8>) -> (r: Result<Vec<Vec<LiteralValue>>, String>)
    ensures
        insert_result_view(r) == parse_insert_spec(sql_statement@),
{
    if !check_parse_safe(sql_statement) {
        return Err(make_unsafe_statement_msg());
    }
    match parse_statement(sql_statement) {
        Ok(sql) => match extract_data(sql) {
            ExtractedSql::InsertData(data) => Ok(data),
            ExtractedSql::CreateTableData(_) => Err("Unexpected CREATE TABLE".to_owned()),
            ExtractedSql::Error(err) => Err(err),
        },
        Err(err) => Err(err),
    }
}

} // verus!
