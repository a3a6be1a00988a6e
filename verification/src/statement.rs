//! Typed statements, the external SQL parser boundary, and the schema
//! resolver that locates the two target columns in a `CREATE TABLE`.

use vstd::prelude::*;
use vstd::string::*;
use nom_sql::Literal;
use nom_sql::SqlQuery;

verus! {

// ---------------------------------------------------------------------------
// Target configuration: one table, two column names.
// ---------------------------------------------------------------------------

/// Name of the one table whose statements this scan extracts from.
pub open spec fn target_table_spec() -> Seq<char> {
    "externallinks"@
}

/// Name of the column holding the raw URL (domain-index form).
pub open spec fn domain_column_spec() -> Seq<char> {
    "el_to_domain_index"@
}

/// Name of the column holding the path fragment.
pub open spec fn path_column_spec() -> Seq<char> {
    "el_to_path"@
}

pub fn target_table() -> (r: String)
    ensures
        r@ == target_table_spec(),
{
    "externallinks".to_owned()
}

pub fn domain_column() -> (r: String)
    ensures
        r@ == domain_column_spec(),
{
    "el_to_domain_index".to_owned()
}

pub fn path_column() -> (r: String)
    ensures
        r@ == path_column_spec(),
{
    "el_to_path".to_owned()
}

// ---------------------------------------------------------------------------
// Literal values of an inserted row.
// ---------------------------------------------------------------------------

/// One literal value of an inserted row: either a string literal, or any
/// other literal carried as its printed description.
#[derive(Debug, PartialEq, Eq)]
pub enum LiteralValue {
    Str(String),
    Other(String),
}

/// Mathematical model of a `LiteralValue`.
#[verifier::ext_equal]
pub ghost enum LiteralV {
    Str(Seq<char>),
    Other(Seq<char>),
}

impl View for LiteralValue {
    type V = LiteralV;

    open spec fn view(&self) -> LiteralV {
        match self {
            LiteralValue::Str(s) => LiteralV::Str(s@),
            LiteralValue::Other(d) => LiteralV::Other(d@),
        }
    }
}

impl DeepView for LiteralValue {
    type V = LiteralV;

    open spec fn deep_view(&self) -> LiteralV {
        self.view()
    }
}

// ---------------------------------------------------------------------------
// Parsed statements.
// ---------------------------------------------------------------------------

/// A statement as the external parser classifies it: a `CREATE TABLE` with
/// its ordered column names, an `INSERT` with its ordered rows of literal
/// values, or anything else (carried as its printed description).
pub enum ParsedStatement {
    CreateTable { table: String, columns: Vec<String> },
    Insert { table: String, rows: Vec<Vec<LiteralValue>> },
    Other { desc: String },
}

/// Mathematical model of a `ParsedStatement`.
#[verifier::ext_equal]
pub ghost enum StatementV {
    CreateTable { table: Seq<char>, columns: Seq<Seq<char>> },
    Insert { table: Seq<char>, rows: Seq<Seq<LiteralV>> },
    Other { desc: Seq<char> },
}

impl View for ParsedStatement {
    type V = StatementV;

    open spec fn view(&self) -> StatementV {
        match self {
            ParsedStatement::CreateTable { table, columns } => StatementV::CreateTable {
                table: table@,
                columns: columns.deep_view(),
            },
            ParsedStatement::Insert { table, rows } => StatementV::Insert {
                table: table@,
                rows: rows.deep_view(),
            },
            ParsedStatement::Other { desc } => StatementV::Other { desc: desc@ },
        }
    }
}

// ---------------------------------------------------------------------------
// The parse guard: inputs on which the external parser is relied on.
// ---------------------------------------------------------------------------

pub open spec fn is_digit_byte(b: u8) -> bool {
    48 <= b <= 57
}

pub open spec fn is_ws_byte(b: u8) -> bool {
    b == 32 || b == 9 || b == 10 || b == 13
}

pub open spec fn is_ident_byte(b: u8) -> bool {
    is_digit_byte(b) || (65 <= b <= 90) || (97 <= b <= 122) || b == 95 || b == 64
}

pub open spec fn lower_byte(b: u8) -> u8 {
    if 65 <= b <= 90 {
        (b + 32) as u8
    } else {
        b
    }
}

/// First position at or after `i` holding no whitespace byte.
pub open spec fn skip_ws(bytes: Seq<u8>, i: int) -> int
    decreases bytes.len() - i when 0 <= i <= bytes.len()
{
    if i < bytes.len() && is_ws_byte(bytes[i]) {
        skip_ws(bytes, i + 1)
    } else {
        i
    }
}

/// First position at or after `i` holding no identifier byte.
pub open spec fn ident_end(bytes: Seq<u8>, i: int) -> int
    decreases bytes.len() - i when 0 <= i <= bytes.len()
{
    if i < bytes.len() && is_ident_byte(bytes[i]) {
        ident_end(bytes, i + 1)
    } else {
        i
    }
}

/// Length of the digit run starting at `i`.
pub open spec fn run_len(bytes: Seq<u8>, i: int) -> int
    decreases bytes.len() - i when 0 <= i <= bytes.len()
{
    if i < bytes.len() && is_digit_byte(bytes[i]) {
        1 + run_len(bytes, i + 1)
    } else {
        0
    }
}

/// The bounds under which the external parser's numeric conversions cannot
/// overflow: every digit run outside string literals fits a signed 64-bit
/// read (18 digits); one standing alone between parentheses may be read as
/// a 16-bit type size (4 digits); one touching a `.` may be read as a
/// 32-bit float part (9 digits).
pub open spec fn run_ok(bytes: Seq<u8>, i: int, n: int) -> bool {
    n <= 18 && ((i > 0 && bytes[i - 1] == 40u8 && i + n < bytes.len() && bytes[i + n] == 41u8)
        ==> n <= 4) && (((i > 0 && bytes[i - 1] == 46u8) || (i + n < bytes.len() && bytes[i + n]
        == 46u8)) ==> n <= 9)
}

/// The set of quote states the external parser could be in, scanning left
/// to right. The parser lexes some string literals with backslash escapes
/// and doubled quotes, and others (column comments, defaults) naively up to
/// the next quote, so one byte position can be inside a literal under one
/// reading and outside under another; the guard tracks every reading.
/// `sq`/`dq` mean inside a single-/double-quoted literal under some
/// reading; `sqe`/`dqe` mean so with a backslash escape pending.
pub struct QSet {
    pub out: bool,
    pub sq: bool,
    pub sqe: bool,
    pub dq: bool,
    pub dqe: bool,
}

pub open spec fn initial_qset() -> QSet {
    QSet { out: true, sq: false, sqe: false, dq: false, dqe: false }
}

/// One byte's effect on the set of possible quote states: a quote opens a
/// literal or closes the matching one; a backslash inside a literal either
/// escapes the next byte (the escape-aware reading) or stands for itself
/// (the naive reading), so both successor states are kept.
pub open spec fn qset_step(s: QSet, b: u8) -> QSet {
    QSet {
        out: (s.out && b != 39 && b != 34) || (s.sq && b == 39) || (s.dq && b == 34),
        sq: (s.out && b == 39) || (s.sq && b != 39) || s.sqe,
        sqe: s.sq && b == 92,
        dq: (s.out && b == 34) || (s.dq && b != 34) || s.dqe,
        dqe: s.dq && b == 92,
    }
}

/// Demands `run_ok` of every maximal digit run that could stand outside
/// every string literal under some reading of the quoting: only such a run
/// can reach one of the parser's numeric conversions.
pub open spec fn scan_ok(bytes: Seq<u8>, i: int, s: QSet) -> bool
    decreases bytes.len() - i when 0 <= i <= bytes.len()
{
    if i >= bytes.len() {
        true
    } else {
        (if s.out && is_digit_byte(bytes[i]) && (i == 0 || !is_digit_byte(bytes[i - 1])) {
            run_ok(bytes, i, run_len(bytes, i))
        } else {
            true
        }) && scan_ok(bytes, i + 1, qset_step(s, bytes[i]))
    }
}

// Keyword matchers, mirroring the parser's case-insensitive tags.

pub open spec fn m_insert(bytes: Seq<u8>, i: int) -> bool {
    0 <= i && i + 6 <= bytes.len() && lower_byte(bytes[i]) == 105 && lower_byte(bytes[i + 1])
        == 110 && lower_byte(bytes[i + 2]) == 115 && lower_byte(bytes[i + 3]) == 101 && lower_byte(
        bytes[i + 4],
    ) == 114 && lower_byte(bytes[i + 5]) == 116
}

pub open spec fn m_ignore(bytes: Seq<u8>, i: int) -> bool {
    0 <= i && i + 6 <= bytes.len() && lower_byte(bytes[i]) == 105 && lower_byte(bytes[i + 1])
        == 103 && lower_byte(bytes[i + 2]) == 110 && lower_byte(bytes[i + 3]) == 111 && lower_byte(
        bytes[i + 4],
    ) == 114 && lower_byte(bytes[i + 5]) == 101
}

pub open spec fn m_into(bytes: Seq<u8>, i: int) -> bool {
    0 <= i && i + 4 <= bytes.len() && lower_byte(bytes[i]) == 105 && lower_byte(bytes[i + 1])
        == 110 && lower_byte(bytes[i + 2]) == 116 && lower_byte(bytes[i + 3]) == 111
}

pub open spec fn m_values(bytes: Seq<u8>, i: int) -> bool {
    0 <= i && i + 6 <= bytes.len() && lower_byte(bytes[i]) == 118 && lower_byte(bytes[i + 1])
        == 97 && lower_byte(bytes[i + 2]) == 108 && lower_byte(bytes[i + 3]) == 117 && lower_byte(
        bytes[i + 4],
    ) == 101 && lower_byte(bytes[i + 5]) == 115
}

pub open spec fn m_create(bytes: Seq<u8>, i: int) -> bool {
    0 <= i && i + 6 <= bytes.len() && lower_byte(bytes[i]) == 99 && lower_byte(bytes[i + 1])
        == 114 && lower_byte(bytes[i + 2]) == 101 && lower_byte(bytes[i + 3]) == 97 && lower_byte(
        bytes[i + 4],
    ) == 116 && lower_byte(bytes[i + 5]) == 101
}

pub open spec fn m_table(bytes: Seq<u8>, i: int) -> bool {
    0 <= i && i + 5 <= bytes.len() && lower_byte(bytes[i]) == 116 && lower_byte(bytes[i + 1])
        == 97 && lower_byte(bytes[i + 2]) == 98 && lower_byte(bytes[i + 3]) == 108 && lower_byte(
        bytes[i + 4],
    ) == 101
}

/// The bytes the parser accepts directly after a keyword.
pub open spec fn is_follow_byte(b: u8) -> bool {
    b == 32 || b == 10 || b == 59 || b == 40 || b == 41 || b == 9 || b == 44 || b == 61
}

/// Exclusive end of a table-name token at `i` (a plain identifier run, or
/// one delimited by backticks or square brackets), or `-1` where the parser
/// finds none and fails before reading any alias.
pub open spec fn table_token_end(bytes: Seq<u8>, i: int) -> int {
    if !(0 <= i <= bytes.len()) {
        -1
    } else if i < bytes.len() && bytes[i] == 96 {
        let e = ident_end(bytes, i + 1);
        if e > i + 1 && e < bytes.len() && bytes[e] == 96 {
            e + 1
        } else {
            -1
        }
    } else if i < bytes.len() && bytes[i] == 91 {
        let e = ident_end(bytes, i + 1);
        if e > i + 1 && e < bytes.len() && bytes[e] == 93 {
            e + 1
        } else {
            -1
        }
    } else {
        let e = ident_end(bytes, i);
        if e > i {
            e
        } else {
            -1
        }
    }
}

/// What may follow an `INSERT` statement's table name: a field list or the
/// `VALUES` keyword (with a keyword-ending byte after it, or the end of the
/// statement) — the only follows on which the parser leaves the table alias
/// empty. Anything else could be parsed as an alias, which the parser then
/// asserts away.
pub open spec fn safe_insert_follow(bytes: Seq<u8>, e: int) -> bool {
    let f = skip_ws(bytes, e);
    f >= bytes.len() || bytes[f] == 40 || (m_values(bytes, f) && (f + 6 >= bytes.len()
        || is_follow_byte(bytes[f + 6])))
}

/// An `INSERT` statement may carry no table alias: the parser asserts the
/// alias absent only after a full successful parse, and panics otherwise.
/// Where the statement cannot reach that assert (a malformed prefix fails
/// the parse first), it is left alone.
pub open spec fn insert_guard_ok(bytes: Seq<u8>) -> bool {
    if !m_insert(bytes, 0) {
        true
    } else {
        let a = skip_ws(bytes, 6);
        if a == 6 {
            true
        } else if m_ignore(bytes, a) {
            let b = skip_ws(bytes, a + 6);
            if b == a + 6 {
                true
            } else {
                insert_after_into(bytes, b)
            }
        } else {
            insert_after_into(bytes, a)
        }
    }
}

pub open spec fn insert_after_into(bytes: Seq<u8>, b: int) -> bool {
    if !m_into(bytes, b) {
        true
    } else {
        let c = skip_ws(bytes, b + 4);
        if c == b + 4 {
            true
        } else {
            let e = table_token_end(bytes, c);
            if e < 0 {
                true
            } else {
                safe_insert_follow(bytes, e)
            }
        }
    }
}

/// A `CREATE TABLE` statement may carry no table alias either: after the
/// table name, only a field list may follow.
pub open spec fn create_guard_ok(bytes: Seq<u8>) -> bool {
    if !m_create(bytes, 0) {
        true
    } else {
        let a = skip_ws(bytes, 6);
        if a == 6 || !m_table(bytes, a) {
            true
        } else {
            let b = skip_ws(bytes, a + 5);
            if b == a + 5 {
                true
            } else {
                let e = table_token_end(bytes, b);
                if e < 0 {
                    true
                } else {
                    let f = skip_ws(bytes, e);
                    f < bytes.len() && bytes[f] == 40
                }
            }
        }
    }
}

/// The statements this library hands to the external parser: valid UTF-8
/// (the parser decodes identifiers and separators with a plain unwrap),
/// every decimal-digit run outside string literals short enough that none
/// of the parser's numeric conversions can overflow, and no table alias on
/// an `INSERT` or `CREATE TABLE` (the parser asserts those away).
pub open spec fn parse_safe(bytes: Seq<u8>) -> bool {
    vstd::utf8::valid_utf8(bytes) && scan_ok(bytes, 0, initial_qset()) && insert_guard_ok(bytes)
        && create_guard_ok(bytes)
}

/// The diagnostic reported for a statement the guard declines.
pub open spec fn unsafe_statement_msg() -> Seq<char> {
    "Unsupported statement: oversized number, table alias, or invalid encoding"@
}

pub fn make_unsafe_statement_msg() -> (m: String)
    ensures
        m@ == unsafe_statement_msg(),
{
    "Unsupported statement: oversized number, table alias, or invalid encoding".to_owned()
}

// Executable mirrors of the guard.

fn skip_ws_x(bytes: &Vec<u8>, i: usize) -> (r: usize)
    requires
        i <= bytes.len(),
    ensures
        r as int == skip_ws(bytes@, i as int),
        i <= r <= bytes.len(),
{
    let mut j = i;
    while j < bytes.len() && (bytes[j] == 32 || bytes[j] == 9 || bytes[j] == 10 || bytes[j] == 13)
        invariant
            i <= j <= bytes.len(),
            skip_ws(bytes@, i as int) == skip_ws(bytes@, j as int),
        decreases bytes.len() - j,
    {
        j += 1;
    }
    j
}

fn ident_end_x(bytes: &Vec<u8>, i: usize) -> (r: usize)
    requires
        i <= bytes.len(),
    ensures
        r as int == ident_end(bytes@, i as int),
        i <= r <= bytes.len(),
{
    let mut j = i;
    while j < bytes.len() && ident_b(bytes[j])
        invariant
            i <= j <= bytes.len(),
            ident_end(bytes@, i as int) == ident_end(bytes@, j as int),
        decreases bytes.len() - j,
    {
        j += 1;
    }
    j
}

fn ident_b(b: u8) -> (r: bool)
    ensures
        r == is_ident_byte(b),
{
    (48 <= b && b <= 57) || (65 <= b && b <= 90) || (97 <= b && b <= 122) || b == 95 || b == 64
}

fn run_end_x(bytes: &Vec<u8>, i: usize) -> (r: usize)
    requires
        i <= bytes.len(),
    ensures
        r as int == i + run_len(bytes@, i as int),
        i <= r <= bytes.len(),
{
    let mut j = i;
    while j < bytes.len() && 48 <= bytes[j] && bytes[j] <= 57
        invariant
            i <= j <= bytes.len(),
            run_len(bytes@, i as int) == (j - i) + run_len(bytes@, j as int),
        decreases bytes.len() - j,
    {
        j += 1;
    }
    j
}

fn table_token_end_x(bytes: &Vec<u8>, i: usize) -> (r: Option<usize>)
    requires
        i <= bytes.len(),
    ensures
        match r {
            Some(e) => e as int == table_token_end(bytes@, i as int) && e <= bytes.len(),
            None => table_token_end(bytes@, i as int) == -1,
        },
{
    if i < bytes.len() && (bytes[i] == 96 || bytes[i] == 91) {
        let close: u8 = if bytes[i] == 96 {
            96
        } else {
            93
        };
        let e = ident_end_x(bytes, i + 1);
        if e > i + 1 && e < bytes.len() && bytes[e] == close {
            Some(e + 1)
        } else {
            None
        }
    } else {
        let e = ident_end_x(bytes, i);
        if e > i {
            Some(e)
        } else {
            None
        }
    }
}

fn lower_b(b: u8) -> (r: u8)
    ensures
        r == lower_byte(b),
{
    if 65 <= b && b <= 90 {
        b + 32
    } else {
        b
    }
}

fn m_insert_x(bytes: &Vec<u8>, i: usize) -> (r: bool)
    requires
        i <= bytes.len(),
    ensures
        r == m_insert(bytes@, i as int),
{
    bytes.len() - i >= 6 && lower_b(bytes[i]) == 105 && lower_b(bytes[i + 1]) == 110 && lower_b(
        bytes[i + 2],
    ) == 115 && lower_b(bytes[i + 3]) == 101 && lower_b(bytes[i + 4]) == 114 && lower_b(
        bytes[i + 5],
    ) == 116
}

fn m_ignore_x(bytes: &Vec<u8>, i: usize) -> (r: bool)
    requires
        i <= bytes.len(),
    ensures
        r == m_ignore(bytes@, i as int),
{
    bytes.len() - i >= 6 && lower_b(bytes[i]) == 105 && lower_b(bytes[i + 1]) == 103 && lower_b(
        bytes[i + 2],
    ) == 110 && lower_b(bytes[i + 3]) == 111 && lower_b(bytes[i + 4]) == 114 && lower_b(
        bytes[i + 5],
    ) == 101
}

fn m_into_x(bytes: &Vec<u8>, i: usize) -> (r: bool)
    requires
        i <= bytes.len(),
    ensures
        r == m_into(bytes@, i as int),
{
    bytes.len() - i >= 4 && lower_b(bytes[i]) == 105 && lower_b(bytes[i + 1]) == 110 && lower_b(
        bytes[i + 2],
    ) == 116 && lower_b(bytes[i + 3]) == 111
}

fn m_values_x(bytes: &Vec<u8>, i: usize) -> (r: bool)
    requires
        i <= bytes.len(),
    ensures
        r == m_values(bytes@, i as int),
{
    bytes.len() - i >= 6 && lower_b(bytes[i]) == 118 && lower_b(bytes[i + 1]) == 97 && lower_b(
        bytes[i + 2],
    ) == 108 && lower_b(bytes[i + 3]) == 117 && lower_b(bytes[i + 4]) == 101 && lower_b(
        bytes[i + 5],
    ) == 115
}

fn m_create_x(bytes: &Vec<u8>, i: usize) -> (r: bool)
    requires
        i <= bytes.len(),
    ensures
        r == m_create(bytes@, i as int),
{
    bytes.len() - i >= 6 && lower_b(bytes[i]) == 99 && lower_b(bytes[i + 1]) == 114 && lower_b(
        bytes[i + 2],
    ) == 101 && lower_b(bytes[i + 3]) == 97 && lower_b(bytes[i + 4]) == 116 && lower_b(
        bytes[i + 5],
    ) == 101
}

fn m_table_x(bytes: &Vec<u8>, i: usize) -> (r: bool)
    requires
        i <= bytes.len(),
    ensures
        r == m_table(bytes@, i as int),
{
    bytes.len() - i >= 5 && lower_b(bytes[i]) == 116 && lower_b(bytes[i + 1]) == 97 && lower_b(
        bytes[i + 2],
    ) == 98 && lower_b(bytes[i + 3]) == 108 && lower_b(bytes[i + 4]) == 101
}

fn is_follow_byte_x(b: u8) -> (r: bool)
    ensures
        r == is_follow_byte(b),
{
    b == 32 || b == 10 || b == 59 || b == 40 || b == 41 || b == 9 || b == 44 || b == 61
}

fn safe_insert_follow_x(bytes: &Vec<u8>, e: usize) -> (r: bool)
    requires
        e <= bytes.len(),
    ensures
        r == safe_insert_follow(bytes@, e as int),
{
    let f = skip_ws_x(bytes, e);
    if f >= bytes.len() {
        true
    } else if bytes[f] == 40 {
        true
    } else {
        m_values_x(bytes, f) && (bytes.len() - f <= 6 || is_follow_byte_x(bytes[f + 6]))
    }
}

fn insert_guard_x(bytes: &Vec<u8>) -> (r: bool)
    ensures
        r == insert_guard_ok(bytes@),
{
    if !m_insert_x(bytes, 0) {
        return true;
    }
    let a = skip_ws_x(bytes, 6);
    if a == 6 {
        return true;
    }
    let b: usize = if m_ignore_x(bytes, a) {
        let b2 = skip_ws_x(bytes, a + 6);
        if b2 == a + 6 {
            return true;
        }
        b2
    } else {
        a
    };
    if !m_into_x(bytes, b) {
        return true;
    }
    let c = skip_ws_x(bytes, b + 4);
    if c == b + 4 {
        return true;
    }
    match table_token_end_x(bytes, c) {
        None => true,
        Some(e) => safe_insert_follow_x(bytes, e),
    }
}

fn create_guard_x(bytes: &Vec<u8>) -> (r: bool)
    ensures
        r == create_guard_ok(bytes@),
{
    if !m_create_x(bytes, 0) {
        return true;
    }
    let a = skip_ws_x(bytes, 6);
    if a == 6 || !m_table_x(bytes, a) {
        return true;
    }
    let b = skip_ws_x(bytes, a + 5);
    if b == a + 5 {
        return true;
    }
    match table_token_end_x(bytes, b) {
        None => true,
        Some(e) => {
            let f = skip_ws_x(bytes, e);
            f < bytes.len() && bytes[f] == 40
        },
    }
}

fn scan_ok_x(bytes: &Vec<u8>) -> (r: bool)
    ensures
        r == scan_ok(bytes@, 0, initial_qset()),
{
    let n = bytes.len();
    let mut i: usize = 0;
    let mut s = QSet { out: true, sq: false, sqe: false, dq: false, dqe: false };
    proof {
        assert(s == initial_qset());
    }
    while i < n
        invariant
            0 <= i <= n,
            n == bytes@.len(),
            scan_ok(bytes@, 0, initial_qset()) == scan_ok(bytes@, i as int, s),
        decreases n - i,
    {
        let b = bytes[i];
        if s.out && 48 <= b && b <= 57 && (i == 0 || !(48 <= bytes[i - 1] && bytes[i - 1] <= 57)) {
            let j = run_end_x(bytes, i);
            let m = j - i;
            let mut ok = m <= 18;
            if i > 0 && bytes[i - 1] == 40 && j < n && bytes[j] == 41 {
                ok = ok && m <= 4;
            }
            if (i > 0 && bytes[i - 1] == 46) || (j < n && bytes[j] == 46) {
                ok = ok && m <= 9;
            }
            proof {
                assert(ok == run_ok(bytes@, i as int, m as int));
            }
            if !ok {
                proof {
                    assert(!scan_ok(bytes@, i as int, s));
                }
                return false;
            }
        }
        let s2 = QSet {
            out: (s.out && b != 39 && b != 34) || (s.sq && b == 39) || (s.dq && b == 34),
            sq: (s.out && b == 39) || (s.sq && b != 39) || s.sqe,
            sqe: s.sq && b == 92,
            dq: (s.out && b == 34) || (s.dq && b != 34) || s.dqe,
            dqe: s.dq && b == 92,
        };
        proof {
            assert(s2 == qset_step(s, bytes@[i as int]));
            assert(scan_ok(bytes@, i as int, s) == scan_ok(bytes@, i + 1, s2));
        }
        s = s2;
        i += 1;
    }
    proof {
        assert(scan_ok(bytes@, i as int, s));
    }
    true
}

/// Relies on `std::str::from_utf8`: it returns `Ok` exactly when the bytes
/// are valid UTF-8, and the returned text decodes those bytes, as
/// `vstd::utf8` specifies UTF-8 decoding.
#[verifier::external_body]
pub(crate) fn decode_statement_text(bytes: &Vec<u8>) -> (r: Option<String>)
    ensures
        match r {
            Some(s) => vstd::utf8::valid_utf8(bytes@) && s@ == vstd::utf8::decode_utf8(bytes@),
            None => !vstd::utf8::valid_utf8(bytes@),
        },
{
    match std::str::from_utf8(bytes) {
        Ok(s) => Some(s.to_owned()),
        Err(_) => None,
    }
}

/// Decides whether a statement may be handed to the external parser.
pub fn check_parse_safe(bytes: &Vec<u8>) -> (r: bool)
    ensures
        r == parse_safe(bytes@),
{
    let utf8_ok = decode_statement_text(bytes).is_some();
    utf8_ok && scan_ok_x(bytes) && insert_guard_x(bytes) && create_guard_x(bytes)
}

// ---------------------------------------------------------------------------
// The external parser boundary.
// ---------------------------------------------------------------------------

/// What the external SQL parser yields on a given byte buffer: a function of
/// the bytes alone.
pub uninterp spec fn parse_of(bytes: Seq<u8>) -> Result<StatementV, Seq<char>>;

pub open spec fn parse_result_view(r: Result<ParsedStatement, String>) -> Result<
    StatementV,
    Seq<char>,
> {
    match r {
        Ok(p) => Ok(p@),
        Err(e) => Err(e@),
    }
}

/// Relies on `nom_sql::parser::parse_query_bytes`: it parses one SQL
/// statement out of the bytes — a pure function of the bytes — returning a
/// typed query on success and a parse error otherwise. The parser converts
/// digit runs with plain unwraps (`i64`, `u64` and `.`-adjacent `i32`
/// literals, `(..)`-delimited `u16` type sizes), decodes identifiers and
/// separators with an unwrap, and asserts that a parsed `INSERT` or
/// `CREATE TABLE` carries no table alias, so `parse_safe` is required to
/// keep it off those panic sites. The body only maps the parser's own
/// variants onto `ParsedStatement`, one arm each.
#[verifier::external_body]
pub(crate) fn parse_statement(bytes: &Vec<u8>) -> (r: Result<ParsedStatement, String>)
    requires
        parse_safe(bytes@),
    ensures
        parse_result_view(r) == parse_of(bytes@),
{
    match nom_sql::parser::parse_query_bytes(bytes) {
        Ok(SqlQuery::Insert(s)) => Ok(ParsedStatement::Insert {
            table: s.table.name,
            rows: s.data.into_iter().map(|row| row.into_iter().map(|l| match l {
                Literal::String(x) => LiteralValue::Str(x),
                o => LiteralValue::Other(format!("{:?}", o)),
            }).collect()).collect(),
        }),
        Ok(SqlQuery::CreateTable(c)) => Ok(ParsedStatement::CreateTable {
            table: c.table.name,
            columns: c.fields.into_iter().map(|f| f.column.name).collect(),
        }),
        Ok(q) => Ok(ParsedStatement::Other { desc: format!("{:?}", q) }),
        Err(e) => Err(e.to_string()),
    }
}

// ---------------------------------------------------------------------------
// Error messages.
// ---------------------------------------------------------------------------

pub open spec fn wrong_table_msg(name: Seq<char>) -> Seq<char> {
    "Wrong table: '"@ + name + "'"@
}

pub open spec fn target_not_found_msg() -> Seq<char> {
    "Target field not found"@
}

pub open spec fn not_import_msg(desc: Seq<char>) -> Seq<char> {
    "Not an import statement: "@ + desc
}

pub open spec fn insert_before_create_msg() -> Seq<char> {
    "Insert statement before create table"@
}

pub open spec fn unexpected_create_msg() -> Seq<char> {
    "Unexpected CREATE TABLE"@
}

pub fn make_wrong_table_msg(name: &String) -> (m: String)
    ensures
        m@ == wrong_table_msg(name@),
{
    let mut m = "Wrong table: '".to_owned();
    m.append(name.as_str());
    m.append("'");
    proof {
        assert(m@ =~= wrong_table_msg(name@));
    }
    m
}

// ---------------------------------------------------------------------------
// Schema resolution: positions of the two target columns.
// ---------------------------------------------------------------------------

/// Index of the last occurrence of `name` in `cols`, or `-1` when absent.
/// (When a name is declared twice, the later declaration wins.)
pub open spec fn last_index_of(cols: Seq<Seq<char>>, name: Seq<char>) -> int
    decreases cols.len(),
{
    if cols.len() == 0 {
        -1
    } else if cols.last() == name {
        cols.len() - 1
    } else {
        last_index_of(cols.drop_last(), name)
    }
}

/// The schema binding a `CREATE TABLE` for the target table resolves to:
/// the positions of both target columns, or nothing when either is missing.
pub open spec fn find_indices_spec(cols: Seq<Seq<char>>) -> Option<(int, int)> {
    let i1 = last_index_of(cols, domain_column_spec());
    let i2 = last_index_of(cols, path_column_spec());
    if i1 >= 0 && i2 >= 0 {
        Some((i1, i2))
    } else {
        None
    }
}

pub open spec fn option_index_matches(r: Option<usize>, i: int) -> bool {
    match r {
        Some(v) => v as int == i,
        None => i == -1,
    }
}

fn find_one_index(fields: &Vec<String>, name: &String) -> (r: Option<usize>)
    ensures
        option_index_matches(r, last_index_of(fields.deep_view(), name@)),
{
    let ghost cols = fields.deep_view();
    let mut found: Option<usize> = None;
    let mut i: usize = 0;
    while i < fields.len()
        invariant
            0 <= i <= fields.len(),
            cols == fields.deep_view(),
            cols.len() == fields.len(),
            option_index_matches(found, last_index_of(cols.take(i as int), name@)),
        decreases fields.len() - i,
    {
        let hit = fields[i].eq(name);
        proof {
            assert(cols.take(i + 1).drop_last() =~= cols.take(i as int));
            assert(cols.take(i + 1).last() == cols[i as int]);
            assert(cols[i as int] == fields[i as int]@);
            assert(last_index_of(cols.take(i + 1), name@) == if hit {
                i as int
            } else {
                last_index_of(cols.take(i as int), name@)
            });
        }
        if hit {
            found = Some(i);
        }
        i += 1;
    }
    proof {
        assert(cols.take(fields.len() as int) =~= cols);
    }
    found
}

/// Scans the declared column names in order and yields the zero-based
/// positions of the two target columns, or nothing unless both are present.
pub fn find_target_field_indices(fields: &Vec<String>) -> (r: Option<(usize, usize)>)
    ensures
        match r {
            Some(t) => find_indices_spec(fields.deep_view()) == Some((t.0 as int, t.1 as int)),
            None => find_indices_spec(fields.deep_view()) is None,
        },
{
    let dc = domain_column();
    let pc = path_column();
    let r1 = find_one_index(fields, &dc);
    let r2 = find_one_index(fields, &pc);
    match (r1, r2) {
        (Some(i1), Some(i2)) => Some((i1, i2)),
        _ => None,
    }
}

// ---------------------------------------------------------------------------
// Statement classification.
// ---------------------------------------------------------------------------

/// What one parsed statement contributes to the scan: the rows of an
/// `INSERT` for the target table, the schema binding of a `CREATE TABLE`
/// for the target table, or an error.
pub enum ExtractedSql {
    InsertData(Vec<Vec<LiteralValue>>),
    CreateTableData((usize, usize)),
    Error(String),
}

/// Mathematical model of an `ExtractedSql`.
#[verifier::ext_equal]
pub ghost enum ExtractedV {
    InsertData(Seq<Seq<LiteralV>>),
    CreateTableData((int, int)),
    Error(Seq<char>),
}

impl View for ExtractedSql {
    type V = ExtractedV;

    open spec fn view(&self) -> ExtractedV {
        match self {
            ExtractedSql::InsertData(rows) => ExtractedV::InsertData(rows.deep_view()),
            ExtractedSql::CreateTableData(t) => ExtractedV::CreateTableData(
                (t.0 as int, t.1 as int),
            ),
            ExtractedSql::Error(e) => ExtractedV::Error(e@),
        }
    }
}

/// Classification of one parsed statement: an `INSERT` for the target table
/// yields its rows; a `CREATE TABLE` for the target table yields the schema
/// binding when both target columns are declared and a "target field not
/// found" error otherwise; any statement for another table is a wrong-table
/// error; anything else is not an import statement.
pub open spec fn extract_data_spec(q: StatementV) -> ExtractedV {
    match q {
        StatementV::Insert { table, rows } => if table == target_table_spec() {
            ExtractedV::InsertData(rows)
        } else {
            ExtractedV::Error(wrong_table_msg(table))
        },
        StatementV::CreateTable { table, columns } => if table == target_table_spec() {
            match find_indices_spec(columns) {
                Some(t) => ExtractedV::CreateTableData(t),
                None => ExtractedV::Error(target_not_found_msg()),
            }
        } else {
            ExtractedV::Error(wrong_table_msg(table))
        },
        StatementV::Other { desc } => ExtractedV::Error(not_import_msg(desc)),
    }
}

pub fn extract_data(query: ParsedStatement) -> (r: ExtractedSql)
    ensures
        r@ == extract_data_spec(query@),
{
    let tt = target_table();
    match query {
        ParsedStatement::Insert { table, rows } => {
            if table == tt {
                ExtractedSql::InsertData(rows)
            } else {
                ExtractedSql::Error(make_wrong_table_msg(&table))
            }
        },
        ParsedStatement::CreateTable { table, columns } => {
            if table == tt {
                match find_target_field_indices(&columns) {
                    Some(indices) => ExtractedSql::CreateTableData(indices),
                    None => ExtractedSql::Error("Target field not found".to_owned()),
                }
            } else {
                ExtractedSql::Error(make_wrong_table_msg(&table))
            }
        },
        ParsedStatement::Other { desc } => {
            let mut m = "Not an import statement: ".to_owned();
            m.append(desc.as_str());
            ExtractedSql::Error(m)
        },
    }
}

} // verus!
