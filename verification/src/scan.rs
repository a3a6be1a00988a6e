//! Statement reassembly and the scan state machine: turning a stream of
//! physical lines into complete statement byte buffers (dropping comment
//! lines), resolving the schema binding from the first successful
//! `CREATE TABLE`, and dispatching every later complete statement as a
//! self-contained unit of work.

use vstd::prelude::*;
use vstd::string::*;
use crate::statement::{
    parse_of, extract_data_spec, ExtractedV, ExtractedSql, insert_before_create_msg,
    parse_statement, extract_data, parse_safe, unsafe_statement_msg, make_unsafe_statement_msg,
    check_parse_safe, decode_statement_text,
};
use crate::extract::{
    parse_insert_spec, extract_rows_spec, results_view, parse_insert,
    extract_urls_from_insert_data,
};

verus! {

/// Model of one extraction result: a pair of extracted strings, or an error
/// message.
pub type ResV = Result<(Seq<char>, Seq<char>), Seq<char>>;

// ---------------------------------------------------------------------------
// Comment and statement-boundary tests.
// ---------------------------------------------------------------------------

/// A line is treated as a comment (and dropped) when it is empty or begins
/// with `--` or `/*`.
pub open spec fn is_comment_spec(line: Seq<u8>) -> bool {
    line.len() == 0
    || (line.len() >= 2 && line[0] == 45u8 && line[1] == 45u8)
    || (line.len() >= 2 && line[0] == 47u8 && line[1] == 42u8)
}

pub fn is_comment(line_bytes: &Vec<u8>) -> (r: bool)
    ensures
        r == is_comment_spec(line_bytes@),
{
    line_bytes.len() == 0
    || (line_bytes.len() >= 2 && line_bytes[0] == 45u8 && line_bytes[1] == 45u8)
    || (line_bytes.len() >= 2 && line_bytes[0] == 47u8 && line_bytes[1] == 42u8)
}

/// A statement buffer holds a complete statement exactly when its final byte
/// is `;`. (A `;` inside a quoted literal at end of line is mis-detected as
/// a boundary; the dump format is relied on not to produce one.)
pub open spec fn is_complete_spec(statement: Seq<u8>) -> bool {
    statement.len() > 0 && statement[statement.len() - 1] == 59u8
}

pub fn is_complete_statement(statement: &Vec<u8>) -> (r: bool)
    ensures
        r == is_complete_spec(statement@),
{
    statement.len() > 0 && statement[statement.len() - 1] == 59u8
}

// ---------------------------------------------------------------------------
// Parse-failure diagnostics carry a bounded excerpt of the statement.
// ---------------------------------------------------------------------------

/// The text a statement's bytes decode to for diagnostics: its UTF-8
/// decoding, or a placeholder when the bytes are not valid UTF-8.
pub open spec fn statement_text(stmt: Seq<u8>) -> Seq<char> {
    if vstd::utf8::valid_utf8(stmt) {
        vstd::utf8::decode_utf8(stmt)
    } else {
        "invalid utf8"@
    }
}

/// A bounded excerpt of a statement's text: its first 150 characters, with
/// an ellipsis marker appended.
pub open spec fn excerpt_of(stmt: Seq<u8>) -> Seq<char> {
    let cs = statement_text(stmt);
    let end = if cs.len() < 150 { cs.len() as int } else { 150 };
    cs.take(end) + " [...]"@
}

fn excerpt(stmt: &Vec<u8>) -> (r: String)
    ensures
        r@ == excerpt_of(stmt@),
{
    let text: String = match decode_statement_text(stmt) {
        Some(s) => s,
        None => "invalid utf8".to_owned(),
    };
    let len = text.as_str().unicode_len();
    let end = if len < 150 { len } else { 150 };
    let mut r = text.as_str().substring_char(0, end).to_owned();
    r.append(" [...]");
    proof {
        assert(r@ =~= excerpt_of(stmt@));
    }
    r
}

/// The message reported when the external parser rejects a statement.
pub open spec fn parse_failure_msg(err: Seq<char>, stmt: Seq<u8>) -> Seq<char> {
    err + " (while parsing: "@ + excerpt_of(stmt) + ")"@
}

// ---------------------------------------------------------------------------
// Scan state and per-line actions.
// ---------------------------------------------------------------------------

/// Scan state: the bytes of the statement being reassembled, and the schema
/// binding once a `CREATE TABLE` for the target table has resolved it.
pub struct ScanState {
    pub current_statement: Vec<u8>,
    pub target_fields: Option<(usize, usize)>,
}

/// Mathematical model of a `ScanState`.
#[verifier::ext_equal]
pub ghost struct ScanV {
    pub buf: Seq<u8>,
    pub binding: Option<(int, int)>,
}

impl View for ScanState {
    type V = ScanV;

    open spec fn view(&self) -> ScanV {
        ScanV {
            buf: self.current_statement@,
            binding: match self.target_fields {
                Some(t) => Some((t.0 as int, t.1 as int)),
                None => None,
            },
        }
    }
}

/// The state a scan starts in: empty buffer, no schema binding.
pub open spec fn initial_scan_state() -> ScanV {
    ScanV { buf: Seq::empty(), binding: None }
}

/// What consuming one line yields: nothing, an error to report, or a
/// complete statement (with the schema binding copied into it) to hand to a
/// worker as a self-contained unit of work.
pub enum ScanLineAction {
    Pass,
    ReportError(String),
    ExtractFrom(Vec<u8>, (usize, usize)),
}

/// Mathematical model of a `ScanLineAction`.
#[verifier::ext_equal]
pub ghost enum ActionV {
    Pass,
    ReportError(Seq<char>),
    ExtractFrom(Seq<u8>, (int, int)),
}

impl View for ScanLineAction {
    type V = ActionV;

    open spec fn view(&self) -> ActionV {
        match self {
            ScanLineAction::Pass => ActionV::Pass,
            ScanLineAction::ReportError(s) => ActionV::ReportError(s@),
            ScanLineAction::ExtractFrom(bytes, t) => ActionV::ExtractFrom(
                bytes@,
                (t.0 as int, t.1 as int),
            ),
        }
    }
}

// ---------------------------------------------------------------------------
// The scan state machine, as one specification.
// ---------------------------------------------------------------------------

/// What dispatching one complete statement does to the schema binding, and
/// the action it yields. Once the binding is resolved, every complete
/// statement is handed out as a unit of work without being parsed here;
/// before that, a statement the parse guard declines is reported, and any
/// other statement is parsed at once: a `CREATE TABLE` for the target table
/// with both target columns resolves the binding, an `INSERT` for the
/// target table is an "insert before create table" error, and every other
/// outcome reports the classification's error.
pub open spec fn dispatch_spec(binding: Option<(int, int)>, stmt: Seq<u8>) -> (Option<(int, int)>,
    ActionV) {
    match binding {
        Some(t) => (binding, ActionV::ExtractFrom(stmt, t)),
        None => if !parse_safe(stmt) {
            (binding, ActionV::ReportError(unsafe_statement_msg()))
        } else {
            match parse_of(stmt) {
                Ok(q) => match extract_data_spec(q) {
                    ExtractedV::InsertData(rows) => (binding, ActionV::ReportError(
                        insert_before_create_msg(),
                    )),
                    ExtractedV::CreateTableData(t) => (Some(t), ActionV::Pass),
                    ExtractedV::Error(e) => (binding, ActionV::ReportError(e)),
                },
                Err(e) => (binding, ActionV::ReportError(parse_failure_msg(e, stmt))),
            }
        },
    }
}

/// One step of the reassembler: a comment line changes nothing; any other
/// line's bytes join the buffer; when the buffer then ends in `;` it is
/// dispatched as one complete statement and cleared.
pub open spec fn consume_line(st: ScanV, line: Seq<u8>) -> (ScanV, ActionV) {
    if is_comment_spec(line) {
        (st, ActionV::Pass)
    } else {
        let buf2 = st.buf + line;
        if is_complete_spec(buf2) {
            let (b2, a) = dispatch_spec(st.binding, buf2);
            (ScanV { buf: Seq::empty(), binding: b2 }, a)
        } else {
            (ScanV { buf: buf2, binding: st.binding }, ActionV::Pass)
        }
    }
}

/// The extraction results one action yields: nothing for `Pass`, one error
/// for `ReportError`, and one result per row of the statement's insert data
/// for `ExtractFrom` (or one error when it does not parse as an insert for
/// the target table).
pub open spec fn results_of(a: ActionV) -> Seq<ResV> {
    match a {
        ActionV::Pass => Seq::empty(),
        ActionV::ReportError(m) => seq![Err(m)],
        ActionV::ExtractFrom(stmt, t) => match parse_insert_spec(stmt) {
            Ok(rows) => extract_rows_spec(rows, t),
            Err(e) => seq![Err(e)],
        },
    }
}

/// The whole scan from a given state: consume each line in order, collecting
/// every action's results in dispatch order.
pub open spec fn scan_from(st: ScanV, lines: Seq<Seq<u8>>) -> (ScanV, Seq<ResV>)
    decreases lines.len(),
{
    if lines.len() == 0 {
        (st, Seq::empty())
    } else {
        let (st1, a) = consume_line(st, lines.first());
        let (st2, rs) = scan_from(st1, lines.drop_first());
        (st2, results_of(a) + rs)
    }
}

/// The multiset-of-results meaning of scanning a whole input, from the
/// initial state.
pub open spec fn scan_spec(lines: Seq<Seq<u8>>) -> Seq<ResV> {
    scan_from(initial_scan_state(), lines).1
}

// ---------------------------------------------------------------------------
// The executable reassembler.
// ---------------------------------------------------------------------------

fn clone_bytes(v: &Vec<u8>) -> (r: Vec<u8>)
    ensures
        r@ == v@,
{
    let r = v.clone();
    proof {
        assert(r@ =~= v@);
    }
    r
}

impl ScanState {
    /// A fresh scan: empty statement buffer (pre-sized for large multi-row
    /// inserts), no schema binding.
    pub fn new() -> (r: ScanState)
        ensures
            r@ == initial_scan_state(),
    {
        let r = ScanState { current_statement: Vec::with_capacity(1_000_000), target_fields: None };
        proof {
            assert(r@ =~= initial_scan_state());
        }
        r
    }

    /// Consumes one physical line, taking its bytes; yields the action the
    /// line completes.
    pub fn add_line(&mut self, line_bytes: &mut Vec<u8>) -> (a: ScanLineAction)
        ensures
            ({
                let (st2, av) = consume_line(old(self)@, old(line_bytes)@);
                final(self)@ == st2 && a@ == av
            }),
            final(line_bytes)@ == if is_comment_spec(old(line_bytes)@) {
                old(line_bytes)@
            } else {
                Seq::<u8>::empty()
            },
    {
        if is_comment(line_bytes) {
            ScanLineAction::Pass
        } else {
            self.current_statement.append(line_bytes);
            if is_complete_statement(&self.current_statement) {
                let scan_result = self.extract_scan_result();
                self.current_statement.clear();
                proof {
                    let (st2, av) = consume_line(old(self)@, old(line_bytes)@);
                    assert(final(self)@ =~= st2);
                }
                scan_result
            } else {
                proof {
                    let (st2, av) = consume_line(old(self)@, old(line_bytes)@);
                    assert(final(self)@ =~= st2);
                }
                ScanLineAction::Pass
            }
        }
    }

    /// Dispatches the buffered statement: hands it out as a unit of work
    /// once the schema binding is known, and otherwise parses it at once to
    /// resolve the binding or report the failure.
    fn extract_scan_result(&mut self) -> (a: ScanLineAction)
        ensures
            ({
                let (b2, av) = dispatch_spec(old(self)@.binding, old(self)@.buf);
                final(self)@.binding == b2 && final(self)@.buf == old(self)@.buf && a@ == av
            }),
    {
        if let Some(target) = self.target_fields {
            ScanLineAction::ExtractFrom(clone_bytes(&self.current_statement), target)
        } else if !check_parse_safe(&self.current_statement) {
            ScanLineAction::ReportError(make_unsafe_statement_msg())
        } else {
            match parse_statement(&self.current_statement) {
                Ok(sql) => match extract_data(sql) {
                    ExtractedSql::InsertData(_) => ScanLineAction::ReportError(
                        "Insert statement before create table".to_owned(),
                    ),
                    ExtractedSql::CreateTableData(index) => {
                        self.target_fields = Some(index);
                        ScanLineAction::Pass
                    },
                    ExtractedSql::Error(err) => ScanLineAction::ReportError(err),
                },
                Err(s) => {
                    let ghost e = s@;
                    let mut m = s;
                    m.append(" (while parsing: ");
                    let ex = excerpt(&self.current_statement);
                    m.append(ex.as_str());
                    m.append(")");
                    proof {
                        assert(m@ =~= parse_failure_msg(e, old(self)@.buf));
                    }
                    ScanLineAction::ReportError(m)
                },
            }
        }
    }
}

// ---------------------------------------------------------------------------
// Running one unit of work.
// ---------------------------------------------------------------------------

impl ScanLineAction {
    /// Processes one unit of work to its extraction results: parse the
    /// dispatched statement, then extract every row independently.
    pub fn into_results(self) -> (r: Vec<Result<(String, String), String>>)
        ensures
            results_view(r@) == results_of(self@),
    {
        match self {
            ScanLineAction::Pass => {
                let r: Vec<Result<(String, String), String>> = Vec::new();
                proof {
                    assert(results_view(r@) =~= results_of(ActionV::Pass));
                }
                r
            },
            ScanLineAction::ReportError(s) => {
                let mut r: Vec<Result<(String, String), String>> = Vec::new();
                r.push(Err(s));
                proof {
                    assert(results_view(r@) =~= results_of(ActionV::ReportError(s@)));
                }
                r
            },
            ScanLineAction::ExtractFrom(bytes, targets) => match parse_insert(&bytes) {
                Ok(data) => extract_urls_from_insert_data(data, targets),
                Err(s) => {
                    let mut r: Vec<Result<(String, String), String>> = Vec::new();
                    r.push(Err(s));
                    proof {
                        assert(results_view(r@) =~= seq![Err(s@)]);
                    }
                    r
                },
            },
        }
    }
}

// ---------------------------------------------------------------------------
// The whole sequential scan.
// ---------------------------------------------------------------------------

pub proof fn lemma_scan_from_snoc(st: ScanV, ls: Seq<Seq<u8>>, l: Seq<u8>)
    ensures
        ({
            let (s1, r1) = scan_from(st, ls);
            let (s2, a) = consume_line(s1, l);
            scan_from(st, ls.push(l)).0 == s2 && scan_from(st, ls.push(l)).1 == r1 + results_of(a)
        }),
    decreases ls.len(),
{
    reveal_with_fuel(scan_from, 3);
    let pushed = ls.push(l);
    if ls.len() == 0 {
        assert(pushed.first() == l);
        assert(pushed.drop_first() =~= Seq::<Seq<u8>>::empty());
        assert(scan_from(st, pushed).1 =~= scan_from(st, ls).1 + results_of(
            consume_line(scan_from(st, ls).0, l).1,
        ));
    } else {
        let (st1, a0) = consume_line(st, ls.first());
        lemma_scan_from_snoc(st1, ls.drop_first(), l);
        assert(pushed.first() == ls.first());
        assert(pushed.drop_first() =~= ls.drop_first().push(l));
        let (s1, r1) = scan_from(st, ls);
        let (s2, a) = consume_line(s1, l);
        assert(scan_from(st, pushed).1 =~= r1 + results_of(a));
    }
}

/// Runs the whole scan sequentially over a vector of physical lines,
/// yielding every unit of work's results in dispatch order.
pub fn run_scan(lines: &Vec<Vec<u8>>) -> (r: Vec<Result<(String, String), String>>)
    ensures
        results_view(r@) == scan_spec(lines.deep_view()),
{
    let ghost dvl = lines.deep_view();
    let mut state = ScanState::new();
    let mut out: Vec<Result<(String, String), String>> = Vec::new();
    let mut i: usize = 0;
    while i < lines.len()
        invariant
            0 <= i <= lines.len(),
            dvl == lines.deep_view(),
            dvl.len() == lines.len(),
            state@ == scan_from(initial_scan_state(), dvl.take(i as int)).0,
            results_view(out@) == scan_from(initial_scan_state(), dvl.take(i as int)).1,
        decreases lines.len() - i,
    {
        proof {
            assert(dvl[i as int] == lines[i as int]@);
            assert(dvl.take(i + 1).drop_last() =~= dvl.take(i as int));
            lemma_scan_from_snoc(initial_scan_state(), dvl.take(i as int), dvl[i as int]);
            assert(dvl.take(i as int).push(dvl[i as int]) =~= dvl.take(i + 1));
        }
        let mut line = clone_bytes(&lines[i]);
        let action = state.add_line(&mut line);
        let mut rs = action.into_results();
        let ghost old_out = out@;
        let ghost rs_snapshot = rs@;
        out.append(&mut rs);
        proof {
            assert(results_view(out@) =~= results_view(old_out) + results_view(rs_snapshot));
        }
        i += 1;
    }
    proof {
        assert(dvl.take(lines.len() as int) =~= dvl);
    }
    out
}

} // verus!
