//! The scan's general guarantees, stated and proved over the state-machine
//! specification: reassembly is insensitive to where a statement's bytes are
//! split and to interleaved comment lines; a bad statement contributes
//! exactly its one error and leaves the rest of the scan untouched; the
//! whole scan is a function of its input.

use vstd::prelude::*;
use crate::scan::{
    ScanV, ActionV, ResV, scan_from, scan_spec, consume_line, dispatch_spec, results_of,
    is_comment_spec, is_complete_spec, lemma_scan_from_snoc, initial_scan_state,
};
use crate::statement::{
    parse_of, StatementV, LiteralV, wrong_table_msg, insert_before_create_msg,
    target_not_found_msg, target_table_spec, find_indices_spec, parse_safe,
};
use crate::extract::extract_rows_spec;

verus! {

/// The bytes of a statement split over several physical lines, rejoined.
pub open spec fn concat_frags(fs: Seq<Seq<u8>>) -> Seq<u8>
    decreases fs.len(),
{
    if fs.len() == 0 {
        Seq::empty()
    } else {
        concat_frags(fs.drop_last()) + fs.last()
    }
}

proof fn lemma_fragments_prefix(st: ScanV, fragments: Seq<Seq<u8>>, k: int)
    requires
        st.buf == Seq::<u8>::empty(),
        0 <= k <= fragments.len(),
        forall|j: int| 0 <= j < fragments.len() ==> !is_comment_spec(#[trigger] fragments[j]),
        forall|j: int| 0 <= j < k ==> !is_complete_spec(
            #[trigger] concat_frags(fragments.take(j + 1)),
        ),
    ensures
        scan_from(st, fragments.take(k)) == (
            ScanV { buf: concat_frags(fragments.take(k)), binding: st.binding },
            Seq::<ResV>::empty(),
        ),
    decreases k,
{
    if k == 0 {
        assert(fragments.take(0) =~= Seq::<Seq<u8>>::empty());
        assert(scan_from(st, fragments.take(0)) == (st, Seq::<ResV>::empty()));
        assert(st =~= ScanV { buf: concat_frags(fragments.take(0)), binding: st.binding });
    } else {
        lemma_fragments_prefix(st, fragments, k - 1);
        lemma_scan_from_snoc(st, fragments.take(k - 1), fragments[k - 1]);
        assert(fragments.take(k) =~= fragments.take(k - 1).push(fragments[k - 1]));
        assert(fragments.take(k).drop_last() =~= fragments.take(k - 1));
        assert(concat_frags(fragments.take(k)) == concat_frags(fragments.take(k - 1))
            + fragments[k - 1]);
        let st1 = ScanV { buf: concat_frags(fragments.take(k - 1)), binding: st.binding };
        let (st2, a) = consume_line(st1, fragments[k - 1]);
        assert(!is_complete_spec(concat_frags(fragments.take(k))));
        assert(st2 =~= ScanV { buf: concat_frags(fragments.take(k)), binding: st.binding });
        assert(a == ActionV::Pass);
        assert(scan_from(st, fragments.take(k)).1 =~= Seq::<ResV>::empty());
    }
}

/// A statement's bytes split across any number of physical lines — none of
/// them comment-shaped, none but the last completing the statement —
/// reassemble to the same dispatch, the same results and the same final
/// state as the unsplit statement fed as one line.
pub proof fn lemma_fragmented_statement(st: ScanV, fragments: Seq<Seq<u8>>)
    requires
        st.buf == Seq::<u8>::empty(),
        fragments.len() >= 1,
        forall|j: int| 0 <= j < fragments.len() ==> !is_comment_spec(#[trigger] fragments[j]),
        forall|j: int| 0 <= j < fragments.len() - 1 ==> !is_complete_spec(
            #[trigger] concat_frags(fragments.take(j + 1)),
        ),
        is_complete_spec(concat_frags(fragments)),
        !is_comment_spec(concat_frags(fragments)),
    ensures
        scan_from(st, fragments) == scan_from(st, seq![concat_frags(fragments)]),
{
    reveal_with_fuel(scan_from, 3);
    let full = concat_frags(fragments);
    let last = fragments.len() - 1;
    lemma_fragments_prefix(st, fragments, last);
    lemma_scan_from_snoc(st, fragments.take(last), fragments[last]);
    assert(fragments.take(last).push(fragments[last]) =~= fragments);
    assert(fragments.take(fragments.len() as int) =~= fragments);
    assert(concat_frags(fragments.take(fragments.len() as int)) == full);
    let st1 = ScanV { buf: concat_frags(fragments.take(last)), binding: st.binding };
    assert(st1.buf + fragments[last] == full) by {
        assert(fragments.take(fragments.len() as int).drop_last() =~= fragments.take(last));
    }
    // The unsplit statement, fed as one line.
    let single = seq![full];
    assert(single.first() == full);
    assert(single.drop_first() =~= Seq::<Seq<u8>>::empty());
    assert(st.buf + full =~= full);
    let (b2, a) = dispatch_spec(st.binding, full);
    assert(consume_line(st, full) == (ScanV { buf: Seq::<u8>::empty(), binding: b2 }, a));
    assert(consume_line(st1, fragments[last]) == (
        ScanV { buf: Seq::<u8>::empty(), binding: b2 },
        a,
    ));
    assert(scan_from(st, fragments).1 =~= scan_from(st, single).1);
    assert(scan_from(st, fragments).0 == scan_from(st, single).0);
}

/// A comment-shaped line inserted anywhere into the input changes nothing:
/// neither the results nor the final state of the scan.
pub proof fn lemma_comment_line_dropped(st: ScanV, lines: Seq<Seq<u8>>, k: int, c: Seq<u8>)
    requires
        0 <= k <= lines.len(),
        is_comment_spec(c),
    ensures
        scan_from(st, lines.insert(k, c)) == scan_from(st, lines),
    decreases k,
{
    reveal_with_fuel(scan_from, 2);
    let ins = lines.insert(k, c);
    if k == 0 {
        assert(ins.first() == c);
        assert(ins.drop_first() =~= lines);
        assert(consume_line(st, c) == (st, ActionV::Pass));
        assert(scan_from(st, ins).1 =~= scan_from(st, lines).1);
    } else {
        assert(ins.first() == lines.first());
        assert(ins.drop_first() =~= lines.drop_first().insert(k - 1, c));
        let (st1, a) = consume_line(st, lines.first());
        lemma_comment_line_dropped(st1, lines.drop_first(), k - 1, c);
        assert(scan_from(st, ins).1 =~= scan_from(st, lines).1);
    }
}

/// A complete statement that parses as an `INSERT` for some other table
/// contributes exactly one wrong-table error — zero extraction pairs — and
/// leaves the scan of everything after it exactly as it would have been:
/// the schema state is untouched.
pub proof fn lemma_wrong_table_insert(
    st: ScanV,
    line: Seq<u8>,
    rest: Seq<Seq<u8>>,
    table: Seq<char>,
    rows: Seq<Seq<LiteralV>>,
)
    requires
        st.buf == Seq::<u8>::empty(),
        !is_comment_spec(line),
        is_complete_spec(line),
        parse_safe(line),
        parse_of(line) == Ok::<StatementV, Seq<char>>(StatementV::Insert { table, rows }),
        table != target_table_spec(),
    ensures
        scan_from(st, seq![line] + rest).1 == seq![Err::<(Seq<char>, Seq<char>), Seq<char>>(
            wrong_table_msg(table),
        )] + scan_from(st, rest).1,
        scan_from(st, seq![line] + rest).0 == scan_from(st, rest).0,
{
    let whole = seq![line] + rest;
    assert(whole.first() == line);
    assert(whole.drop_first() =~= rest);
    assert(st.buf + line =~= line);
    let (st1, a) = consume_line(st, line);
    match st.binding {
        Some(t) => {
            assert(a == ActionV::ExtractFrom(line, t));
            assert(results_of(a) =~= seq![Err::<(Seq<char>, Seq<char>), Seq<char>>(
                wrong_table_msg(table),
            )]);
        },
        None => {
            assert(a == ActionV::ReportError(wrong_table_msg(table)));
        },
    }
    assert(st1 =~= st);
    assert(scan_from(st, whole).1 =~= seq![Err::<(Seq<char>, Seq<char>), Seq<char>>(
        wrong_table_msg(table),
    )] + scan_from(st, rest).1);
}

/// A complete `INSERT` for the target table arriving while no schema
/// binding is known contributes exactly one "insert before create table"
/// error, and leaves the scan state untouched: a later `CREATE TABLE` and
/// its inserts proceed as if the early insert had not appeared.
pub proof fn lemma_insert_before_create(
    st: ScanV,
    line: Seq<u8>,
    rest: Seq<Seq<u8>>,
    rows: Seq<Seq<LiteralV>>,
)
    requires
        st.buf == Seq::<u8>::empty(),
        st.binding is None,
        !is_comment_spec(line),
        is_complete_spec(line),
        parse_safe(line),
        parse_of(line) == Ok::<StatementV, Seq<char>>(
            StatementV::Insert { table: target_table_spec(), rows },
        ),
    ensures
        scan_from(st, seq![line] + rest).1 == seq![Err::<(Seq<char>, Seq<char>), Seq<char>>(
            insert_before_create_msg(),
        )] + scan_from(st, rest).1,
        scan_from(st, seq![line] + rest).0 == scan_from(st, rest).0,
{
    let whole = seq![line] + rest;
    assert(whole.first() == line);
    assert(whole.drop_first() =~= rest);
    assert(st.buf + line =~= line);
    let (st1, a) = consume_line(st, line);
    assert(a == ActionV::ReportError(insert_before_create_msg()));
    assert(st1 =~= st);
    assert(scan_from(st, whole).1 =~= seq![Err::<(Seq<char>, Seq<char>), Seq<char>>(
        insert_before_create_msg(),
    )] + scan_from(st, rest).1);
}

/// A complete `CREATE TABLE` for the target table that does not declare
/// both target columns contributes exactly one "target field not found"
/// error and resolves no schema binding: the state is untouched, so every
/// later insert still fails as before a `CREATE TABLE`.
pub proof fn lemma_missing_target_column(
    st: ScanV,
    line: Seq<u8>,
    rest: Seq<Seq<u8>>,
    columns: Seq<Seq<char>>,
)
    requires
        st.buf == Seq::<u8>::empty(),
        st.binding is None,
        !is_comment_spec(line),
        is_complete_spec(line),
        parse_safe(line),
        parse_of(line) == Ok::<StatementV, Seq<char>>(
            StatementV::CreateTable { table: target_table_spec(), columns },
        ),
        find_indices_spec(columns) is None,
    ensures
        scan_from(st, seq![line] + rest).1 == seq![Err::<(Seq<char>, Seq<char>), Seq<char>>(
            target_not_found_msg(),
        )] + scan_from(st, rest).1,
        scan_from(st, seq![line] + rest).0 == scan_from(st, rest).0,
{
    let whole = seq![line] + rest;
    assert(whole.first() == line);
    assert(whole.drop_first() =~= rest);
    assert(st.buf + line =~= line);
    let (st1, a) = consume_line(st, line);
    assert(a == ActionV::ReportError(target_not_found_msg()));
    assert(st1 =~= st);
    assert(scan_from(st, whole).1 =~= seq![Err::<(Seq<char>, Seq<char>), Seq<char>>(
        target_not_found_msg(),
    )] + scan_from(st, rest).1);
}

/// A complete `CREATE TABLE` for the target table that resolves both target
/// columns, followed by a complete `INSERT` for the target table, yields
/// exactly one result per inserted row — each row extracted at the resolved
/// positions — and the binding stays resolved for the rest of the scan.
pub proof fn lemma_create_then_insert(
    st: ScanV,
    ct_line: Seq<u8>,
    ins_line: Seq<u8>,
    rest: Seq<Seq<u8>>,
    columns: Seq<Seq<char>>,
    rows: Seq<Seq<LiteralV>>,
    t: (int, int),
)
    requires
        st.buf == Seq::<u8>::empty(),
        st.binding is None,
        !is_comment_spec(ct_line),
        is_complete_spec(ct_line),
        parse_safe(ct_line),
        !is_comment_spec(ins_line),
        is_complete_spec(ins_line),
        parse_safe(ins_line),
        parse_of(ct_line) == Ok::<StatementV, Seq<char>>(
            StatementV::CreateTable { table: target_table_spec(), columns },
        ),
        find_indices_spec(columns) == Some(t),
        parse_of(ins_line) == Ok::<StatementV, Seq<char>>(
            StatementV::Insert { table: target_table_spec(), rows },
        ),
    ensures
        scan_from(st, seq![ct_line, ins_line] + rest).1 == extract_rows_spec(rows, t)
            + scan_from(ScanV { buf: Seq::empty(), binding: Some(t) }, rest).1,
{
    let whole = seq![ct_line, ins_line] + rest;
    assert(whole.first() == ct_line);
    assert(whole.drop_first() =~= seq![ins_line] + rest);
    assert(st.buf + ct_line =~= ct_line);
    let (st1, a1) = consume_line(st, ct_line);
    assert(a1 == ActionV::Pass);
    assert(st1 =~= ScanV { buf: Seq::empty(), binding: Some(t) });
    let mid = seq![ins_line] + rest;
    assert(mid.first() == ins_line);
    assert(mid.drop_first() =~= rest);
    assert(st1.buf + ins_line =~= ins_line);
    let (st2, a2) = consume_line(st1, ins_line);
    assert(a2 == ActionV::ExtractFrom(ins_line, t));
    assert(st2 =~= st1);
    assert(results_of(a2) == extract_rows_spec(rows, t));
    assert(scan_from(st1, mid).1 == results_of(a2) + scan_from(st2, rest).1);
    assert(scan_from(st, whole).1 == results_of(a1) + scan_from(st1, mid).1);
    assert(scan_from(st, whole).1 =~= extract_rows_spec(rows, t) + scan_from(st1, rest).1);
}

/// An `INSERT` for the target table dispatched while no schema binding is
/// known — what `ScanState::extract_scan_result` faces — yields exactly the
/// "insert before create table" report, exactly one error and zero
/// extraction results, and leaves the binding unresolved, so a later
/// `CREATE TABLE` can still resolve it.
pub proof fn lemma_dispatch_insert_before_create(stmt: Seq<u8>, rows: Seq<Seq<LiteralV>>)
    requires
        parse_safe(stmt),
        parse_of(stmt) == Ok::<StatementV, Seq<char>>(
            StatementV::Insert { table: target_table_spec(), rows },
        ),
    ensures
        dispatch_spec(None, stmt) == (
            None::<(int, int)>,
            ActionV::ReportError(insert_before_create_msg()),
        ),
        results_of(dispatch_spec(None, stmt).1) == seq![Err::<(Seq<char>, Seq<char>), Seq<char>>(
            insert_before_create_msg(),
        )],
{
}

/// A `CREATE TABLE` for the target table that lacks at least one target
/// column, dispatched while no schema binding is known, yields exactly the
/// "target field not found" report — one error, zero extraction results —
/// and sets no binding, so every later insert still fails as before a
/// `CREATE TABLE`.
pub proof fn lemma_dispatch_missing_target_column(stmt: Seq<u8>, columns: Seq<Seq<char>>)
    requires
        parse_safe(stmt),
        parse_of(stmt) == Ok::<StatementV, Seq<char>>(
            StatementV::CreateTable { table: target_table_spec(), columns },
        ),
        find_indices_spec(columns) is None,
    ensures
        dispatch_spec(None, stmt) == (
            None::<(int, int)>,
            ActionV::ReportError(target_not_found_msg()),
        ),
        results_of(dispatch_spec(None, stmt).1) == seq![Err::<(Seq<char>, Seq<char>), Seq<char>>(
            target_not_found_msg(),
        )],
{
}

/// A complete non-comment line, accepted by the parse guard, that parses
/// as an `INSERT` for the target table.
pub open spec fn target_insert_line(line: Seq<u8>) -> bool {
    &&& !is_comment_spec(line)
    &&& is_complete_spec(line)
    &&& parse_safe(line)
    &&& parse_of(line) matches Ok(StatementV::Insert { table, .. }) && table
        == target_table_spec()
}

/// The scan of a split input: the first part's results, then the second
/// part's from where the first left off.
pub proof fn lemma_scan_from_append(st: ScanV, a: Seq<Seq<u8>>, b: Seq<Seq<u8>>)
    ensures
        ({
            let (s1, r1) = scan_from(st, a);
            let (s2, r2) = scan_from(s1, b);
            scan_from(st, a + b).0 == s2 && scan_from(st, a + b).1 == r1 + r2
        }),
    decreases a.len(),
{
    if a.len() == 0 {
        assert(a + b =~= b);
        assert(scan_from(st, a).1 + scan_from(scan_from(st, a).0, b).1 =~= scan_from(st, b).1);
    } else {
        let (st1, a0) = consume_line(st, a.first());
        lemma_scan_from_append(st1, a.drop_first(), b);
        assert((a + b).first() == a.first());
        assert((a + b).drop_first() =~= a.drop_first() + b);
        let (s1, r1) = scan_from(st, a);
        let (s2, r2) = scan_from(s1, b);
        assert(scan_from(st, a + b).1 =~= r1 + r2);
    }
}

/// One complete `INSERT` for another table, standing at any statement
/// boundary of the input, contributes exactly one wrong-table error at that
/// position: every other result — each success pair and each other error —
/// is exactly that of the input without it, in the same order, and the scan
/// ends in the same state, so no unrelated statement is affected.
pub proof fn lemma_wrong_table_insert_anywhere(
    pre: Seq<Seq<u8>>,
    line: Seq<u8>,
    rest: Seq<Seq<u8>>,
    table: Seq<char>,
    rows: Seq<Seq<LiteralV>>,
)
    requires
        scan_from(initial_scan_state(), pre).0.buf == Seq::<u8>::empty(),
        !is_comment_spec(line),
        is_complete_spec(line),
        parse_safe(line),
        parse_of(line) == Ok::<StatementV, Seq<char>>(StatementV::Insert { table, rows }),
        table != target_table_spec(),
    ensures
        ({
            let init = initial_scan_state();
            let r_pre = scan_from(init, pre).1;
            let r_rest = scan_from(scan_from(init, pre).0, rest).1;
            scan_spec(pre + seq![line] + rest) == r_pre + seq![
                Err::<(Seq<char>, Seq<char>), Seq<char>>(wrong_table_msg(table)),
            ] + r_rest && scan_spec(pre + rest) == r_pre + r_rest && scan_from(
                init,
                pre + seq![line] + rest,
            ).0 == scan_from(init, pre + rest).0
        }),
{
    let init = initial_scan_state();
    let mid = scan_from(init, pre).0;
    lemma_scan_from_append(init, pre, seq![line] + rest);
    lemma_scan_from_append(init, pre, rest);
    lemma_wrong_table_insert(mid, line, rest, table, rows);
    assert(pre + seq![line] + rest =~= pre + (seq![line] + rest));
    let r_pre = scan_from(init, pre).1;
    let r_rest = scan_from(mid, rest).1;
    let err = Err::<(Seq<char>, Seq<char>), Seq<char>>(wrong_table_msg(table));
    assert(scan_spec(pre + seq![line] + rest) =~= r_pre + seq![err] + r_rest);
}

proof fn lemma_target_inserts_report(st: ScanV, ins_lines: Seq<Seq<u8>>)
    requires
        st.buf == Seq::<u8>::empty(),
        st.binding is None,
        forall|j: int| 0 <= j < ins_lines.len() ==> target_insert_line(#[trigger] ins_lines[j]),
    ensures
        scan_from(st, ins_lines).0 == st,
        scan_from(st, ins_lines).1 == Seq::new(
            ins_lines.len(),
            |j: int| Err::<(Seq<char>, Seq<char>), Seq<char>>(insert_before_create_msg()),
        ),
    decreases ins_lines.len(),
{
    if ins_lines.len() == 0 {
        assert(scan_from(st, ins_lines).1 =~= Seq::new(
            0,
            |j: int| Err::<(Seq<char>, Seq<char>), Seq<char>>(insert_before_create_msg()),
        ));
    } else {
        let line = ins_lines.first();
        assert(target_insert_line(line));
        let (st1, a) = consume_line(st, line);
        assert(st.buf + line =~= line);
        assert(a == ActionV::ReportError(insert_before_create_msg()));
        assert(st1 =~= st);
        assert forall|j: int| 0 <= j < ins_lines.drop_first().len() implies target_insert_line(
            #[trigger] ins_lines.drop_first()[j],
        ) by {
            assert(ins_lines.drop_first()[j] == ins_lines[j + 1]);
        }
        lemma_target_inserts_report(st, ins_lines.drop_first());
        assert(scan_from(st, ins_lines).1 =~= Seq::new(
            ins_lines.len(),
            |j: int| Err::<(Seq<char>, Seq<char>), Seq<char>>(insert_before_create_msg()),
        ));
    }
}

/// A `CREATE TABLE` for the target table missing a target column, followed
/// by any number of target-table inserts, yields exactly one "target field
/// not found" error, then one "insert before create table" error per
/// insert, and no success pair at all.
pub proof fn lemma_missing_column_then_inserts(
    ct_line: Seq<u8>,
    ins_lines: Seq<Seq<u8>>,
    columns: Seq<Seq<char>>,
)
    requires
        !is_comment_spec(ct_line),
        is_complete_spec(ct_line),
        parse_safe(ct_line),
        parse_of(ct_line) == Ok::<StatementV, Seq<char>>(
            StatementV::CreateTable { table: target_table_spec(), columns },
        ),
        find_indices_spec(columns) is None,
        forall|j: int| 0 <= j < ins_lines.len() ==> target_insert_line(#[trigger] ins_lines[j]),
    ensures
        scan_spec(seq![ct_line] + ins_lines) == seq![
            Err::<(Seq<char>, Seq<char>), Seq<char>>(target_not_found_msg()),
        ] + Seq::new(
            ins_lines.len(),
            |j: int| Err::<(Seq<char>, Seq<char>), Seq<char>>(insert_before_create_msg()),
        ),
{
    let init = initial_scan_state();
    lemma_missing_target_column(init, ct_line, ins_lines, columns);
    lemma_target_inserts_report(init, ins_lines);
}

/// An `INSERT` for the target table before any `CREATE TABLE`, followed by
/// a `CREATE TABLE` resolving both target columns and then an `INSERT`,
/// yields exactly the one "insert before create table" error and then one
/// result per row of the later insert: the early error prevents neither the
/// binding's resolution nor the extraction after it.
pub proof fn lemma_early_insert_then_recovery(
    ins0: Seq<u8>,
    ct_line: Seq<u8>,
    ins_line: Seq<u8>,
    columns: Seq<Seq<char>>,
    rows: Seq<Seq<LiteralV>>,
    t: (int, int),
)
    requires
        target_insert_line(ins0),
        !is_comment_spec(ct_line),
        is_complete_spec(ct_line),
        parse_safe(ct_line),
        parse_of(ct_line) == Ok::<StatementV, Seq<char>>(
            StatementV::CreateTable { table: target_table_spec(), columns },
        ),
        find_indices_spec(columns) == Some(t),
        !is_comment_spec(ins_line),
        is_complete_spec(ins_line),
        parse_safe(ins_line),
        parse_of(ins_line) == Ok::<StatementV, Seq<char>>(
            StatementV::Insert { table: target_table_spec(), rows },
        ),
    ensures
        scan_spec(seq![ins0, ct_line, ins_line]) == seq![
            Err::<(Seq<char>, Seq<char>), Seq<char>>(insert_before_create_msg()),
        ] + crate::extract::extract_rows_spec(rows, t),
{
    let init = initial_scan_state();
    match parse_of(ins0) {
        Ok(StatementV::Insert { table: t0, rows: rows0 }) => {
            lemma_insert_before_create(init, ins0, seq![ct_line, ins_line], rows0);
        },
        _ => {
            assert(false);
        },
    }
    lemma_create_then_insert(
        init,
        ct_line,
        ins_line,
        Seq::<Seq<u8>>::empty(),
        columns,
        rows,
        t,
    );
    assert(seq![ct_line, ins_line] + Seq::<Seq<u8>>::empty() =~= seq![ct_line, ins_line]);
    assert(seq![ins0] + seq![ct_line, ins_line] =~= seq![ins0, ct_line, ins_line]);
    assert(scan_spec(seq![ins0, ct_line, ins_line]) =~= seq![
        Err::<(Seq<char>, Seq<char>), Seq<char>>(insert_before_create_msg()),
    ] + extract_rows_spec(rows, t));
}

/// The whole scan is a function of its input alone: two runs over identical
/// input yield identical result sequences, hence the same multiset of
/// success pairs and error messages (a parallel consumer may deliver them
/// in any order).
pub proof fn lemma_scan_deterministic(lines: Seq<Seq<u8>>, r1: Seq<ResV>, r2: Seq<ResV>)
    requires
        r1 == scan_spec(lines),
        r2 == scan_spec(lines),
    ensures
        r1 == r2,
        r1.to_multiset() == r2.to_multiset(),
{
}

} // verus!
