use wikipedia_externallinks_fast_extraction::extract::{
    extract_target_strings, extract_urls_from_insert_data, parse_insert,
};
use wikipedia_externallinks_fast_extraction::scan::{
    is_comment, is_complete_statement, run_scan, ScanLineAction, ScanState,
};
use wikipedia_externallinks_fast_extraction::statement::{
    extract_data, find_target_field_indices, ExtractedSql, LiteralValue, ParsedStatement,
};
use wikipedia_externallinks_fast_extraction::url::reformat_url;

const CREATE: &str =
    "CREATE TABLE externallinks (el_id int(10), el_to_domain_index varchar(255), el_to_path varchar(255));";
const INSERT: &str =
    "INSERT INTO externallinks VALUES (1, 'http://org.example.', '/wiki/Page');";

fn lines(strs: &[&str]) -> Vec<Vec<u8>> {
    strs.iter().map(|s| s.as_bytes().to_vec()).collect()
}

fn ok_pair(a: &str, b: &str) -> Result<(String, String), String> {
    Ok((a.to_string(), b.to_string()))
}

#[test]
fn create_then_insert_yields_one_pair() {
    let input = lines(&[CREATE, INSERT]);
    let results = run_scan(&input);
    assert_eq!(results, vec![ok_pair("http://org.example.", "/wiki/Page")]);
}

#[test]
fn multi_row_insert_yields_one_pair_per_row() {
    let input = lines(&[
        CREATE,
        "INSERT INTO externallinks VALUES (1, 'http://org.a.', '/x'),(2, 'http://com.b.', '/y');",
    ]);
    let results = run_scan(&input);
    assert_eq!(
        results,
        vec![ok_pair("http://org.a.", "/x"), ok_pair("http://com.b.", "/y")]
    );
}

#[test]
fn statement_split_across_lines_reassembles() {
    let input = lines(&[
        "CREATE TABLE externallinks (el_id int(10), ",
        "el_to_domain_index varchar(255), ",
        "el_to_path varchar(255));",
        "INSERT INTO externallinks VALUES ",
        "(1, 'http://org.example.', ",
        "'/wiki/Page');",
    ]);
    let results = run_scan(&input);
    assert_eq!(results, vec![ok_pair("http://org.example.", "/wiki/Page")]);
}

#[test]
fn comment_lines_between_fragments_are_dropped() {
    let input = lines(&[
        "-- a dump header",
        "/* generator notes */",
        "CREATE TABLE externallinks (el_id int(10), ",
        "",
        "-- mid-statement comment",
        "el_to_domain_index varchar(255), el_to_path varchar(255));",
        "/* another */",
        "INSERT INTO externallinks VALUES ",
        "-- noise",
        "(1, 'http://org.example.', '/wiki/Page');",
        "",
    ]);
    let results = run_scan(&input);
    assert_eq!(results, vec![ok_pair("http://org.example.", "/wiki/Page")]);
}

#[test]
fn wrong_table_insert_is_one_error_and_later_work_succeeds() {
    let input = lines(&[
        CREATE,
        "INSERT INTO users VALUES (1, 'a', 'b');",
        INSERT,
    ]);
    let results = run_scan(&input);
    assert_eq!(results.len(), 2);
    let errors: Vec<&String> = results.iter().filter_map(|r| r.as_ref().err()).collect();
    assert_eq!(errors.len(), 1);
    assert_eq!(errors[0], "Wrong table: 'users'");
    assert!(results.contains(&ok_pair("http://org.example.", "/wiki/Page")));
}

#[test]
fn insert_before_create_is_one_error_then_pair_still_extracted() {
    let input = lines(&[INSERT, CREATE, INSERT]);
    let results = run_scan(&input);
    assert_eq!(
        results,
        vec![
            Err("Insert statement before create table".to_string()),
            ok_pair("http://org.example.", "/wiki/Page"),
        ]
    );
}

#[test]
fn scan_twice_yields_same_multiset() {
    let input = lines(&[
        CREATE,
        "INSERT INTO users VALUES (1);",
        INSERT,
        "INSERT INTO externallinks VALUES (2, 'http://com.b.', '/z');",
    ]);
    let mut first = run_scan(&input);
    let mut second = run_scan(&input);
    first.sort();
    second.sort();
    assert_eq!(first, second);
}

#[test]
fn short_row_error_includes_row_contents() {
    let input = lines(&[CREATE, "INSERT INTO externallinks VALUES (7, 'only');"]);
    let results = run_scan(&input);
    assert_eq!(results.len(), 1);
    let msg = results[0].as_ref().err().expect("expected an error");
    assert!(msg.starts_with("Too few inserted values: ["));
    assert!(msg.contains("\"only\""));
    assert!(msg.contains("7"));
}

#[test]
fn non_string_values_error_names_positions_and_row() {
    let input = lines(&[CREATE, "INSERT INTO externallinks VALUES (1, 2, 3);"]);
    let results = run_scan(&input);
    assert_eq!(results.len(), 1);
    let msg = results[0].as_ref().err().expect("expected an error");
    assert!(msg.starts_with("Invalid value types at indices (1, 2): ["));
}

#[test]
fn create_missing_target_column_then_inserts_fail() {
    let input = lines(&[
        "CREATE TABLE externallinks (el_id int(10), el_to_domain_index varchar(255));",
        INSERT,
    ]);
    let results = run_scan(&input);
    assert_eq!(
        results,
        vec![
            Err("Target field not found".to_string()),
            Err("Insert statement before create table".to_string()),
        ]
    );
}

#[test]
fn wrong_table_create_is_an_error() {
    let input = lines(&["CREATE TABLE users (id int(10), name varchar(255));"]);
    let results = run_scan(&input);
    assert_eq!(results, vec![Err("Wrong table: 'users'".to_string())]);
}

#[test]
fn non_import_statement_is_an_error() {
    let input = lines(&[
        "SELECT el_to_path FROM externallinks;",
    ]);
    let results = run_scan(&input);
    assert_eq!(results.len(), 1);
    let msg = results[0].as_ref().err().expect("expected an error");
    assert!(msg.starts_with("Not an import statement: "));
}

#[test]
fn unparseable_statement_error_carries_excerpt() {
    let input = lines(&["this is no sql at all;"]);
    let results = run_scan(&input);
    assert_eq!(results.len(), 1);
    let msg = results[0].as_ref().err().expect("expected an error");
    assert!(msg.contains("failed to parse query"));
    assert!(msg.contains("(while parsing: this is no sql at all; [...])"));
}

#[test]
fn unparseable_unit_of_work_after_binding_is_an_error() {
    let input = lines(&[CREATE, "this is no sql at all;"]);
    let results = run_scan(&input);
    assert_eq!(results, vec![Err("failed to parse query".to_string())]);
}

#[test]
fn empty_input_yields_nothing() {
    let results = run_scan(&Vec::new());
    assert!(results.is_empty());
}

#[test]
fn comment_detection() {
    assert!(is_comment(&b"".to_vec()));
    assert!(is_comment(&b"-- hello".to_vec()));
    assert!(is_comment(&b"/* hello */".to_vec()));
    assert!(!is_comment(&b"INSERT".to_vec()));
    assert!(!is_comment(&b"-".to_vec()));
}

#[test]
fn statement_completion_detection() {
    assert!(is_complete_statement(&b"SELECT 1;".to_vec()));
    assert!(!is_complete_statement(&b"SELECT 1; -- more".to_vec()));
    assert!(!is_complete_statement(&b"".to_vec()));
}

#[test]
fn add_line_buffers_until_semicolon() {
    let mut state = ScanState::new();
    let mut a = b"INSERT INTO externallinks ".to_vec();
    let mut b = b"VALUES (1, 'x', 'y')".to_vec();
    let mut c = b";".to_vec();
    assert!(matches!(state.add_line(&mut a), ScanLineAction::Pass));
    assert!(matches!(state.add_line(&mut b), ScanLineAction::Pass));
    match state.add_line(&mut c) {
        ScanLineAction::ReportError(msg) => {
            assert_eq!(msg, "Insert statement before create table");
        }
        _ => panic!("expected the insert-before-create error"),
    }
}

#[test]
fn find_target_field_indices_takes_last_occurrence() {
    let fields = vec![
        "el_to_domain_index".to_string(),
        "el_to_domain_index".to_string(),
        "el_to_path".to_string(),
    ];
    assert_eq!(find_target_field_indices(&fields), Some((1, 2)));
}

#[test]
fn find_target_field_indices_requires_both() {
    let fields = vec!["el_id".to_string(), "el_to_path".to_string()];
    assert_eq!(find_target_field_indices(&fields), None);
    assert_eq!(find_target_field_indices(&Vec::new()), None);
}

#[test]
fn extract_data_classifies_statements() {
    let ct = ParsedStatement::CreateTable {
        table: "externallinks".to_string(),
        columns: vec![
            "el_id".to_string(),
            "el_to_domain_index".to_string(),
            "el_to_path".to_string(),
        ],
    };
    match extract_data(ct) {
        ExtractedSql::CreateTableData(t) => assert_eq!(t, (1, 2)),
        _ => panic!("expected a schema binding"),
    }
    let other = ParsedStatement::Other {
        desc: "SELECT".to_string(),
    };
    match extract_data(other) {
        ExtractedSql::Error(e) => assert_eq!(e, "Not an import statement: SELECT"),
        _ => panic!("expected an error"),
    }
}

#[test]
fn extract_target_strings_reads_both_positions() {
    let row = vec![
        LiteralValue::Other("Integer(9)".to_string()),
        LiteralValue::Str("u".to_string()),
        LiteralValue::Str("p".to_string()),
    ];
    assert_eq!(extract_target_strings(row, (1, 2)), ok_pair("u", "p"));
}

#[test]
fn extract_urls_keeps_row_order_and_isolation() {
    let data = vec![
        vec![
            LiteralValue::Str("a".to_string()),
            LiteralValue::Str("b".to_string()),
        ],
        vec![LiteralValue::Str("short".to_string())],
        vec![
            LiteralValue::Str("c".to_string()),
            LiteralValue::Str("d".to_string()),
        ],
    ];
    let results = extract_urls_from_insert_data(data, (0, 1));
    assert_eq!(results.len(), 3);
    assert_eq!(results[0], ok_pair("a", "b"));
    assert!(results[1].is_err());
    assert_eq!(results[2], ok_pair("c", "d"));
}

#[test]
fn parse_insert_rejects_create_table() {
    let bytes = CREATE.as_bytes().to_vec();
    assert_eq!(
        parse_insert(&bytes),
        Err("Unexpected CREATE TABLE".to_string())
    );
}

#[test]
fn into_results_of_pass_and_error() {
    assert!(ScanLineAction::Pass.into_results().is_empty());
    let r = ScanLineAction::ReportError("boom".to_string()).into_results();
    assert_eq!(r, vec![Err("boom".to_string())]);
}

#[test]
fn reformat_url_reverses_domain_segments() {
    assert_eq!(reformat_url("http://org.example."), "http://example.org");
    assert_eq!(reformat_url("ftp://a.b.c"), "ftp://c.b.a");
    assert_eq!(reformat_url("http://single"), "http://single");
}

#[test]
fn reformat_url_without_exactly_one_scheme_is_unchanged() {
    assert_eq!(reformat_url("no scheme here"), "no scheme here");
    assert_eq!(reformat_url("a://b://c"), "a://b://c");
    assert_eq!(reformat_url(""), "");
}

#[test]
fn reformat_url_trims_all_trailing_dots() {
    assert_eq!(reformat_url("http://org.example..."), "http://example.org");
    assert_eq!(reformat_url("http://..."), "http://");
}

#[test]
fn reformat_url_keeps_empty_segments() {
    assert_eq!(reformat_url("http://a..b"), "http://b..a");
}

const UNSUPPORTED: &str = "Unsupported statement: oversized number, table alias, or invalid encoding";

#[test]
fn oversized_integer_literal_is_an_error_not_a_crash() {
    // 20 nines overflow a signed 64-bit read inside the external parser.
    let input = lines(&[
        "INSERT INTO externallinks VALUES (99999999999999999999, 'a', 'b');",
        CREATE,
        INSERT,
    ]);
    let results = run_scan(&input);
    assert_eq!(
        results,
        vec![
            Err(UNSUPPORTED.to_string()),
            ok_pair("http://org.example.", "/wiki/Page"),
        ]
    );
}

#[test]
fn oversized_integer_literal_in_a_unit_of_work_is_an_error() {
    let input = lines(&[
        CREATE,
        "INSERT INTO externallinks VALUES (99999999999999999999, 'a', 'b');",
    ]);
    let results = run_scan(&input);
    assert_eq!(results, vec![Err(UNSUPPORTED.to_string())]);
}

#[test]
fn oversized_type_size_is_an_error_not_a_crash() {
    // varchar(70000) overflows the parser's 16-bit type-size read.
    let input = lines(&[
        "CREATE TABLE externallinks (el_id int(10), el_to_domain_index varchar(70000), el_to_path varchar(255));",
        INSERT,
    ]);
    let results = run_scan(&input);
    assert_eq!(
        results,
        vec![
            Err(UNSUPPORTED.to_string()),
            Err("Insert statement before create table".to_string()),
        ]
    );
}

#[test]
fn oversized_float_part_is_an_error_not_a_crash() {
    // 9999999999 overflows the parser's 32-bit float-part read.
    let input = lines(&[CREATE, "INSERT INTO externallinks VALUES (9999999999.5, 'a', 'b');"]);
    let results = run_scan(&input);
    assert_eq!(results, vec![Err(UNSUPPORTED.to_string())]);
}

#[test]
fn invalid_encoding_is_an_error_not_a_crash() {
    let mut statement = b"INSERT INTO externallinks VALUES (1, '".to_vec();
    statement.push(0xff);
    statement.extend_from_slice(b"', 'b');");
    let results = run_scan(&vec![statement]);
    assert_eq!(results, vec![Err(UNSUPPORTED.to_string())]);
}

#[test]
fn long_row_identifiers_still_extract() {
    // 18 digits stay within every numeric read the parser performs.
    let input = lines(&[
        CREATE,
        "INSERT INTO externallinks VALUES (123456789012345678, 'http://org.example.', '/wiki/Page');",
    ]);
    let results = run_scan(&input);
    assert_eq!(results, vec![ok_pair("http://org.example.", "/wiki/Page")]);
}

#[test]
fn insert_with_table_alias_is_an_error_not_a_crash() {
    // The parser asserts that a parsed INSERT carries no table alias.
    let input = lines(&[
        CREATE,
        "INSERT INTO externallinks x VALUES (1, 'a', 'b');",
        INSERT,
    ]);
    let results = run_scan(&input);
    assert_eq!(
        results,
        vec![
            Err(UNSUPPORTED.to_string()),
            ok_pair("http://org.example.", "/wiki/Page"),
        ]
    );
}

#[test]
fn create_with_table_alias_is_an_error_not_a_crash() {
    // The parser asserts that a parsed CREATE TABLE carries no table alias.
    let input = lines(&["CREATE TABLE externallinks x (el_id int(3));"]);
    let results = run_scan(&input);
    assert_eq!(results, vec![Err(UNSUPPORTED.to_string())]);
}

#[test]
fn long_digit_runs_inside_string_literals_still_extract() {
    // Quoted text faces no numeric conversion; the guard must not count it.
    let input = lines(&[
        CREATE,
        "INSERT INTO externallinks VALUES (1, 'http://org.example/12345678901234567890', '/id.123456789012.html');",
    ]);
    let results = run_scan(&input);
    assert_eq!(
        results,
        vec![ok_pair(
            "http://org.example/12345678901234567890",
            "/id.123456789012.html",
        )]
    );
}

#[test]
fn long_digit_run_before_binding_inside_quotes_is_no_error() {
    // The sequential stage parses this statement itself (no binding yet):
    // the quoted long run must not have it declined.
    let input = lines(&[
        "INSERT INTO externallinks VALUES (1, 'a12345678901234567890123', 'b');",
        CREATE,
        INSERT,
    ]);
    let results = run_scan(&input);
    assert_eq!(
        results,
        vec![
            Err("Insert statement before create table".to_string()),
            ok_pair("http://org.example.", "/wiki/Page"),
        ]
    );
}

#[test]
fn insert_with_column_list_still_extracts() {
    let input = lines(&[
        CREATE,
        "INSERT INTO externallinks (el_id, el_to_domain_index, el_to_path) VALUES (3, 'http://net.w.', '/q');",
    ]);
    let results = run_scan(&input);
    assert_eq!(results, vec![ok_pair("http://net.w.", "/q")]);
}

#[test]
fn backticked_table_name_still_extracts() {
    let input = lines(&[
        "CREATE TABLE `externallinks` (el_id int(10), el_to_domain_index varchar(255), el_to_path varchar(255));",
        "INSERT INTO `externallinks` VALUES (2, 'http://com.x.', '/p');",
    ]);
    let results = run_scan(&input);
    assert_eq!(results, vec![ok_pair("http://com.x.", "/p")]);
}

#[test]
fn doubled_quote_escape_still_extracts() {
    let input = lines(&[
        CREATE,
        "INSERT INTO externallinks VALUES (4, 'http://org.e.', '/it''s');",
    ]);
    let results = run_scan(&input);
    assert_eq!(results, vec![ok_pair("http://org.e.", "/it's")]);
}

#[test]
fn long_digit_run_after_escaped_quote_is_declined() {
    // Under the parser's naive comment/default string reading, the quote in
    // the escape ends the literal and the digits stand outside it, so the
    // guard must decline rather than rely on one reading.
    let input = lines(&[
        CREATE,
        "INSERT INTO externallinks VALUES (1, 'a\\' 99999999999999999999', '/x');",
    ]);
    let results = run_scan(&input);
    assert_eq!(results, vec![Err(UNSUPPORTED.to_string())]);
}
