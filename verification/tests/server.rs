use datafusion_pg_catalog::datatype::{DataType, PgType, TimeUnit};
use datafusion_pg_catalog::server::capture::{encode_yaml_value, CaptureStore, CapturedQuery};
use datafusion_pg_catalog::server::json::Json;
use datafusion_pg_catalog::server::startup::{detect_gssencmode, DummyAuthSource};
use datafusion_pg_catalog::server::statements::{
    describe_builtin, error_report, extended_query_builtin_response, is_set_statement,
    parse_show_variable_name, read_statement, reads_demo_users, show_variable_response,
    simple_query_builtin_response, unknown_function_name, Answer, ClientOpts, ErrorReport,
};
use datafusion_pg_catalog::server::values::{
    batch_to_field_info, batch_to_rows, batches_to_json_rows, concrete_param_types,
    decode_parameters, demo_users_batch, describe_results, failed_query, format_timestamp, parameters_match, successful_query, text_batch, Batch,
    Column, Datum, Real, WireValue,
};
use datafusion_pg_catalog::server::SERVER_VERSION;
use pgwire::api::results::{DataRowEncoder, FieldFormat, FieldInfo};
use pgwire::api::Type;
use pgwire::messages::data::DataRow;
use std::sync::Arc;

fn column(name: &str, data_type: DataType, values: Vec<Datum>) -> Column {
    Column {
        name: name.to_string(),
        shown: format!("{data_type:?}"),
        data_type,
        values,
    }
}

fn text(s: &str) -> Datum {
    Datum::Text(s.to_string())
}

fn wire_type(t: PgType) -> Type {
    match t {
        PgType::Bool => Type::BOOL,
        PgType::Int4 => Type::INT4,
        PgType::Timestamp => Type::TIMESTAMP,
        PgType::TextArray => Type::TEXT_ARRAY,
        _ => Type::TEXT,
    }
}

/// The rows of a batch as they go over the wire, in text format.
fn encoded(batch: &Batch) -> Vec<DataRow> {
    let info: Vec<FieldInfo> = batch_to_field_info(batch)
        .into_iter()
        .map(|f| FieldInfo::new(f.name, None, None, wire_type(f.datatype), FieldFormat::Text))
        .collect();
    let mut encoder = DataRowEncoder::new(Arc::new(info));
    batch_to_rows(batch)
        .into_iter()
        .map(|row| {
            for value in row {
                match value {
                    WireValue::Text(v) => encoder.encode_field(&v),
                    WireValue::Bool(v) => encoder.encode_field(&v),
                    WireValue::Int4(v) => encoder.encode_field(&v),
                    WireValue::Int8(v) => encoder.encode_field(&v),
                    WireValue::Float4(v) => encoder.encode_field(&v.map(|b| f32::from_bits(b as u32))),
                    WireValue::Float8(v) => encoder.encode_field(&v.map(f64::from_bits)),
                    WireValue::TextArray(v) => encoder.encode_field(&v),
                }
                .unwrap();
            }
            encoder.take_row()
        })
        .collect()
}

/// Boolean and int32 columns encode as their text representation, and NULL
/// encodes as the length prefix -1.
#[test]
fn test_batch_to_row_stream_types_and_nulls() {
    let batch = Batch {
        rows: 2,
        columns: vec![
            column("flag", DataType::Boolean, vec![Datum::Bool(true), Datum::Null]),
            column("num", DataType::Int32, vec![Datum::Int32(42), Datum::Null]),
        ],
    };
    assert!(batch.is_well_formed());

    let info = batch_to_field_info(&batch);
    assert_eq!(info[0].datatype, PgType::Bool);
    assert_eq!(info[1].datatype, PgType::Int4);

    let rows = encoded(&batch);
    assert_eq!(rows.len(), 2);

    let populated_row = &rows[0];
    assert_eq!(populated_row.field_count, 2);
    let buf = &populated_row.data;
    assert_eq!(&buf[0..4], &1i32.to_be_bytes());
    assert_eq!(buf[4], b't');
    assert_eq!(&buf[5..9], &2i32.to_be_bytes());
    assert_eq!(&buf[9..11], b"42");

    let buf = &rows[1].data;
    assert_eq!(&buf[0..4], &(-1i32).to_be_bytes());
    assert_eq!(&buf[4..8], &(-1i32).to_be_bytes());
}

/// A pre-1970 timestamp encodes as a formatted instant instead of
/// panicking on its negative sub-second remainder.
#[test]
fn test_batch_to_row_stream_negative_timestamp_no_panic() {
    // -1_500_000 us = 1.5s before the epoch -> 1969-12-31 23:59:58.500000.
    let batch = Batch {
        rows: 2,
        columns: vec![column(
            "ts",
            DataType::Timestamp(TimeUnit::Microsecond),
            vec![Datum::Instant(-1_500_000i64), Datum::Null],
        )],
    };
    let rows = encoded(&batch);
    assert_eq!(rows.len(), 2);

    let buf = &rows[0].data;
    let needle = b"1969-12-31 23:59:58.500000";
    assert!(
        buf.windows(needle.len()).any(|w| w == needle),
        "expected pre-1970 timestamp, got {:?}",
        String::from_utf8_lossy(buf)
    );
    // Row 1: NULL encodes as length -1.
    assert_eq!(&rows[1].data[0..4], &(-1i32).to_be_bytes());
}

/// A list<Utf8View> column is described as text[] and encodes without
/// panicking on the view-backed element array.
#[test]
fn test_row_stream_list_utf8view_no_panic() {
    let tags = Datum::Texts(vec![Some("a".to_string()), Some("b".to_string())]);
    let batch = Batch {
        rows: 1,
        columns: vec![column(
            "tags",
            DataType::List(Box::new(DataType::Utf8View)),
            vec![tags],
        )],
    };
    let info = batch_to_field_info(&batch);
    assert_eq!(info[0].datatype, PgType::TextArray);
    let rows = encoded(&batch);
    assert_eq!(rows.len(), 1);
    assert_eq!(&rows[0].data[4..], b"{a,b}");
}

/// The advertised server version stays the one clients gate their feature
/// detection on.
#[test]
fn test_server_version_constant() {
    assert_eq!(SERVER_VERSION, "17.4.0");
}

#[test]
fn values_go_over_the_wire() {
    let batch = Batch {
        rows: 1,
        columns: vec![
            column("a", DataType::Int64, vec![Datum::Int64(-7)]),
            column("b", DataType::Utf8View, vec![text("x")]),
            column(
                "c",
                DataType::Float64,
                vec![Datum::Real(Real { bits: 1.5f64.to_bits(), json: Some("1.5".to_string()) })],
            ),
            column("d", DataType::Int16, vec![Datum::Opaque]),
            column(
                "e",
                DataType::List(Box::new(DataType::Utf8)),
                vec![Datum::Texts(vec![None, Some("y".to_string())])],
            ),
            column("f", DataType::Other, vec![Datum::Null]),
        ],
    };
    let rows = batch_to_rows(&batch);
    assert_eq!(
        rows[0],
        vec![
            WireValue::Int8(Some(-7)),
            WireValue::Text(Some("x".to_string())),
            WireValue::Float8(Some(1.5f64.to_bits())),
            WireValue::Text(Some("[unsupported Int16]".to_string())),
            WireValue::TextArray(Some(vec!["NULL".to_string(), "y".to_string()])),
            WireValue::Text(None),
        ]
    );
}

#[test]
fn ill_formed_batches_are_seen() {
    let short = Batch {
        rows: 2,
        columns: vec![column("a", DataType::Int32, vec![Datum::Int32(1)])],
    };
    assert!(!short.is_well_formed());
    let mistyped = Batch {
        rows: 1,
        columns: vec![column("a", DataType::Int32, vec![text("1")])],
    };
    assert!(!mistyped.is_well_formed());
    let seconds = Batch {
        rows: 1,
        columns: vec![column(
            "a",
            DataType::Timestamp(TimeUnit::Second),
            vec![Datum::Instant(0)],
        )],
    };
    assert!(seconds.is_well_formed());
    assert!(!seconds.is_sendable());
    let rows = batches_to_json_rows(&vec![seconds]);
    assert!(matches!(rows[0][0], (_, Json::Null)));
    let none = Batch {
        rows: 1,
        columns: vec![column("a", DataType::Timestamp(TimeUnit::Second), vec![Datum::Null])],
    };
    assert!(none.is_sendable());
}

#[test]
fn instants_are_written_in_every_unit() {
    let shown = |unit, n| format_timestamp(unit, n).unwrap();
    assert_eq!(shown(TimeUnit::Millisecond, 1_500), "1970-01-01 00:00:01.500");
    assert_eq!(shown(TimeUnit::Millisecond, -1), "1969-12-31 23:59:59.999");
    assert_eq!(shown(TimeUnit::Microsecond, 86_400_000_000), "1970-01-02 00:00:00.000000");
    assert_eq!(shown(TimeUnit::Nanosecond, -1_000_000_000), "1969-12-31 23:59:59.000000000");
    assert_eq!(shown(TimeUnit::Nanosecond, 1), "1970-01-01 00:00:00.000000001");
    // The calendar does not reach this far.
    assert_eq!(format_timestamp(TimeUnit::Millisecond, i64::MAX), None);
}

#[test]
fn rows_are_recorded_by_column_name() {
    let batch = Batch {
        rows: 2,
        columns: vec![
            column("b", DataType::Int32, vec![Datum::Int32(-3), Datum::Null]),
            column("a", DataType::Utf8, vec![text("x"), text("y")]),
            column("b", DataType::Boolean, vec![Datum::Bool(true), Datum::Bool(false)]),
            column("t", DataType::Timestamp(TimeUnit::Microsecond), vec![Datum::Instant(0), Datum::Null]),
        ],
    };
    let rows = batches_to_json_rows(&vec![batch]);
    // Of two columns with one name the last one counts, and instants have no recorded form.
    assert_eq!(
        rows,
        vec![
            vec![
                ("a".to_string(), Json::Text("x".to_string())),
                ("b".to_string(), Json::Bool(true)),
                ("t".to_string(), Json::Null),
            ],
            vec![
                ("a".to_string(), Json::Text("y".to_string())),
                ("b".to_string(), Json::Bool(false)),
                ("t".to_string(), Json::Null),
            ],
        ]
    );
}

#[test]
fn recorded_numbers_and_lists() {
    let real = |bits, json: Option<&str>| Datum::Real(Real { bits, json: json.map(str::to_string) });
    let batch = Batch {
        rows: 1,
        columns: vec![
            column("a", DataType::Float64, vec![real(1.5f64.to_bits(), Some("1.5"))]),
            column("b", DataType::Float64, vec![real(f64::NAN.to_bits(), None)]),
            column("c", DataType::Int64, vec![Datum::Int64(i64::MIN)]),
            column(
                "d",
                DataType::List(Box::new(DataType::Utf8)),
                vec![Datum::Texts(vec![Some("x".to_string()), None])],
            ),
            column(
                "e",
                DataType::List(Box::new(DataType::Utf8View)),
                vec![Datum::Texts(vec![Some("x".to_string())])],
            ),
        ],
    };
    let rows = batches_to_json_rows(&vec![batch]);
    let values: Vec<&Json> = rows[0].iter().map(|(_, v)| v).collect();
    assert_eq!(values[0], &Json::Number("1.5".to_string()));
    assert_eq!(values[1], &Json::Null);
    assert_eq!(values[2], &Json::Number("-9223372036854775808".to_string()));
    assert_eq!(values[3], &Json::List(vec![Json::Text("x".to_string()), Json::Null]));
    assert_eq!(values[4], &Json::Null);
}

#[test]
fn parameters_are_decoded_by_their_types() {
    let types = concrete_param_types(&vec![
        Some(PgType::Int2),
        Some(PgType::Int4),
        Some(PgType::Int8),
        Some(PgType::Oid),
        None,
        Some(PgType::Bool),
        Some(PgType::Text),
    ]);
    assert_eq!(types[4], PgType::Unknown);
    let params = vec![
        Some(vec![0xff, 0xfe]),
        Some(vec![0, 0, 1, 0]),
        Some(vec![0x80, 0, 0, 0, 0, 0, 0, 0]),
        Some(vec![0xff, 0xff, 0xff, 0xff]),
        Some("h\u{e9}".as_bytes().to_vec()),
        Some(vec![1]),
        None,
    ];
    assert!(parameters_match(&params, &types));
    let number = |s: &str| Some(Json::Number(s.to_string()));
    assert_eq!(
        decode_parameters(&params, &types),
        vec![
            number("-2"),
            number("256"),
            number("-9223372036854775808"),
            number("4294967295"),
            Some(Json::Text("h\u{e9}".to_string())),
            None,
            None,
        ]
    );
    // Bytes that are no value of their type.
    assert!(!parameters_match(&vec![Some(vec![1])], &vec![PgType::Int2]));
    assert!(!parameters_match(&vec![Some(vec![0xff])], &vec![PgType::Text]));
    // A parameter without a type is left out.
    assert_eq!(decode_parameters(&vec![None, None], &vec![PgType::Text]).len(), 1);
}

fn rendered_value(v: &Json) -> String {
    let mut out = String::new();
    encode_yaml_value(v, "  ", &mut out);
    out
}

#[test]
fn values_are_written_as_yaml() {
    assert_eq!(rendered_value(&Json::Null), "null");
    assert_eq!(rendered_value(&Json::Bool(false)), "false");
    assert_eq!(rendered_value(&Json::Number("-1.5".to_string())), "-1.5");
    assert_eq!(rendered_value(&Json::Text("a\"b\\c".to_string())), "\"a\\\"b\\\\c\"");
    assert_eq!(rendered_value(&Json::Text("a\r\n\tb".to_string())), "\"a\\r\\n\tb\"");
    assert_eq!(rendered_value(&Json::List(vec![])), "[]");
    assert_eq!(rendered_value(&Json::Object(vec![])), "{}");
    let nested = Json::List(vec![Json::Object(vec![
        ("k".to_string(), Json::List(vec![Json::Bool(true)])),
    ])]);
    assert_eq!(rendered_value(&nested), "\n  - \n    k: \n      - true");
}

#[test]
fn queries_are_recorded_one_after_the_other() {
    let mut store = CaptureStore::new("queries.yaml".to_string());
    assert_eq!(store.rendered(), "");
    let batch = Batch {
        rows: 1,
        columns: vec![column("n", DataType::Int32, vec![Datum::Int32(1)])],
    };
    let done = successful_query("SELECT 1", &vec![], &vec![], &vec![batch]);
    let first = store.append(done);
    assert_eq!(
        first,
        "- query: \"SELECT 1\"\n  parameters: []\n  result: \n  - \n    n: 1\n  success: true\n  error_details: null\n"
    );
    let failed = failed_query("SELEC", &vec![Some(b"x".to_vec())], &vec![None], "no \"SELEC\"");
    assert!(!failed.success);
    let second = store.append(failed);
    assert_eq!(
        second,
        format!("{first}\n- query: \"SELEC\"\n  parameters: \n  - \"x\"\n  result: []\n  success: false\n  error_details: \"no \\\"SELEC\\\"\"\n")
    );
    assert_eq!(store.path, "queries.yaml");
    let CapturedQuery { query, .. } = &store.entries[1];
    assert_eq!(query, "SELEC");
}

#[test]
fn requests_for_encryption_are_seen() {
    assert!(detect_gssencmode(&[0, 0, 0, 8, 0x04, 0xd2, 0x16, 0x30]));
    // A request for TLS.
    assert!(!detect_gssencmode(&[0, 0, 0, 8, 0x04, 0xd2, 0x16, 0x2f]));
    assert!(!detect_gssencmode(&[0, 0, 0, 8]));
}

#[test]
fn passwords_are_hashed_with_the_salt() {
    let (salt, answer) = DummyAuthSource.get_password("dbuser");
    assert_eq!(salt, vec![0, 0, 0, 0]);
    assert_eq!(answer, b"md538fd05e122524f888fdd10997d37d0fe");
}

fn opts() -> Option<ClientOpts> {
    Some(ClientOpts {
        application_name: "psql".to_string(),
        datestyle: "ISO, MDY".to_string(),
        search_path: "public".to_string(),
    })
}

fn done(tag: &str) -> Option<Answer> {
    Some(Answer::Done(tag.to_string()))
}

fn row(column: &str, value: &str) -> Option<Answer> {
    Some(Answer::Row {
        column: column.to_string(),
        value: value.to_string(),
    })
}

fn simple(opts: &Option<ClientOpts>, query: &str) -> Option<Answer> {
    let s = read_statement(query);
    simple_query_builtin_response(opts, &s.text, &s.low)
}

fn extended(opts: &Option<ClientOpts>, query: &str) -> Option<Answer> {
    let s = read_statement(query);
    extended_query_builtin_response(opts, &s.text, &s.low)
}

fn described(query: &str) -> Option<Vec<&'static str>> {
    let s = read_statement(query);
    describe_builtin(&s.text, &s.low)
}

#[test]
fn transaction_control_is_answered_in_the_simple_protocol() {
    let o = opts();
    assert_eq!(simple(&o, " Begin;"), done("BEGIN"));
    assert_eq!(simple(&o, "COMMIT"), done("COMMIT"));
    assert_eq!(simple(&o, "rollback"), done("ROLLBACK"));
    assert_eq!(simple(&o, ""), done(""));
    assert_eq!(simple(&o, "SELECT 1"), None);
    assert_eq!(extended(&o, "BEGIN"), None);
}

#[test]
fn settings_are_shown_in_both_protocols() {
    let o = opts();
    for (sql, answer) in [
        ("DISCARD ALL", done("DISCARD ALL")),
        ("SHOW TRANSACTION ISOLATION LEVEL", row("transaction_isolation", "read committed")),
        ("SHOW Application_Name", row("application_name", "psql")),
        ("show DateStyle", row("datestyle", "ISO, MDY")),
        ("SHOW search_path", row("search_path", "public")),
        ("SHOW server_encoding", None),
    ] {
        assert_eq!(simple(&o, sql), answer, "{sql}");
        assert_eq!(extended(&o, sql), answer, "{sql}");
    }
    assert_eq!(simple(&None, "SHOW search_path"), None);
    assert_eq!(extended(&o, "  "), done(""));
    assert_eq!(show_variable_response(&o, "search_path"), row("search_path", "public"));
    assert_eq!(show_variable_response(&o, "Search_Path"), None);
}

#[test]
fn shown_variables_are_parsed() {
    assert_eq!(parse_show_variable_name("SHOW search_path"), Some("search_path".to_string()));
    assert_eq!(parse_show_variable_name("SHOW a.b"), None);
    assert_eq!(parse_show_variable_name("SHOW a; SHOW b"), None);
    assert_eq!(parse_show_variable_name("SELECT 1"), None);
    assert_eq!(parse_show_variable_name("SHOW ("), None);
}

#[test]
fn statements_are_described_without_being_run() {
    assert_eq!(described(""), Some(vec![]));
    assert_eq!(described("discard all"), Some(vec![]));
    assert_eq!(
        described("show transaction isolation level"),
        Some(vec!["transaction_isolation"])
    );
    assert_eq!(described("SHOW x"), Some(vec!["name", "setting"]));
    assert_eq!(described("SELECT 1"), None);
    assert!(is_set_statement(&read_statement(" SET x = 1").low));
    assert!(!is_set_statement("select 1"));
    assert!(reads_demo_users(&read_statement("SELECT * FROM Users").low));
    assert!(!reads_demo_users("select * from people"));
}

#[test]
fn unknown_functions_have_their_sqlstate() {
    let text = "Error during planning: Invalid function 'pg_foo'.\nDid you mean 'pg_bar'?";
    assert_eq!(unknown_function_name(text), Some("pg_foo".to_string()));
    assert_eq!(
        error_report(text),
        ErrorReport::User {
            severity: "ERROR".to_string(),
            code: "42883".to_string(),
            message: "function pg_foo() does not exist".to_string(),
        }
    );
    assert_eq!(unknown_function_name("Invalid function 'pg_foo"), None);
    assert_eq!(error_report("table not found"), ErrorReport::Internal("table not found".to_string()));
}

#[test]
fn statements_are_described_by_their_results() {
    let declared = vec![None, Some(PgType::Int4)];
    assert_eq!(describe_results(&vec![], &declared), (vec![], vec![]));
    let users = demo_users_batch();
    assert!(users.is_well_formed());
    let (types, fields) = describe_results(&vec![users], &declared);
    assert_eq!(types, vec![PgType::Unknown, PgType::Int4]);
    let shown: Vec<(&str, PgType)> = fields.iter().map(|f| (f.name.as_str(), f.datatype)).collect();
    assert_eq!(shown, vec![("id", PgType::Int4), ("name", PgType::Text)]);
}

#[test]
fn rows_of_texts_become_columns() {
    let names = vec!["a".to_string(), "b".to_string()];
    let rows = vec![
        vec!["1".to_string(), "x".to_string()],
        vec!["2".to_string(), "y".to_string()],
    ];
    let batch = text_batch(&names, &rows);
    assert_eq!(batch.rows, 2);
    assert_eq!(
        batch_to_rows(&batch)[1],
        vec![
            WireValue::Text(Some("2".to_string())),
            WireValue::Text(Some("y".to_string())),
        ]
    );
}
