use tauri_plugin_sql::deserialize::{
    bytes_value, decode_bool_from_int_or_symbol, decode_by_rule, decode_row, decode_rows,
    deserialize_col, parse_symbol, read_cascade, rows_encodable, try_decode_rows,
    try_deserialize_col, RawColumn,
};
use tauri_plugin_sql::dialect::{Backend, DecodeRule, Dialect, IntWidth};
use tauri_plugin_sql::{BooleanSource, CanonicalValue, Error, ValueKind};

fn refused<T>() -> Result<T, String> {
    Err(String::from("mismatched types"))
}

fn unread(name: &str, type_tag: &str) -> RawColumn {
    RawColumn {
        name: name.to_string(),
        type_tag: type_tag.to_string(),
        type_is_null: false,
        value_is_null: false,
        int64: refused(),
        int32: refused(),
        int16: refused(),
        int8: refused(),
        boolean: refused(),
        text: refused(),
        bytes: refused(),
    }
}

fn text_column(name: &str, type_tag: &str, text: &str) -> RawColumn {
    let mut column = unread(name, type_tag);
    column.text = Ok(text.to_string());
    column
}

fn integer_column(name: &str, type_tag: &str, value: i64) -> RawColumn {
    let mut column = unread(name, type_tag);
    column.int64 = Ok(value);
    column
}

#[test]
fn wide_integer_decodes_at_the_first_width_that_reads_it() {
    let mut column = unread("n", "INTEGER");
    column.int64 = Ok(5);
    column.int32 = Ok(5);
    assert_eq!(deserialize_col(&Dialect::sqlite(), &column), Ok(CanonicalValue::Integer(5)));

    let mut narrow = unread("n", "INTEGER");
    narrow.int16 = Ok(5);
    narrow.int8 = Ok(6);
    assert_eq!(deserialize_col(&Dialect::sqlite(), &narrow), Ok(CanonicalValue::Integer(5)));
}

#[test]
fn cascade_prefers_the_widest_read() {
    let mut column = unread("n", "INT");
    column.int64 = Ok(i64::MIN);
    column.int32 = Ok(1);
    column.int16 = Ok(2);
    column.int8 = Ok(3);
    assert_eq!(read_cascade(&column), Some(i64::MIN));
    column.int64 = refused();
    assert_eq!(read_cascade(&column), Some(1));
    column.int32 = refused();
    assert_eq!(read_cascade(&column), Some(2));
    column.int16 = refused();
    assert_eq!(read_cascade(&column), Some(3));
    column.int8 = refused();
    assert_eq!(read_cascade(&column), None);
}

#[test]
fn exhausted_cascade_reports_type_and_backend() {
    let column = unread("n", "INTEGER");
    assert_eq!(
        deserialize_col(&Dialect::sqlite(), &column),
        Err(Error::NumericDecoding(String::from("INTEGER"), String::from("Sqlite")))
    );
    let numeric = unread("n", "NUMERIC");
    assert_eq!(
        deserialize_col(&Dialect::postgres(), &numeric),
        Err(Error::NumericDecoding(String::from("NUMERIC"), String::from("Postgres")))
    );
    let real = unread("n", "REAL");
    assert_eq!(
        deserialize_col(&Dialect::mysql(), &real),
        Err(Error::NumericDecoding(String::from("REAL"), String::from("MySql")))
    );
}

#[test]
fn symbols_name_booleans_in_any_case() {
    assert_eq!(parse_symbol("true"), Some(true));
    assert_eq!(parse_symbol("TRUE"), Some(true));
    assert_eq!(parse_symbol("True"), Some(true));
    assert_eq!(parse_symbol("false"), Some(false));
    assert_eq!(parse_symbol("FALSE"), Some(false));
    assert_eq!(parse_symbol("fAlSe"), Some(false));
    assert_eq!(parse_symbol("maybe"), None);
    assert_eq!(parse_symbol(""), None);
    assert_eq!(parse_symbol("truee"), None);
    assert_eq!(parse_symbol("tru"), None);
    assert_eq!(parse_symbol("yes"), None);
}

#[test]
fn boolean_decodes_from_zero_and_one() {
    let dialect = Dialect::sqlite();
    let mut zero = unread("flag", "BOOLEAN");
    zero.int8 = Ok(0);
    assert_eq!(deserialize_col(&dialect, &zero), Ok(CanonicalValue::Bool(false)));
    let mut one = unread("flag", "BOOL");
    one.int8 = Ok(1);
    assert_eq!(deserialize_col(&dialect, &one), Ok(CanonicalValue::Bool(true)));
}

#[test]
fn boolean_decodes_from_symbols() {
    let dialect = Dialect::sqlite();
    assert_eq!(
        deserialize_col(&dialect, &text_column("flag", "BOOLEAN", "true")),
        Ok(CanonicalValue::Bool(true))
    );
    assert_eq!(
        deserialize_col(&dialect, &text_column("flag", "BOOLEAN", "TRUE")),
        Ok(CanonicalValue::Bool(true))
    );
    assert_eq!(
        deserialize_col(&dialect, &text_column("flag", "BOOLEAN", "false")),
        Ok(CanonicalValue::Bool(false))
    );
}

#[test]
fn integer_read_decides_before_the_symbol() {
    let mut column = text_column("flag", "BOOLEAN", "true");
    column.int8 = Ok(0);
    assert_eq!(decode_bool_from_int_or_symbol(&column), Ok(CanonicalValue::Bool(false)));
}

#[test]
fn integer_seven_is_no_boolean() {
    let mut column = unread("flag", "BOOLEAN");
    column.int8 = Ok(7);
    assert_eq!(
        deserialize_col(&Dialect::sqlite(), &column),
        Err(Error::BooleanDecoding(BooleanSource::Integer(7), String::from("BOOLEAN")))
    );
}

#[test]
fn maybe_is_no_boolean() {
    assert_eq!(
        deserialize_col(&Dialect::sqlite(), &text_column("flag", "BOOLEAN", "maybe")),
        Err(Error::BooleanDecoding(
            BooleanSource::Text(String::from("maybe")),
            String::from("BOOLEAN")
        ))
    );
}

#[test]
fn unreadable_boolean_fails() {
    assert_eq!(
        deserialize_col(&Dialect::sqlite(), &unread("flag", "BOOL")),
        Err(Error::BooleanDecoding(BooleanSource::Unreadable, String::from("BOOL")))
    );
}

#[test]
fn native_boolean_is_read_directly() {
    let mut column = unread("flag", "BOOL");
    column.boolean = Ok(true);
    column.int8 = Ok(0);
    assert_eq!(deserialize_col(&Dialect::postgres(), &column), Ok(CanonicalValue::Bool(true)));
    assert_eq!(
        deserialize_col(&Dialect::postgres(), &unread("flag", "BOOL")),
        Err(Error::Sql(String::from("mismatched types")))
    );
}

#[test]
fn unmodeled_type_decodes_to_null() {
    let column = text_column("shape", "GEOMETRY", "POINT(1 2)");
    assert_eq!(deserialize_col(&Dialect::sqlite(), &column), Ok(CanonicalValue::Null));
    assert_eq!(deserialize_col(&Dialect::postgres(), &column), Ok(CanonicalValue::Null));
    let point = text_column("shape", "POINT", "(1,2)");
    assert_eq!(deserialize_col(&Dialect::mysql(), &point), Ok(CanonicalValue::Null));
    assert_eq!(Dialect::postgres().rule_for("POINT"), None);
}

#[test]
fn type_names_match_exactly() {
    let column = text_column("title", "text", "buy milk");
    assert_eq!(deserialize_col(&Dialect::sqlite(), &column), Ok(CanonicalValue::Null));
    assert_eq!(Dialect::sqlite().rule_for("TEXT"), Some(DecodeRule::StringDirect));
    assert_eq!(Dialect::sqlite().rule_for("Text"), None);
    assert_eq!(Dialect::sqlite().rule_for("TEXT "), None);
}

#[test]
fn null_column_decodes_to_null_whatever_its_type() {
    for type_tag in ["TEXT", "INTEGER", "BOOLEAN", "BLOB", "REAL", "GEOMETRY", ""] {
        let mut column = integer_column("c", type_tag, 9);
        assert!(!column.is_null());
        column.type_is_null = true;
        assert!(column.is_null());
        assert_eq!(deserialize_col(&Dialect::sqlite(), &column), Ok(CanonicalValue::Null));
        assert_eq!(deserialize_col(&Dialect::mysql(), &column), Ok(CanonicalValue::Null));
        assert_eq!(deserialize_col(&Dialect::postgres(), &column), Ok(CanonicalValue::Null));
        column.type_is_null = false;
        column.value_is_null = true;
        assert!(column.is_null());
        assert_eq!(deserialize_col(&Dialect::sqlite(), &column), Ok(CanonicalValue::Null));
        assert_eq!(deserialize_col(&Dialect::mysql(), &column), Ok(CanonicalValue::Null));
        assert_eq!(deserialize_col(&Dialect::postgres(), &column), Ok(CanonicalValue::Null));
    }
}

fn full(name: &str, type_tag: &str) -> RawColumn {
    RawColumn {
        name: name.to_string(),
        type_tag: type_tag.to_string(),
        type_is_null: false,
        value_is_null: false,
        int64: Ok(1),
        int32: Ok(1),
        int16: Ok(1),
        int8: Ok(1),
        boolean: Ok(true),
        text: Ok(String::from("1")),
        bytes: Ok(vec![1]),
    }
}

fn kind_of(dialect: &Dialect, type_tag: &str) -> ValueKind {
    let rule = dialect.rule_for(type_tag).unwrap();
    let value = deserialize_col(dialect, &full("c", type_tag)).unwrap();
    assert_eq!(value.kind(), rule.kind());
    value.kind()
}

#[test]
fn sqlite_entries_decode_to_their_documented_kinds() {
    let d = Dialect::sqlite();
    assert_eq!(d.backend(), Backend::Sqlite);
    for t in ["TEXT", "STRING", "VARCHAR", "DATETIME"] {
        assert_eq!(kind_of(&d, t), ValueKind::Text);
    }
    assert_eq!(kind_of(&d, "BLOB"), ValueKind::Bytes);
    for t in ["INTEGER", "INT", "REAL", "FLOAT", "DOUBLE", "NUMERIC"] {
        assert_eq!(kind_of(&d, t), ValueKind::Integer);
    }
    for t in ["BOOL", "BOOLEAN"] {
        assert_eq!(kind_of(&d, t), ValueKind::Bool);
    }
}

#[test]
fn mysql_entries_decode_to_their_documented_kinds() {
    let d = Dialect::mysql();
    assert_eq!(d.backend(), Backend::MySql);
    for t in [
        "TIMESTAMP", "DATE", "TIME", "DATETIME", "NEWDATE", "VARCHAR", "TEXT", "CHAR", "JSON",
        "VAR_STRING", "STRING", "ENUM", "SET",
    ] {
        assert_eq!(kind_of(&d, t), ValueKind::Text);
    }
    for t in ["TINY_BLOB", "MEDIUM_BLOB", "LONG_BLOB", "BLOB", "GEOMETRY"] {
        assert_eq!(kind_of(&d, t), ValueKind::Bytes);
    }
    for t in [
        "TINY", "TINYINT", "SMALL", "SMALLINT", "MEDIUM", "MEDIUMINT", "INT", "BIGINT", "REAL",
        "YEAR", "FLOAT", "DOUBLE", "BIT",
    ] {
        assert_eq!(kind_of(&d, t), ValueKind::Integer);
    }
    assert_eq!(d.rule_for("BOOLEAN"), None);
}

#[test]
fn postgres_entries_decode_to_their_documented_kinds() {
    let d = Dialect::postgres();
    assert_eq!(d.backend(), Backend::Postgres);
    for t in ["TEXT", "VARCHAR", "NAME", "JSON", "DATE", "TIME", "TIMESTAMP", "TIMESTAMPTZ"] {
        assert_eq!(kind_of(&d, t), ValueKind::Text);
    }
    assert_eq!(kind_of(&d, "BOOL"), ValueKind::Bool);
    assert_eq!(kind_of(&d, "BYTEA"), ValueKind::Bytes);
    for t in [
        "CHAR", "INT2", "SMALLINT", "SMALLSERIAL", "INT4", "INT", "SERIAL", "INT8", "BIGINT",
        "BIGSERIAL", "FLOAT4", "REAL", "FLOAT8", "DOUBLE PRECISION", "NUMERIC",
    ] {
        assert_eq!(kind_of(&d, t), ValueKind::Integer);
    }
}

#[test]
fn dialect_of_backend_is_that_backends_dialect() {
    for backend in [Backend::Sqlite, Backend::MySql, Backend::Postgres] {
        assert_eq!(Dialect::of(backend).backend(), backend);
    }
    assert_eq!(Dialect::of(Backend::Postgres).rule_for("BOOL"), Some(DecodeRule::BoolDirect));
    assert_eq!(
        Dialect::of(Backend::Sqlite).rule_for("BOOL"),
        Some(DecodeRule::BoolFromIntOrSymbol)
    );
    assert_eq!(Dialect::of(Backend::MySql).rule_for("BOOL"), None);
    assert_eq!(Backend::Sqlite.name(), "Sqlite");
    assert_eq!(Backend::MySql.name(), "MySql");
    assert_eq!(Backend::Postgres.name(), "Postgres");
}

#[test]
fn same_name_has_its_own_rule_in_each_dialect() {
    assert_eq!(Dialect::sqlite().rule_for("INT"), Some(DecodeRule::IntegerCascade));
    assert_eq!(Dialect::mysql().rule_for("INT"), Some(DecodeRule::IntegerFixed(IntWidth::W32)));
    assert_eq!(
        Dialect::postgres().rule_for("INT"),
        Some(DecodeRule::IntegerFixed(IntWidth::W32))
    );
    assert_eq!(Dialect::mysql().rule_for("CHAR"), Some(DecodeRule::StringDirect));
    assert_eq!(
        Dialect::postgres().rule_for("CHAR"),
        Some(DecodeRule::IntegerFixed(IntWidth::W8))
    );
    assert_eq!(Dialect::sqlite().rule_for("REAL"), Some(DecodeRule::NumericAsInteger));
}

#[test]
fn fixed_width_reads_only_its_own_width() {
    let mut column = unread("n", "INT2");
    column.int64 = Ok(70000);
    column.int32 = Ok(70000);
    assert_eq!(
        deserialize_col(&Dialect::postgres(), &column),
        Err(Error::Sql(String::from("mismatched types")))
    );
    column.int16 = Ok(-12);
    assert_eq!(deserialize_col(&Dialect::postgres(), &column), Ok(CanonicalValue::Integer(-12)));

    let mut tiny = unread("n", "TINYINT");
    tiny.int8 = Ok(i8::MIN);
    assert_eq!(deserialize_col(&Dialect::mysql(), &tiny), Ok(CanonicalValue::Integer(-128)));
    let mut medium = unread("n", "MEDIUMINT");
    medium.int32 = Ok(i32::MAX);
    assert_eq!(
        deserialize_col(&Dialect::mysql(), &medium),
        Ok(CanonicalValue::Integer(2147483647))
    );
    let mut big = unread("n", "BIGINT");
    big.int64 = Ok(i64::MAX);
    assert_eq!(deserialize_col(&Dialect::mysql(), &big), Ok(CanonicalValue::Integer(i64::MAX)));
}

#[test]
fn text_is_read_as_it_is() {
    assert_eq!(
        deserialize_col(&Dialect::sqlite(), &text_column("title", "TEXT", "buy milk")),
        Ok(CanonicalValue::Text(String::from("buy milk")))
    );
    assert_eq!(
        deserialize_col(&Dialect::sqlite(), &unread("title", "TEXT")),
        Err(Error::Sql(String::from("mismatched types")))
    );
}

#[test]
fn payload_is_given_as_base64_text() {
    let mut column = unread("data", "BLOB");
    column.bytes = Ok(b"hello world".to_vec());
    assert_eq!(
        deserialize_col(&Dialect::sqlite(), &column),
        Ok(CanonicalValue::Bytes(String::from("aGVsbG8gd29ybGQ=")))
    );
    column.bytes = Ok(vec![0xff, 0x00, 0x10]);
    assert_eq!(
        deserialize_col(&Dialect::mysql(), &column),
        Ok(CanonicalValue::Bytes(base64::encode([0xffu8, 0x00, 0x10])))
    );
    column.bytes = Ok(Vec::new());
    assert_eq!(
        decode_by_rule(DecodeRule::BytesBase64, Backend::Postgres, &column),
        Ok(CanonicalValue::Bytes(String::new()))
    );
    column.bytes = Err(String::from("no payload"));
    column.text = Err(String::from("no text either"));
    assert_eq!(
        decode_by_rule(DecodeRule::BytesBase64, Backend::Postgres, &column),
        Err(Error::Sql(String::from("no text either")))
    );
}

#[test]
fn encoded_text_becomes_a_bytes_value() {
    assert_eq!(bytes_value(String::from("aGk=")), CanonicalValue::Bytes(String::from("aGk=")));
    assert_eq!(bytes_value(String::from("aGk=")).kind(), ValueKind::Bytes);
}

#[test]
fn floating_column_is_read_as_integer() {
    let mut column = unread("price", "REAL");
    column.int64 = Ok(3);
    assert_eq!(deserialize_col(&Dialect::sqlite(), &column), Ok(CanonicalValue::Integer(3)));
    let mut float4 = unread("price", "FLOAT4");
    float4.int32 = Ok(2);
    assert_eq!(deserialize_col(&Dialect::postgres(), &float4), Ok(CanonicalValue::Integer(2)));
}

#[test]
fn row_keeps_column_order_and_last_value_of_a_name() {
    let columns = vec![
        integer_column("id", "INTEGER", 1),
        text_column("title", "TEXT", "buy milk"),
        integer_column("id", "INTEGER", 2),
    ];
    let row = decode_row(&Dialect::sqlite(), &columns).unwrap();
    assert_eq!(row.len(), 2);
    assert_eq!(row.name_at(0), "id");
    assert_eq!(row.value_at(0), &CanonicalValue::Integer(2));
    assert_eq!(row.name_at(1), "title");
    assert_eq!(row.value_at(1), &CanonicalValue::Text(String::from("buy milk")));
    assert_eq!(row.get("id"), Some(&CanonicalValue::Integer(2)));
    assert_eq!(row.get("missing"), None);
}

#[test]
fn failing_column_fails_the_row_and_the_result_set() {
    let good = vec![integer_column("id", "INTEGER", 1)];
    let bad = vec![integer_column("id", "INTEGER", 2), unread("n", "INTEGER"), unread("b", "BOOL")];
    assert!(matches!(
        decode_row(&Dialect::sqlite(), &bad),
        Err(Error::NumericDecoding(_, _))
    ));
    let rows = vec![good, bad];
    assert_eq!(
        decode_rows(&Dialect::sqlite(), &rows).err(),
        Some(Error::NumericDecoding(String::from("INTEGER"), String::from("Sqlite")))
    );
}

#[test]
fn result_set_decodes_row_by_row() {
    let rows = vec![
        vec![integer_column("id", "INTEGER", 1), text_column("title", "TEXT", "buy milk")],
        vec![integer_column("id", "INTEGER", 2), text_column("title", "TEXT", "walk dog")],
    ];
    let decoded = decode_rows(&Dialect::sqlite(), &rows).unwrap();
    assert_eq!(decoded.len(), 2);
    assert_eq!(decoded[0].get("id"), Some(&CanonicalValue::Integer(1)));
    assert_eq!(decoded[1].get("title"), Some(&CanonicalValue::Text(String::from("walk dog"))));
    assert_eq!(decode_rows(&Dialect::sqlite(), &Vec::new()).unwrap().len(), 0);
    let empty_row = decode_row(&Dialect::sqlite(), &Vec::new()).unwrap();
    assert_eq!(empty_row.len(), 0);
}

#[test]
fn payloads_of_ordinary_length_can_be_encoded() {
    let mut column = unread("data", "BLOB");
    assert!(column.can_encode());
    column.bytes = Ok(vec![7; 4096]);
    assert!(column.can_encode());
    assert_eq!(
        try_deserialize_col(&Dialect::sqlite(), &column),
        Some(Ok(CanonicalValue::Bytes(base64::encode(vec![7u8; 4096]))))
    );
    let rows = vec![vec![column], vec![integer_column("id", "INTEGER", 4)]];
    assert!(rows_encodable(&rows));
    let decoded = try_decode_rows(&Dialect::sqlite(), &rows).unwrap().unwrap();
    assert_eq!(decoded.len(), 2);
    assert_eq!(decoded[1].get("id"), Some(&CanonicalValue::Integer(4)));
    let failing = vec![vec![unread("n", "INT")]];
    assert!(matches!(
        try_decode_rows(&Dialect::sqlite(), &failing),
        Some(Err(Error::NumericDecoding(_, _)))
    ));
}

#[test]
fn every_listed_type_name_has_its_own_entry() {
    assert_eq!(Dialect::sqlite().len(), 13);
    assert_eq!(Dialect::mysql().len(), 31);
    assert_eq!(Dialect::postgres().len(), 25);
}

#[test]
fn payload_falls_back_to_the_bytes_of_the_text() {
    let mut column = text_column("data", "BLOB", "hi");
    assert_eq!(column.payload(), Ok(&b"hi"[..]));
    assert_eq!(
        deserialize_col(&Dialect::sqlite(), &column),
        Ok(CanonicalValue::Bytes(String::from("aGk=")))
    );
    column.bytes = Ok(vec![0xff]);
    assert_eq!(column.payload(), Ok(&[0xffu8][..]));
    assert_eq!(
        deserialize_col(&Dialect::sqlite(), &column),
        Ok(CanonicalValue::Bytes(String::from("/w==")))
    );
    let mut unreadable = unread("data", "BLOB");
    unreadable.text = Err(String::from("no text"));
    unreadable.bytes = Err(String::from("no bytes"));
    assert_eq!(
        deserialize_col(&Dialect::sqlite(), &unreadable),
        Err(Error::Sql(String::from("no text")))
    );
}

#[test]
fn base64_text_has_four_characters_for_every_three_bytes_begun() {
    for (length, expected) in [(0usize, 0usize), (1, 4), (2, 4), (3, 4), (4, 8), (11, 16)] {
        let mut column = unread("data", "BLOB");
        column.bytes = Ok(vec![9; length]);
        match deserialize_col(&Dialect::sqlite(), &column) {
            Ok(CanonicalValue::Bytes(text)) => assert_eq!(text.chars().count(), expected),
            other => panic!("unexpected outcome {:?}", other),
        }
    }
}
