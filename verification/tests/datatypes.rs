use datafusion_pg_catalog::catalog::types::{
    column_collation, column_type_storage, map_type_to_oid, oid_to_type_names,
};
use datafusion_pg_catalog::datatype::{arrow_to_pg_type, map_pg_type, DataType, PgType, TimeUnit};

/// Scalar type names map to their Arrow counterparts, and an unknown name
/// falls back to `Utf8`.
#[test]
fn test_map_pg_type() {
    assert_eq!(map_pg_type("int"), DataType::Int32);
    assert_eq!(map_pg_type("integer"), DataType::Int32);
    assert_eq!(map_pg_type("bigint"), DataType::Int64);
    assert_eq!(map_pg_type("bool"), DataType::Boolean);
    assert_eq!(map_pg_type("varchar(20)"), DataType::Utf8);
    assert_eq!(map_pg_type("unknown"), DataType::Utf8);
}

/// Every spelling of the `PostgreSQL` float types maps to the Arrow width
/// that matches the advertised wire type.
#[test]
fn test_map_pg_float_types() {
    for t in ["real", "float4", "REAL", "Float4"] {
        assert_eq!(map_pg_type(t), DataType::Float32, "mapping for {t:?}");
    }
    for t in [
        "float",
        "double",
        "double precision",
        "float8",
        "FLOAT8",
        "Double Precision",
    ] {
        assert_eq!(map_pg_type(t), DataType::Float64, "mapping for {t:?}");
    }
}

/// Array and vector type names map to lists whose element width matches the
/// corresponding scalar type, and text arrays keep the `Utf8` default.
#[test]
fn test_map_pg_array_type() {
    match map_pg_type("int[]") {
        DataType::List(field) => assert_eq!(*field, DataType::Utf8),
        other => panic!("unexpected datatype: {other:?}"),
    }

    match map_pg_type("_text") {
        DataType::List(field) => assert_eq!(*field, DataType::Utf8),
        other => panic!("unexpected datatype: {other:?}"),
    }

    match map_pg_type("oidvector") {
        DataType::List(field) => assert_eq!(*field, DataType::Int64),
        other => panic!("unexpected datatype: {other:?}"),
    }

    match map_pg_type("int2vector") {
        DataType::List(field) => assert_eq!(*field, DataType::Int32),
        other => panic!("unexpected datatype: {other:?}"),
    }

    // Small-int arrays (`conkey` `_int2`, index keys `_int4`) -> Int32 lists.
    for small in ["_int2", "_int4"] {
        match map_pg_type(small) {
            DataType::List(field) => assert_eq!(*field, DataType::Int32),
            other => panic!("unexpected datatype for {small}: {other:?}"),
        }
    }

    // Big-int and oid arrays (`_int8`, `proallargtypes` `_oid`) -> Int64 lists,
    // since oids can exceed Int32.
    for big in ["_int8", "_oid"] {
        match map_pg_type(big) {
            DataType::List(field) => assert_eq!(*field, DataType::Int64),
            other => panic!("unexpected datatype for {big}: {other:?}"),
        }
    }
}

/// Every scalar Arrow type this server hands to clients maps to its
/// `PostgreSQL` counterpart.
#[test]
fn test_arrow_to_pg_type() {
    assert_eq!(arrow_to_pg_type(&DataType::Boolean), PgType::Bool);
    assert_eq!(arrow_to_pg_type(&DataType::Int32), PgType::Int4);
    assert_eq!(arrow_to_pg_type(&DataType::Int64), PgType::Int8);
    assert_eq!(arrow_to_pg_type(&DataType::Int16), PgType::Int2);
    assert_eq!(arrow_to_pg_type(&DataType::Utf8), PgType::Text);
    assert_eq!(arrow_to_pg_type(&DataType::Utf8View), PgType::Text);
    assert_eq!(arrow_to_pg_type(&DataType::LargeUtf8), PgType::Text);
    assert_eq!(arrow_to_pg_type(&DataType::Float32), PgType::Float4);
    assert_eq!(arrow_to_pg_type(&DataType::Float64), PgType::Float8);
}

/// Any list column maps to some array type; an unmapped element type falls
/// back to text[] rather than crashing the connection.
#[test]
fn test_arrow_to_pg_type_lists_never_panic() {
    let list = |dt: DataType| DataType::List(Box::new(dt));
    assert_eq!(arrow_to_pg_type(&list(DataType::Utf8View)), PgType::TextArray);
    assert_eq!(arrow_to_pg_type(&list(DataType::LargeUtf8)), PgType::TextArray);
    assert_eq!(arrow_to_pg_type(&list(DataType::Utf8)), PgType::TextArray);
    assert_eq!(arrow_to_pg_type(&list(DataType::Int16)), PgType::Int2Array);
    assert_eq!(arrow_to_pg_type(&list(DataType::Float64)), PgType::Float8Array);
    // An unmapped element type falls back to text[] instead of panicking.
    assert_eq!(arrow_to_pg_type(&list(DataType::Other)), PgType::TextArray);
}

#[test]
fn other_types_have_their_counterparts() {
    assert_eq!(map_pg_type("BYTEA"), DataType::Binary);
    assert_eq!(map_pg_type("Boolean"), DataType::Boolean);
    assert_eq!(map_pg_type("int8"), DataType::Int64);
    assert_eq!(
        arrow_to_pg_type(&DataType::Timestamp(TimeUnit::Microsecond)),
        PgType::Timestamp
    );
    assert_eq!(arrow_to_pg_type(&DataType::Binary), PgType::Text);
}

#[test]
fn type_names_lead_back_to_their_oids() {
    for (name, oid) in [("int", 23), ("bigint", 20), ("bool", 16), ("text", 25)] {
        assert_eq!(map_type_to_oid(name), oid);
        let (data_type, _) = oid_to_type_names(oid);
        assert_eq!(map_type_to_oid(&data_type), oid, "{data_type}");
    }
    // Case does not matter.
    assert_eq!(map_type_to_oid("INT"), 23);
}

#[test]
fn storage_of_types() {
    let int = column_type_storage(23);
    assert_eq!((int.length, int.by_value, int.align, int.storage), (4, true, "i", "p"));
    let text = column_type_storage(25);
    assert_eq!((text.length, text.by_value, text.align, text.storage), (-1, false, "i", "x"));
    assert_eq!(column_collation(25), 100);
    assert_eq!(column_collation(23), 0);
}
