//! The types that columns are stored in.
use crate::text::{
    ends_with, lowercased, same, starts_with, text_ends_with, text_starts_with, to_lowercase,
};
use vstd::prelude::*;

verus! {

/// The unit that an instant is counted in.
#[derive(Clone, Copy, Debug, PartialEq, Eq, Structural)]
pub enum TimeUnit {
    Second,
    Millisecond,
    Microsecond,
    Nanosecond,
}

/// The type of a column, as far as a rule depends on it.
#[derive(Debug, PartialEq, Eq)]
pub enum DataType {
    Boolean,
    Int16,
    Int32,
    Int64,
    Float32,
    Float64,
    Utf8,
    Utf8View,
    LargeUtf8,
    Binary,
    Timestamp(TimeUnit),
    List(Box<DataType>),
    Other,
}

/// The type that the PostgreSQL type `t`, a name in small letters, is stored in. Arrays of
/// integers keep the width that their elements have as scalars, so that `column = ANY(array)`
/// compares like with like. A name that is not known is stored as text.
pub open spec fn storage_of(t: Seq<char>) -> DataType {
    if t == "int2vector"@ || t == "_int2"@ || t == "_int4"@ {
        DataType::List(Box::new(DataType::Int32))
    } else if t == "oidvector"@ || t == "_int8"@ || t == "_oid"@ {
        DataType::List(Box::new(DataType::Int64))
    } else if ends_with(t, "[]"@) || starts_with(t, "_"@) {
        DataType::List(Box::new(DataType::Utf8))
    } else if t == "int"@ || t == "integer"@ || t == "int4"@ {
        DataType::Int32
    } else if t == "bigint"@ || t == "int8"@ {
        DataType::Int64
    } else if t == "real"@ || t == "float4"@ {
        DataType::Float32
    } else if t == "float"@ || t == "double"@ || t == "double precision"@ || t == "float8"@ {
        DataType::Float64
    } else if t == "bool"@ || t == "boolean"@ {
        DataType::Boolean
    } else if t == "bytea"@ {
        DataType::Binary
    } else {
        DataType::Utf8
    }
}

/// The type that a column of the PostgreSQL type `pg_type` is stored in; the case of the name
/// does not matter.
pub fn map_pg_type(pg_type: &str) -> (r: DataType)
    ensures
        r == storage_of(lowercased(pg_type@)),
{
    let lower = to_lowercase(pg_type);
    let t = lower.as_str();
    if same(t, "int2vector") || same(t, "_int2") || same(t, "_int4") {
        DataType::List(Box::new(DataType::Int32))
    } else if same(t, "oidvector") || same(t, "_int8") || same(t, "_oid") {
        DataType::List(Box::new(DataType::Int64))
    } else if text_ends_with(t, "[]") || text_starts_with(t, "_") {
        DataType::List(Box::new(DataType::Utf8))
    } else if same(t, "int") || same(t, "integer") || same(t, "int4") {
        DataType::Int32
    } else if same(t, "bigint") || same(t, "int8") {
        DataType::Int64
    } else if same(t, "real") || same(t, "float4") {
        DataType::Float32
    } else if same(t, "float") || same(t, "double") || same(t, "double precision") || same(
        t,
        "float8",
    ) {
        DataType::Float64
    } else if same(t, "bool") || same(t, "boolean") {
        DataType::Boolean
    } else if same(t, "bytea") {
        DataType::Binary
    } else {
        DataType::Utf8
    }
}

/// Whether a type holds texts.
pub open spec fn is_text(t: DataType) -> bool {
    t is Utf8 || t is Utf8View || t is LargeUtf8
}

pub fn holds_text(t: &DataType) -> (r: bool)
    ensures
        r == is_text(*t),
{
    matches!(t, DataType::Utf8 | DataType::Utf8View | DataType::LargeUtf8)
}

/// The types that PostgreSQL clients know columns and parameters by.
#[derive(Clone, Copy, Debug, PartialEq, Eq, Structural)]
pub enum PgType {
    Bool,
    Int2,
    Int4,
    Int8,
    Oid,
    Float4,
    Float8,
    Text,
    Varchar,
    Bpchar,
    Name,
    Unknown,
    Timestamp,
    BoolArray,
    Int2Array,
    Int4Array,
    Int8Array,
    Float4Array,
    Float8Array,
    TextArray,
    Other,
}

/// The PostgreSQL type that a column is announced with. What has no counterpart is announced
/// as text, and a list of it as a list of texts.
pub open spec fn pg_type_of(t: DataType) -> PgType {
    match t {
        DataType::Boolean => PgType::Bool,
        DataType::Int16 => PgType::Int2,
        DataType::Int32 => PgType::Int4,
        DataType::Int64 => PgType::Int8,
        DataType::Timestamp(_) => PgType::Timestamp,
        DataType::Float32 => PgType::Float4,
        DataType::Float64 => PgType::Float8,
        DataType::List(inner) => match *inner {
            DataType::Int16 => PgType::Int2Array,
            DataType::Int32 => PgType::Int4Array,
            DataType::Int64 => PgType::Int8Array,
            DataType::Boolean => PgType::BoolArray,
            DataType::Float32 => PgType::Float4Array,
            DataType::Float64 => PgType::Float8Array,
            _ => PgType::TextArray,
        },
        _ => PgType::Text,
    }
}

pub fn arrow_to_pg_type(t: &DataType) -> (r: PgType)
    ensures
        r == pg_type_of(*t),
{
    match t {
        DataType::Boolean => PgType::Bool,
        DataType::Int16 => PgType::Int2,
        DataType::Int32 => PgType::Int4,
        DataType::Int64 => PgType::Int8,
        DataType::Timestamp(_) => PgType::Timestamp,
        DataType::Float32 => PgType::Float4,
        DataType::Float64 => PgType::Float8,
        DataType::List(inner) => match &**inner {
            DataType::Int16 => PgType::Int2Array,
            DataType::Int32 => PgType::Int4Array,
            DataType::Int64 => PgType::Int8Array,
            DataType::Boolean => PgType::BoolArray,
            DataType::Float32 => PgType::Float4Array,
            DataType::Float64 => PgType::Float8Array,
            _ => PgType::TextArray,
        },
        _ => PgType::Text,
    }
}

/// Whatever its elements are, a list is announced as an array.
pub proof fn lists_are_arrays(t: DataType)
    requires
        t is List,
    ensures
        pg_type_of(t) is TextArray || pg_type_of(t) is Int2Array || pg_type_of(t) is Int4Array
            || pg_type_of(t) is Int8Array || pg_type_of(t) is BoolArray || pg_type_of(
            t,
        ) is Float4Array || pg_type_of(t) is Float8Array,
{
}

/// A type name with `[]` behind it, or `_` before it, is stored as a list, and announced as an
/// array.
pub proof fn array_names_are_arrays(t: Seq<char>)
    requires
        ends_with(t, "[]"@) || starts_with(t, "_"@),
    ensures
        storage_of(t) is List,
{
}

/// The types that are known are stored as what they hold: whole numbers of four and of eight bytes,
/// numbers of single and of double precision, truth values and bytes.
pub proof fn known_types_are_stored_as_they_are()
    ensures
        storage_of("int"@) == DataType::Int32,
        storage_of("integer"@) == DataType::Int32,
        storage_of("int4"@) == DataType::Int32,
        storage_of("bigint"@) == DataType::Int64,
        storage_of("int8"@) == DataType::Int64,
        storage_of("real"@) == DataType::Float32,
        storage_of("float4"@) == DataType::Float32,
        storage_of("float"@) == DataType::Float64,
        storage_of("double"@) == DataType::Float64,
        storage_of("double precision"@) == DataType::Float64,
        storage_of("float8"@) == DataType::Float64,
        storage_of("bool"@) == DataType::Boolean,
        storage_of("boolean"@) == DataType::Boolean,
        storage_of("bytea"@) == DataType::Binary,
{
    reveal_strlit("int2vector");
    reveal_strlit("_int2");
    reveal_strlit("_int4");
    reveal_strlit("oidvector");
    reveal_strlit("_int8");
    reveal_strlit("_oid");
    reveal_strlit("[]");
    reveal_strlit("_");
    reveal_strlit("int");
    reveal_strlit("integer");
    reveal_strlit("int4");
    reveal_strlit("bigint");
    reveal_strlit("int8");
    reveal_strlit("real");
    reveal_strlit("float4");
    reveal_strlit("float");
    reveal_strlit("double");
    reveal_strlit("double precision");
    reveal_strlit("float8");
    reveal_strlit("bool");
    reveal_strlit("boolean");
    reveal_strlit("bytea");
    assert("int2vector"@.len() == 10);
    assert("_int2"@.len() == 5);
    assert("_int4"@.len() == 5);
    assert("oidvector"@.len() == 9);
    assert("_int8"@.len() == 5);
    assert("_oid"@.len() == 4);
    assert("[]"@.len() == 2);
    assert("_"@.len() == 1);
    assert("int"@.len() == 3);
    assert("integer"@.len() == 7);
    assert("int4"@.len() == 4);
    assert("bigint"@.len() == 6);
    assert("int8"@.len() == 4);
    assert("real"@.len() == 4);
    assert("float4"@.len() == 6);
    assert("float"@.len() == 5);
    assert("double"@.len() == 6);
    assert("double precision"@.len() == 16);
    assert("float8"@.len() == 6);
    assert("bool"@.len() == 4);
    assert("boolean"@.len() == 7);
    assert("bytea"@.len() == 5);
    assert("_int2"@[4] == '2');
    assert("_int4"@[4] == '4');
    assert("_int8"@[4] == '8');
    assert("_int2"@[0] == '_');
    assert("float"@[0] == 'f');
    assert("bytea"@[0] == 'b');
    assert("_int4"@[0] == '_');
    assert("_int8"@[0] == '_');
    assert("_oid"@[0] == '_');
    assert("int4"@[0] == 'i');
    assert("int8"@[0] == 'i');
    assert("real"@[0] == 'r');
    assert("bool"@[0] == 'b');
    assert("integer"@[0] == 'i');
    assert("boolean"@[0] == 'b');
    assert("int4"@[3] == '4');
    assert("int8"@[3] == '8');
    assert("bigint"@[0] == 'b');
    assert("float4"@[0] == 'f');
    assert("double"@[0] == 'd');
    assert("float8"@[0] == 'f');
    assert("float4"@[5] == '4');
    assert("float8"@[5] == '8');
    assert(!ends_with("int"@, "[]"@)) by {
        assert("int"@.skip("int"@.len() - 2)[0] == "int"@["int"@.len() - 2]);
        assert("[]"@[0] == '[');
    }
    assert(!starts_with("int"@, "_"@)) by {
        assert("int"@.take(1)[0] == "int"@[0]);
        assert("_"@[0] == '_');
    }
    assert(!ends_with("integer"@, "[]"@)) by {
        assert("integer"@.skip("integer"@.len() - 2)[0] == "integer"@["integer"@.len() - 2]);
        assert("[]"@[0] == '[');
    }
    assert(!starts_with("integer"@, "_"@)) by {
        assert("integer"@.take(1)[0] == "integer"@[0]);
        assert("_"@[0] == '_');
    }
    assert(!ends_with("int4"@, "[]"@)) by {
        assert("int4"@.skip("int4"@.len() - 2)[0] == "int4"@["int4"@.len() - 2]);
        assert("[]"@[0] == '[');
    }
    assert(!starts_with("int4"@, "_"@)) by {
        assert("int4"@.take(1)[0] == "int4"@[0]);
        assert("_"@[0] == '_');
    }
    assert(!ends_with("bigint"@, "[]"@)) by {
        assert("bigint"@.skip("bigint"@.len() - 2)[0] == "bigint"@["bigint"@.len() - 2]);
        assert("[]"@[0] == '[');
    }
    assert(!starts_with("bigint"@, "_"@)) by {
        assert("bigint"@.take(1)[0] == "bigint"@[0]);
        assert("_"@[0] == '_');
    }
    assert(!ends_with("int8"@, "[]"@)) by {
        assert("int8"@.skip("int8"@.len() - 2)[0] == "int8"@["int8"@.len() - 2]);
        assert("[]"@[0] == '[');
    }
    assert(!starts_with("int8"@, "_"@)) by {
        assert("int8"@.take(1)[0] == "int8"@[0]);
        assert("_"@[0] == '_');
    }
    assert(!ends_with("real"@, "[]"@)) by {
        assert("real"@.skip("real"@.len() - 2)[0] == "real"@["real"@.len() - 2]);
        assert("[]"@[0] == '[');
    }
    assert(!starts_with("real"@, "_"@)) by {
        assert("real"@.take(1)[0] == "real"@[0]);
        assert("_"@[0] == '_');
    }
    assert(!ends_with("float4"@, "[]"@)) by {
        assert("float4"@.skip("float4"@.len() - 2)[0] == "float4"@["float4"@.len() - 2]);
        assert("[]"@[0] == '[');
    }
    assert(!starts_with("float4"@, "_"@)) by {
        assert("float4"@.take(1)[0] == "float4"@[0]);
        assert("_"@[0] == '_');
    }
    assert(!ends_with("float"@, "[]"@)) by {
        assert("float"@.skip("float"@.len() - 2)[0] == "float"@["float"@.len() - 2]);
        assert("[]"@[0] == '[');
    }
    assert(!starts_with("float"@, "_"@)) by {
        assert("float"@.take(1)[0] == "float"@[0]);
        assert("_"@[0] == '_');
    }
    assert(!ends_with("double"@, "[]"@)) by {
        assert("double"@.skip("double"@.len() - 2)[0] == "double"@["double"@.len() - 2]);
        assert("[]"@[0] == '[');
    }
    assert(!starts_with("double"@, "_"@)) by {
        assert("double"@.take(1)[0] == "double"@[0]);
        assert("_"@[0] == '_');
    }
    assert(!ends_with("double precision"@, "[]"@)) by {
        assert("double precision"@.skip("double precision"@.len() - 2)[0]
            == "double precision"@["double precision"@.len() - 2]);
        assert("[]"@[0] == '[');
    }
    assert(!starts_with("double precision"@, "_"@)) by {
        assert("double precision"@.take(1)[0] == "double precision"@[0]);
        assert("_"@[0] == '_');
    }
    assert(!ends_with("float8"@, "[]"@)) by {
        assert("float8"@.skip("float8"@.len() - 2)[0] == "float8"@["float8"@.len() - 2]);
        assert("[]"@[0] == '[');
    }
    assert(!starts_with("float8"@, "_"@)) by {
        assert("float8"@.take(1)[0] == "float8"@[0]);
        assert("_"@[0] == '_');
    }
    assert(!ends_with("bool"@, "[]"@)) by {
        assert("bool"@.skip("bool"@.len() - 2)[0] == "bool"@["bool"@.len() - 2]);
        assert("[]"@[0] == '[');
    }
    assert(!starts_with("bool"@, "_"@)) by {
        assert("bool"@.take(1)[0] == "bool"@[0]);
        assert("_"@[0] == '_');
    }
    assert(!ends_with("boolean"@, "[]"@)) by {
        assert("boolean"@.skip("boolean"@.len() - 2)[0] == "boolean"@["boolean"@.len() - 2]);
        assert("[]"@[0] == '[');
    }
    assert(!starts_with("boolean"@, "_"@)) by {
        assert("boolean"@.take(1)[0] == "boolean"@[0]);
        assert("_"@[0] == '_');
    }
    assert(!ends_with("bytea"@, "[]"@)) by {
        assert("bytea"@.skip("bytea"@.len() - 2)[0] == "bytea"@["bytea"@.len() - 2]);
        assert("[]"@[0] == '[');
    }
    assert(!starts_with("bytea"@, "_"@)) by {
        assert("bytea"@.take(1)[0] == "bytea"@[0]);
        assert("_"@[0] == '_');
    }
}

/// Arrays of small numbers are stored as lists of numbers of four bytes, arrays of OIDs and of long
/// numbers as lists of numbers of eight, and every other array as a list of texts.
pub proof fn arrays_keep_their_width(t: Seq<char>)
    ensures
        t == "int2vector"@ || t == "_int2"@ || t == "_int4"@ ==> storage_of(t) == DataType::List(
            Box::new(DataType::Int32),
        ),
        t == "oidvector"@ || t == "_int8"@ || t == "_oid"@ ==> storage_of(t) == DataType::List(
            Box::new(DataType::Int64),
        ),
        (t.len() >= 1 && t[0] == '_' || t.len() >= 2 && t[t.len() - 2] == '[' && t[t.len() - 1]
            == ']') && t != "_int2"@ && t != "_int4"@ && t != "_int8"@ && t != "_oid"@
                ==> storage_of(
            t,
        ) == DataType::List(Box::new(DataType::Utf8)),
{
    reveal_strlit("int2vector");
    reveal_strlit("_int2");
    reveal_strlit("_int4");
    reveal_strlit("oidvector");
    reveal_strlit("_int8");
    reveal_strlit("_oid");
    reveal_strlit("[]");
    reveal_strlit("_");
    assert("int2vector"@.len() == 10);
    assert("_int2"@.len() == 5);
    assert("_int4"@.len() == 5);
    assert("oidvector"@.len() == 9);
    assert("_int8"@.len() == 5);
    assert("_oid"@.len() == 4);
    assert("[]"@.len() == 2);
    assert("_"@.len() == 1);
    assert("_int2"@[4] == '2');
    assert("_int4"@[4] == '4');
    assert("_int8"@[4] == '8');
    if t.len() >= 1 && t[0] == '_' {
        assert(t.take(1) =~= "_"@);
        assert("int2vector"@[0] == 'i' && "oidvector"@[0] == 'o');
    }
    if t.len() >= 2 && t[t.len() - 2] == '[' && t[t.len() - 1] == ']' {
        assert(t.skip(t.len() - 2) =~= "[]"@);
        assert("int2vector"@[9] == 'r' && "oidvector"@[8] == 'r');
    }
}

/// A column is announced with the type of what it holds.
pub proof fn columns_are_announced_as_they_are(t: DataType)
    ensures
        t is Boolean <==> pg_type_of(t) is Bool,
        t is Int16 <==> pg_type_of(t) is Int2,
        t is Int32 <==> pg_type_of(t) is Int4,
        t is Int64 <==> pg_type_of(t) is Int8,
        t is Float32 <==> pg_type_of(t) is Float4,
        t is Float64 <==> pg_type_of(t) is Float8,
        t is Timestamp <==> pg_type_of(t) is Timestamp,
        t == DataType::List(Box::new(DataType::Int16)) <==> pg_type_of(t) is Int2Array,
        t == DataType::List(Box::new(DataType::Int32)) <==> pg_type_of(t) is Int4Array,
        t == DataType::List(Box::new(DataType::Int64)) <==> pg_type_of(t) is Int8Array,
        t == DataType::List(Box::new(DataType::Boolean)) <==> pg_type_of(t) is BoolArray,
        t == DataType::List(Box::new(DataType::Float32)) <==> pg_type_of(t) is Float4Array,
        t == DataType::List(Box::new(DataType::Float64)) <==> pg_type_of(t) is Float8Array,
        is_text(t) || t is Binary ==> pg_type_of(t) is Text,
{
}

} // verus!
