//! Type names and the OIDs of the types.
use crate::text::{lowercased, same, starts_with, text_starts_with, to_lowercase};
use vstd::prelude::*;

verus! {

/// The OID of the type that is declared by `lowered`, a text in small letters; that of `text`
/// for a type that is not known.
pub open spec fn type_oid(lowered: Seq<char>) -> i32 {
    if lowered == "int"@ || lowered == "integer"@ || lowered == "int4"@ {
        23
    } else if lowered == "bigint"@ || lowered == "int8"@ {
        20
    } else if lowered == "bool"@ || lowered == "boolean"@ {
        16
    } else if starts_with(lowered, "varchar"@) || starts_with(lowered, "character varying"@) {
        1043
    } else {
        25
    }
}

/// The OID of the type that a column is declared with, such as `int` or `varchar(64)`, in any
/// case.
pub fn map_type_to_oid(t: &str) -> (r: i32)
    ensures
        r == type_oid(lowercased(t@)),
{
    let lowered = to_lowercase(t);
    let l = lowered.as_str();
    if same(l, "int") || same(l, "integer") || same(l, "int4") {
        23
    } else if same(l, "bigint") || same(l, "int8") {
        20
    } else if same(l, "bool") || same(l, "boolean") {
        16
    } else if text_starts_with(l, "varchar") || text_starts_with(l, "character varying") {
        1043
    } else {
        25
    }
}

/// The name of a type in `information_schema.columns`, and its name in `pg_type`; those of
/// `text` for an OID that is not known.
pub open spec fn type_names(oid: i32) -> (Seq<char>, Seq<char>) {
    if oid == 23 {
        ("integer"@, "int4"@)
    } else if oid == 20 {
        ("bigint"@, "int8"@)
    } else if oid == 16 {
        ("boolean"@, "bool"@)
    } else if oid == 1043 {
        ("character varying"@, "varchar"@)
    } else {
        ("text"@, "text"@)
    }
}

/// The names of the type with an OID.
pub fn oid_to_type_names(oid: i32) -> (r: (String, String))
    ensures
        (r.0@, r.1@) == type_names(oid),
{
    if oid == 23 {
        ("integer".to_owned(), "int4".to_owned())
    } else if oid == 20 {
        ("bigint".to_owned(), "int8".to_owned())
    } else if oid == 16 {
        ("boolean".to_owned(), "bool".to_owned())
    } else if oid == 1043 {
        ("character varying".to_owned(), "varchar".to_owned())
    } else {
        ("text".to_owned(), "text".to_owned())
    }
}

/// Either name of a type leads back to the OID that a declared type was given.
pub proof fn type_names_lead_back(declared: Seq<char>)
    ensures
        type_oid(type_names(type_oid(declared)).0) == type_oid(declared),
        type_oid(type_names(type_oid(declared)).1) == type_oid(declared),
{
    reveal_strlit("int");
    reveal_strlit("integer");
    reveal_strlit("int4");
    reveal_strlit("bigint");
    reveal_strlit("int8");
    reveal_strlit("bool");
    reveal_strlit("boolean");
    reveal_strlit("varchar");
    reveal_strlit("character varying");
    reveal_strlit("text");
    assert("bigint"@[0] != "int"@[0]);
    assert("int8"@[3] != "int4"@[3]);
    assert("boolean"@[0] != "int"@[0]);
    assert("boolean"@[1] != "bigint"@[1]);
    assert("bool"@[0] == 'b' && "int4"@[0] == 'i' && "int8"@[0] == 'i');
    assert("integer"@[0] == 'i' && "boolean"@[0] == 'b');
    assert("character varying"@[0] == 'c');
    assert("varchar"@[0] == 'v');
    assert("text"@[0] == 't');
    assert("varchar"@.take("varchar"@.len() as int) =~= "varchar"@);
    assert("character varying"@.take("character varying"@.len() as int) =~= "character varying"@);
    assert("text"@.len() < "varchar"@.len());
    assert("int8"@[3] == '8' && "int4"@[3] == '4');
    assert("int"@.len() == 3 && "int8"@.len() == 4 && "integer"@.len() == 7);
    assert(type_oid("int4"@) == 23);
    assert(type_oid("int8"@) == 20);
    assert(type_oid("bool"@) == 16);
    assert(type_oid("varchar"@) == 1043);
    assert(type_oid("text"@) == 25);
}

/// How a column of a type is stored: its length, whether it is passed by value, its alignment
/// and its storage.
pub struct Storage {
    pub length: i32,
    pub by_value: bool,
    pub align: &'static str,
    pub storage: &'static str,
}

/// How a column of the type with an OID is stored; types that are not known are of variable
/// length.
pub open spec fn type_storage(oid: i32) -> (i32, bool, Seq<char>, Seq<char>) {
    if oid == 16 || oid == 18 {
        (1i32, true, "c"@, "p"@)
    } else if oid == 21 {
        (2i32, true, "s"@, "p"@)
    } else if oid == 23 || oid == 26 || oid == 700 || oid == 1082 {
        (4i32, true, "i"@, "p"@)
    } else if oid == 20 || oid == 701 || oid == 1114 || oid == 1184 {
        (8i32, true, "d"@, "p"@)
    } else if oid == 1700 {
        (-1i32, false, "i"@, "m"@)
    } else {
        (-1i32, false, "i"@, "x"@)
    }
}

pub fn column_type_storage(type_oid: i32) -> (r: Storage)
    ensures
        (r.length, r.by_value, r.align@, r.storage@) == type_storage(type_oid),
{
    if type_oid == 16 || type_oid == 18 {
        Storage { length: 1, by_value: true, align: "c", storage: "p" }
    } else if type_oid == 21 {
        Storage { length: 2, by_value: true, align: "s", storage: "p" }
    } else if type_oid == 23 || type_oid == 26 || type_oid == 700 || type_oid == 1082 {
        Storage { length: 4, by_value: true, align: "i", storage: "p" }
    } else if type_oid == 20 || type_oid == 701 || type_oid == 1114 || type_oid == 1184 {
        Storage { length: 8, by_value: true, align: "d", storage: "p" }
    } else if type_oid == 1700 {
        Storage { length: -1, by_value: false, align: "i", storage: "m" }
    } else {
        Storage { length: -1, by_value: false, align: "i", storage: "x" }
    }
}

/// The collation of a column of the type with an OID: the default one for texts, none for
/// other types.
pub open spec fn type_collation(oid: i32) -> i32 {
    if oid == 25 || oid == 1042 || oid == 1043 {
        100
    } else {
        0
    }
}

pub fn column_collation(type_oid: i32) -> (r: i32)
    ensures
        r == type_collation(type_oid),
{
    if type_oid == 25 || type_oid == 1042 || type_oid == 1043 {
        100
    } else {
        0
    }
}

/// Every declared type has its own OID: 23 for the names of `int4`, 20 for those of `int8`, 16 for
/// those of `bool`, 1043 for `varchar` with or without a length, and 25, that of `text`, for any
/// other.
pub proof fn types_have_their_oids(declared: Seq<char>)
    ensures
        declared == "int"@ || declared == "integer"@ || declared == "int4"@ <==> type_oid(declared)
            == 23,
        declared == "bigint"@ || declared == "int8"@ <==> type_oid(declared) == 20,
        declared == "bool"@ || declared == "boolean"@ <==> type_oid(declared) == 16,
        starts_with(declared, "varchar"@) || starts_with(declared, "character varying"@)
            <==> type_oid(declared) == 1043,
        declared == "text"@ ==> type_oid(declared) == 25,
        type_oid(declared) == 23 || type_oid(declared) == 20 || type_oid(declared) == 16
            || type_oid(declared) == 1043 || type_oid(declared) == 25,
{
    reveal_strlit("int");
    reveal_strlit("integer");
    reveal_strlit("int4");
    reveal_strlit("bigint");
    reveal_strlit("int8");
    reveal_strlit("bool");
    reveal_strlit("boolean");
    reveal_strlit("varchar");
    reveal_strlit("character varying");
    reveal_strlit("text");
    assert("int"@.len() == 3 && "integer"@.len() == 7 && "int4"@.len() == 4);
    assert("bigint"@.len() == 6 && "int8"@.len() == 4);
    assert("bool"@.len() == 4 && "boolean"@.len() == 7);
    assert("varchar"@.len() == 7 && "character varying"@.len() == 17 && "text"@.len() == 4);
    assert("int4"@[3] == '4' && "int8"@[3] == '8');
    assert("int"@[0] == 'i' && "integer"@[0] == 'i' && "int4"@[0] == 'i' && "int8"@[0] == 'i');
    assert("bigint"@[0] == 'b' && "bool"@[0] == 'b' && "boolean"@[0] == 'b');
    assert("text"@[0] == 't' && "varchar"@[0] == 'v' && "character varying"@[0] == 'c');
    if starts_with(declared, "varchar"@) {
        assert(declared.take(7)[0] == 'v');
        assert(declared[0] == 'v');
    }
    if starts_with(declared, "character varying"@) {
        assert(declared.take(17)[0] == 'c');
        assert(declared[0] == 'c');
    }
}

/// The names of a type are those of its OID.
pub proof fn types_have_their_names()
    ensures
        type_names(23) == ("integer"@, "int4"@),
        type_names(20) == ("bigint"@, "int8"@),
        type_names(16) == ("boolean"@, "bool"@),
        type_names(1043) == ("character varying"@, "varchar"@),
        type_names(25) == ("text"@, "text"@),
{
}

} // verus!
