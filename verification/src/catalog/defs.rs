//! What a source of user objects describes.
use vstd::prelude::*;

verus! {

/// A database, as a row of `pg_database`. Fields that are not set get the values that
/// PostgreSQL has by default.
#[derive(Clone, Debug)]
pub struct LazyDatabaseRow {
    pub oid: i32,
    pub datname: String,
    /// The role that owns the database.
    pub datdba: i32,
    pub encoding: Option<i32>,
    /// `c` for the C library, `i` for ICU.
    pub datlocprovider: Option<char>,
    pub datistemplate: Option<bool>,
    pub datallowconn: Option<bool>,
    pub dathasloginevt: Option<bool>,
    /// How many connections there may be; `-1` for any number.
    pub datconnlimit: Option<i32>,
    pub datfrozenxid: Option<String>,
    pub datminmxid: Option<String>,
    pub dattablespace: Option<i32>,
    pub datcollate: Option<String>,
    pub datctype: Option<String>,
    pub datlocale: Option<String>,
    pub daticurules: Option<String>,
    pub datcollversion: Option<String>,
    pub datacl: Option<Vec<String>>,
}

/// A database, as a source describes it.
pub type DatabaseDef = LazyDatabaseRow;

impl LazyDatabaseRow {
    /// Whether nothing is set but the OID, the name and the owner.
    pub open spec fn is_plain(self) -> bool {
        &&& self.encoding is None
        &&& self.datlocprovider is None
        &&& self.datistemplate is None
        &&& self.datallowconn is None
        &&& self.dathasloginevt is None
        &&& self.datconnlimit is None
        &&& self.datfrozenxid is None
        &&& self.datminmxid is None
        &&& self.dattablespace is None
        &&& self.datcollate is None
        &&& self.datctype is None
        &&& self.datlocale is None
        &&& self.daticurules is None
        &&& self.datcollversion is None
        &&& self.datacl is None
    }

    /// A database with nothing set but its OID, its name and its owner.
    pub fn new(oid: i32, datname: &str, datdba: i32) -> (r: LazyDatabaseRow)
        ensures
            r.oid == oid,
            r.datname@ == datname@,
            r.datdba == datdba,
            r.is_plain(),
    {
        LazyDatabaseRow {
            oid,
            datname: datname.to_owned(),
            datdba,
            encoding: None,
            datlocprovider: None,
            datistemplate: None,
            datallowconn: None,
            dathasloginevt: None,
            datconnlimit: None,
            datfrozenxid: None,
            datminmxid: None,
            dattablespace: None,
            datcollate: None,
            datctype: None,
            datlocale: None,
            daticurules: None,
            datcollversion: None,
            datacl: None,
        }
    }
}

/// A setting of `pg_config`; it replaces the built-in setting of its name.
#[derive(Clone, Debug)]
pub struct ConfigSettingDef {
    pub name: String,
    pub setting: String,
}

/// A parameter of `pg_settings`; it replaces the built-in parameter of its name.
#[derive(Clone, Debug)]
pub struct SettingDef {
    pub name: String,
    pub setting: String,
}

/// A schema, as a row of `pg_namespace`.
#[derive(Clone, Debug)]
pub struct SchemaDef {
    pub oid: i32,
    pub name: String,
    /// The role that owns the schema; the default owner if it is not set.
    pub owner_oid: Option<i32>,
}

/// What a [`SchemaDef`] says.
pub struct SchemaView {
    pub oid: i32,
    pub name: Seq<char>,
    pub owner_oid: Option<i32>,
}

impl View for SchemaDef {
    type V = SchemaView;

    open spec fn view(&self) -> SchemaView {
        SchemaView {
            oid: self.oid,
            name: self.name@,
            owner_oid: self.owner_oid,
        }
    }
}

impl SchemaDef {
    /// A schema of the default owner.
    pub fn new(oid: i32, name: &str) -> (r: SchemaDef)
        ensures
            r.oid == oid,
            r.name@ == name@,
            r.owner_oid is None,
    {
        SchemaDef { oid, name: name.to_owned(), owner_oid: None }
    }
}

/// The kinds of relations.
#[derive(Clone, Copy, Debug, PartialEq, Eq, Structural)]
pub enum RelationKind {
    Table,
    View,
    MaterializedView,
}

/// The code of a kind of relation in `pg_class.relkind`.
pub open spec fn relkind_of(kind: RelationKind) -> Seq<char> {
    match kind {
        RelationKind::Table => "r"@,
        RelationKind::View => "v"@,
        RelationKind::MaterializedView => "m"@,
    }
}

/// The name of a kind of relation in `information_schema.tables`.
pub open spec fn table_type_of(kind: RelationKind) -> Seq<char> {
    match kind {
        RelationKind::Table => "BASE TABLE"@,
        RelationKind::View => "VIEW"@,
        RelationKind::MaterializedView => "MATERIALIZED VIEW"@,
    }
}

impl RelationKind {
    pub fn relkind(&self) -> (r: &'static str)
        ensures
            r@ == relkind_of(*self),
    {
        match self {
            RelationKind::Table => "r",
            RelationKind::View => "v",
            RelationKind::MaterializedView => "m",
        }
    }

    pub fn table_type(&self) -> (r: &'static str)
        ensures
            r@ == table_type_of(*self),
    {
        match self {
            RelationKind::Table => "BASE TABLE",
            RelationKind::View => "VIEW",
            RelationKind::MaterializedView => "MATERIALIZED VIEW",
        }
    }
}

/// A relation, as a row of `pg_class`; its row type is a row of `pg_type`.
#[derive(Clone, Debug)]
pub struct RelationDef {
    pub oid: i32,
    /// The OID of the row type.
    pub reltype_oid: i32,
    pub name: String,
    pub kind: RelationKind,
    /// The role that owns the relation, where relations have owners.
    pub owner_oid: Option<i32>,
    pub has_index: bool,
    pub has_rules: bool,
    pub has_triggers: bool,
    pub row_security: bool,
}

/// What a [`RelationDef`] says.
pub struct RelationView {
    pub oid: i32,
    pub reltype_oid: i32,
    pub name: Seq<char>,
    pub kind: RelationKind,
    pub owner_oid: Option<i32>,
    pub has_index: bool,
    pub has_rules: bool,
    pub has_triggers: bool,
    pub row_security: bool,
}

impl View for RelationDef {
    type V = RelationView;

    open spec fn view(&self) -> RelationView {
        RelationView {
            oid: self.oid,
            reltype_oid: self.reltype_oid,
            name: self.name@,
            kind: self.kind,
            owner_oid: self.owner_oid,
            has_index: self.has_index,
            has_rules: self.has_rules,
            has_triggers: self.has_triggers,
            row_security: self.row_security,
        }
    }
}

impl RelationDef {
    /// A table without indexes, rules, triggers and row security.
    pub fn table(oid: i32, reltype_oid: i32, name: &str) -> (r: RelationDef)
        ensures
            r.oid == oid,
            r.reltype_oid == reltype_oid,
            r.name@ == name@,
            r.kind == RelationKind::Table,
            r.owner_oid is None,
            !r.has_index,
            !r.has_rules,
            !r.has_triggers,
            !r.row_security,
    {
        RelationDef {
            oid,
            reltype_oid,
            name: name.to_owned(),
            kind: RelationKind::Table,
            owner_oid: None,
            has_index: false,
            has_rules: false,
            has_triggers: false,
            row_security: false,
        }
    }
}

/// An index, as a row of `pg_index` and one of `pg_class`.
#[derive(Clone, Debug)]
pub struct IndexDef {
    pub index_oid: i32,
    pub index_name: String,
    pub table_oid: i32,
    /// The numbers of the indexed columns, from one on, in the order of the index.
    pub key_attnums: Vec<i32>,
    pub is_unique: bool,
    pub is_primary: bool,
}

/// What an [`IndexDef`] says.
pub struct IndexView {
    pub index_oid: i32,
    pub index_name: Seq<char>,
    pub table_oid: i32,
    pub key_attnums: Seq<i32>,
    pub is_unique: bool,
    pub is_primary: bool,
}

impl View for IndexDef {
    type V = IndexView;

    open spec fn view(&self) -> IndexView {
        IndexView {
            index_oid: self.index_oid,
            index_name: self.index_name@,
            table_oid: self.table_oid,
            key_attnums: self.key_attnums@,
            is_unique: self.is_unique,
            is_primary: self.is_primary,
        }
    }
}

impl IndexDef {
    /// An index that is neither unique nor that of the primary key.
    pub fn new(index_oid: i32, index_name: &str, table_oid: i32, key_attnums: Vec<i32>) -> (r:
        IndexDef)
        ensures
            r.index_oid == index_oid,
            r.index_name@ == index_name@,
            r.table_oid == table_oid,
            r.key_attnums@ == key_attnums@,
            !r.is_unique,
            !r.is_primary,
    {
        IndexDef {
            index_oid,
            index_name: index_name.to_owned(),
            table_oid,
            key_attnums,
            is_unique: false,
            is_primary: false,
        }
    }
}

/// The kinds of constraints.
#[derive(Clone, Copy, Debug, PartialEq, Eq, Structural)]
pub enum ConstraintKind {
    PrimaryKey,
    Unique,
    ForeignKey,
}

/// The code of a kind of constraint in `pg_constraint.contype`.
pub open spec fn contype_of(kind: ConstraintKind) -> Seq<char> {
    match kind {
        ConstraintKind::PrimaryKey => "p"@,
        ConstraintKind::Unique => "u"@,
        ConstraintKind::ForeignKey => "f"@,
    }
}

impl ConstraintKind {
    pub fn contype(&self) -> (r: &'static str)
        ensures
            r@ == contype_of(*self),
    {
        match self {
            ConstraintKind::PrimaryKey => "p",
            ConstraintKind::Unique => "u",
            ConstraintKind::ForeignKey => "f",
        }
    }
}

/// What a foreign key does when the row that it refers to changes.
#[derive(Clone, Copy, Debug, PartialEq, Eq, Structural)]
pub enum ForeignKeyAction {
    NoAction,
    Restrict,
    Cascade,
    SetNull,
    SetDefault,
}

/// The code of an action in `pg_constraint`.
pub open spec fn action_code(action: ForeignKeyAction) -> Seq<char> {
    match action {
        ForeignKeyAction::NoAction => "a"@,
        ForeignKeyAction::Restrict => "r"@,
        ForeignKeyAction::Cascade => "c"@,
        ForeignKeyAction::SetNull => "n"@,
        ForeignKeyAction::SetDefault => "d"@,
    }
}

impl ForeignKeyAction {
    pub fn code(&self) -> (r: &'static str)
        ensures
            r@ == action_code(*self),
    {
        match self {
            ForeignKeyAction::NoAction => "a",
            ForeignKeyAction::Restrict => "r",
            ForeignKeyAction::Cascade => "c",
            ForeignKeyAction::SetNull => "n",
            ForeignKeyAction::SetDefault => "d",
        }
    }
}

/// How a foreign key of several columns is matched.
#[derive(Clone, Copy, Debug, PartialEq, Eq, Structural)]
pub enum ForeignKeyMatch {
    Full,
    Partial,
    Simple,
}

/// The code of a kind of match in `pg_constraint`.
pub open spec fn match_code(kind: ForeignKeyMatch) -> Seq<char> {
    match kind {
        ForeignKeyMatch::Full => "f"@,
        ForeignKeyMatch::Partial => "p"@,
        ForeignKeyMatch::Simple => "s"@,
    }
}

impl ForeignKeyMatch {
    pub fn code(&self) -> (r: &'static str)
        ensures
            r@ == match_code(*self),
    {
        match self {
            ForeignKeyMatch::Full => "f",
            ForeignKeyMatch::Partial => "p",
            ForeignKeyMatch::Simple => "s",
        }
    }
}

/// A constraint, as a row of `pg_constraint`.
#[derive(Clone, Debug)]
pub struct ConstraintDef {
    pub oid: i32,
    pub name: String,
    pub kind: ConstraintKind,
    pub namespace_oid: i32,
    pub table_oid: i32,
    /// The numbers of the constrained columns, from one on, in the order of the key.
    pub key_attnums: Vec<i32>,
    /// The index behind the constraint; zero if there is none.
    pub index_oid: i32,
    /// The table that a foreign key refers to; zero for other constraints.
    pub referenced_table_oid: i32,
    /// The columns that a foreign key refers to, in the order of its own columns; none for
    /// other constraints.
    pub referenced_key_attnums: Vec<i32>,
    pub on_update: ForeignKeyAction,
    pub on_delete: ForeignKeyAction,
    pub match_type: ForeignKeyMatch,
}

/// Why a foreign key cannot be: it has another number of columns than it refers to.
#[derive(Debug)]
pub struct KeyMismatch {
    pub name: String,
    pub columns: usize,
    pub referenced: usize,
}

/// What a [`ConstraintDef`] says.
pub struct ConstraintView {
    pub oid: i32,
    pub name: Seq<char>,
    pub kind: ConstraintKind,
    pub namespace_oid: i32,
    pub table_oid: i32,
    pub key_attnums: Seq<i32>,
    pub index_oid: i32,
    pub referenced_table_oid: i32,
    pub referenced_key_attnums: Seq<i32>,
    pub on_update: ForeignKeyAction,
    pub on_delete: ForeignKeyAction,
    pub match_type: ForeignKeyMatch,
}

impl View for ConstraintDef {
    type V = ConstraintView;

    open spec fn view(&self) -> ConstraintView {
        ConstraintView {
            oid: self.oid,
            name: self.name@,
            kind: self.kind,
            namespace_oid: self.namespace_oid,
            table_oid: self.table_oid,
            key_attnums: self.key_attnums@,
            index_oid: self.index_oid,
            referenced_table_oid: self.referenced_table_oid,
            referenced_key_attnums: self.referenced_key_attnums@,
            on_update: self.on_update,
            on_delete: self.on_delete,
            match_type: self.match_type,
        }
    }
}

impl ConstraintDef {
    /// Whether a constraint refers to nothing.
    pub open spec fn refers_to_nothing(self) -> bool {
        self.referenced_table_oid == 0 && self.referenced_key_attnums@.len() == 0
    }

    /// Whether the actions and the match of a constraint are the default ones.
    pub open spec fn has_default_actions(self) -> bool {
        self.on_update == ForeignKeyAction::NoAction && self.on_delete
            == ForeignKeyAction::NoAction && self.match_type == ForeignKeyMatch::Simple
    }

    /// The primary key of a table.
    pub fn primary_key(
        oid: i32,
        name: &str,
        namespace_oid: i32,
        table_oid: i32,
        key_attnums: Vec<i32>,
        index_oid: i32,
    ) -> (r: ConstraintDef)
        ensures
            r.kind == ConstraintKind::PrimaryKey,
            r.oid == oid,
            r.name@ == name@,
            r.namespace_oid == namespace_oid,
            r.table_oid == table_oid,
            r.key_attnums@ == key_attnums@,
            r.index_oid == index_oid,
            r.refers_to_nothing(),
            r.has_default_actions(),
    {
        ConstraintDef::key_constraint(
            ConstraintKind::PrimaryKey,
            oid,
            name,
            namespace_oid,
            table_oid,
            key_attnums,
            index_oid,
        )
    }

    /// A unique constraint.
    pub fn unique(
        oid: i32,
        name: &str,
        namespace_oid: i32,
        table_oid: i32,
        key_attnums: Vec<i32>,
        index_oid: i32,
    ) -> (r: ConstraintDef)
        ensures
            r.kind == ConstraintKind::Unique,
            r.oid == oid,
            r.name@ == name@,
            r.namespace_oid == namespace_oid,
            r.table_oid == table_oid,
            r.key_attnums@ == key_attnums@,
            r.index_oid == index_oid,
            r.refers_to_nothing(),
            r.has_default_actions(),
    {
        ConstraintDef::key_constraint(
            ConstraintKind::Unique,
            oid,
            name,
            namespace_oid,
            table_oid,
            key_attnums,
            index_oid,
        )
    }

    fn key_constraint(
        kind: ConstraintKind,
        oid: i32,
        name: &str,
        namespace_oid: i32,
        table_oid: i32,
        key_attnums: Vec<i32>,
        index_oid: i32,
    ) -> (r: ConstraintDef)
        ensures
            r.kind == kind,
            r.oid == oid,
            r.name@ == name@,
            r.namespace_oid == namespace_oid,
            r.table_oid == table_oid,
            r.key_attnums@ == key_attnums@,
            r.index_oid == index_oid,
            r.refers_to_nothing(),
            r.has_default_actions(),
    {
        ConstraintDef {
            oid,
            name: name.to_owned(),
            kind,
            namespace_oid,
            table_oid,
            key_attnums,
            index_oid,
            referenced_table_oid: 0,
            referenced_key_attnums: Vec::new(),
            on_update: ForeignKeyAction::NoAction,
            on_delete: ForeignKeyAction::NoAction,
            match_type: ForeignKeyMatch::Simple,
        }
    }

    /// A foreign key with the default actions. Its columns are matched one by one with those
    /// that it refers to, so there have to be as many of both.
    pub fn foreign_key(
        oid: i32,
        name: &str,
        namespace_oid: i32,
        table_oid: i32,
        key_attnums: Vec<i32>,
        referenced_table_oid: i32,
        referenced_key_attnums: Vec<i32>,
        index_oid: i32,
    ) -> (r: Result<ConstraintDef, KeyMismatch>)
        ensures
            r is Ok <==> key_attnums@.len() == referenced_key_attnums@.len(),
            match r {
                Ok(c) => {
                    &&& c.kind == ConstraintKind::ForeignKey
                    &&& c.oid == oid
                    &&& c.name@ == name@
                    &&& c.namespace_oid == namespace_oid
                    &&& c.table_oid == table_oid
                    &&& c.key_attnums@ == key_attnums@
                    &&& c.index_oid == index_oid
                    &&& c.referenced_table_oid == referenced_table_oid
                    &&& c.referenced_key_attnums@ == referenced_key_attnums@
                    &&& c.has_default_actions()
                },
                Err(e) => e.name@ == name@ && e.columns as nat == key_attnums@.len()
                    && e.referenced as nat == referenced_key_attnums@.len(),
            },
    {
        if key_attnums.len() != referenced_key_attnums.len() {
            return Err(
                KeyMismatch {
                    name: name.to_owned(),
                    columns: key_attnums.len(),
                    referenced: referenced_key_attnums.len(),
                },
            );
        }
        Ok(
            ConstraintDef {
                oid,
                name: name.to_owned(),
                kind: ConstraintKind::ForeignKey,
                namespace_oid,
                table_oid,
                key_attnums,
                index_oid,
                referenced_table_oid,
                referenced_key_attnums,
                on_update: ForeignKeyAction::NoAction,
                on_delete: ForeignKeyAction::NoAction,
                match_type: ForeignKeyMatch::Simple,
            },
        )
    }
}

/// A column of a relation, as a row of `pg_attribute`.
#[derive(Clone, Debug)]
pub struct ColumnSpec {
    pub name: String,
    pub type_oid: i32,
    pub nullable: bool,
    /// Whether the column has a default, and with it a row of `pg_attrdef`.
    pub has_default: bool,
}

/// What a [`ColumnSpec`] says.
pub struct ColumnView {
    pub name: Seq<char>,
    pub type_oid: i32,
    pub nullable: bool,
    pub has_default: bool,
}

impl View for ColumnSpec {
    type V = ColumnView;

    open spec fn view(&self) -> ColumnView {
        ColumnView {
            name: self.name@,
            type_oid: self.type_oid,
            nullable: self.nullable,
            has_default: self.has_default,
        }
    }
}

/// What a list of columns says.
pub open spec fn columns_view(v: Seq<ColumnSpec>) -> Seq<ColumnView> {
    Seq::new(v.len(), |i: int| v[i]@)
}

impl ColumnSpec {
    /// A column without a default.
    pub fn new(name: &str, type_oid: i32, nullable: bool) -> (r: ColumnSpec)
        ensures
            r.name@ == name@,
            r.type_oid == type_oid,
            r.nullable == nullable,
            !r.has_default,
    {
        ColumnSpec { name: name.to_owned(), type_oid, nullable, has_default: false }
    }

    /// The same column with a default.
    pub fn with_default(self) -> (r: ColumnSpec)
        ensures
            r.name == self.name,
            r.type_oid == self.type_oid,
            r.nullable == self.nullable,
            r.has_default,
    {
        ColumnSpec {
            name: self.name,
            type_oid: self.type_oid,
            nullable: self.nullable,
            has_default: true,
        }
    }
}

/// The catalog tables that user objects are put into.
#[derive(Clone, Copy, Debug, PartialEq, Eq, Structural)]
pub enum CatalogTable {
    PgDatabase,
    PgNamespace,
    PgClass,
    PgType,
    PgAttribute,
    PgIndex,
    PgConstraint,
    PgAttrdef,
    PgConfig,
    PgSettings,
    InformationSchemaTables,
    InformationSchemaColumns,
    InformationSchemaSchemata,
}

/// The schema of a catalog table, and its name.
pub open spec fn location_of(table: CatalogTable) -> (Seq<char>, Seq<char>) {
    match table {
        CatalogTable::PgDatabase => ("pg_catalog"@, "pg_database"@),
        CatalogTable::PgNamespace => ("pg_catalog"@, "pg_namespace"@),
        CatalogTable::PgClass => ("pg_catalog"@, "pg_class"@),
        CatalogTable::PgType => ("pg_catalog"@, "pg_type"@),
        CatalogTable::PgAttribute => ("pg_catalog"@, "pg_attribute"@),
        CatalogTable::PgIndex => ("pg_catalog"@, "pg_index"@),
        CatalogTable::PgConstraint => ("pg_catalog"@, "pg_constraint"@),
        CatalogTable::PgAttrdef => ("pg_catalog"@, "pg_attrdef"@),
        CatalogTable::PgConfig => ("pg_catalog"@, "pg_config"@),
        CatalogTable::PgSettings => ("pg_catalog"@, "pg_settings"@),
        CatalogTable::InformationSchemaTables => ("information_schema"@, "tables"@),
        CatalogTable::InformationSchemaColumns => ("information_schema"@, "columns"@),
        CatalogTable::InformationSchemaSchemata => ("information_schema"@, "schemata"@),
    }
}

/// The columns that tell the rows of a catalog table apart. A relation, a type or an
/// attribute is known by its name and by what it belongs to, so that one name may stand in
/// two schemas; a schema is known by its OID, so that one name may stand in two databases.
pub open spec fn key_columns_of(table: CatalogTable) -> Seq<Seq<char>> {
    match table {
        CatalogTable::PgDatabase => Seq::empty().push("datname"@),
        CatalogTable::PgNamespace => Seq::empty().push("oid"@),
        CatalogTable::PgClass => Seq::empty().push("relnamespace"@).push("relname"@),
        CatalogTable::PgType => Seq::empty().push("typnamespace"@).push("typname"@),
        CatalogTable::PgAttribute => Seq::empty().push("attrelid"@).push("attname"@),
        CatalogTable::PgIndex => Seq::empty().push("indexrelid"@),
        CatalogTable::PgConstraint => Seq::empty().push("oid"@),
        CatalogTable::PgAttrdef => Seq::empty().push("adrelid"@).push("adnum"@),
        CatalogTable::PgConfig => Seq::empty().push("name"@),
        CatalogTable::PgSettings => Seq::empty().push("name"@),
        CatalogTable::InformationSchemaTables => Seq::empty()
            .push("table_catalog"@)
            .push("table_schema"@)
            .push("table_name"@),
        CatalogTable::InformationSchemaColumns => Seq::empty()
            .push("table_catalog"@)
            .push("table_schema"@)
            .push("table_name"@)
            .push("column_name"@),
        CatalogTable::InformationSchemaSchemata => Seq::empty()
            .push("catalog_name"@)
            .push("schema_name"@),
    }
}

/// What a list of constant texts says.
pub open spec fn str_views(v: Seq<&'static str>) -> Seq<Seq<char>> {
    Seq::new(v.len(), |i: int| v[i]@)
}

impl CatalogTable {
    /// The schema of the table, and its name.
    pub fn location(&self) -> (r: (&'static str, &'static str))
        ensures
            (r.0@, r.1@) == location_of(*self),
    {
        match self {
            CatalogTable::PgDatabase => ("pg_catalog", "pg_database"),
            CatalogTable::PgNamespace => ("pg_catalog", "pg_namespace"),
            CatalogTable::PgClass => ("pg_catalog", "pg_class"),
            CatalogTable::PgType => ("pg_catalog", "pg_type"),
            CatalogTable::PgAttribute => ("pg_catalog", "pg_attribute"),
            CatalogTable::PgIndex => ("pg_catalog", "pg_index"),
            CatalogTable::PgConstraint => ("pg_catalog", "pg_constraint"),
            CatalogTable::PgAttrdef => ("pg_catalog", "pg_attrdef"),
            CatalogTable::PgConfig => ("pg_catalog", "pg_config"),
            CatalogTable::PgSettings => ("pg_catalog", "pg_settings"),
            CatalogTable::InformationSchemaTables => ("information_schema", "tables"),
            CatalogTable::InformationSchemaColumns => ("information_schema", "columns"),
            CatalogTable::InformationSchemaSchemata => ("information_schema", "schemata"),
        }
    }

    /// The columns that tell the rows of the table apart.
    pub fn key_columns(&self) -> (r: Vec<&'static str>)
        ensures
            str_views(r@) == key_columns_of(*self),
    {
        let mut out: Vec<&'static str> = Vec::new();
        match self {
            CatalogTable::PgDatabase => {
                out.push("datname");
            },
            CatalogTable::PgNamespace => {
                out.push("oid");
            },
            CatalogTable::PgClass => {
                out.push("relnamespace");
                out.push("relname");
            },
            CatalogTable::PgType => {
                out.push("typnamespace");
                out.push("typname");
            },
            CatalogTable::PgAttribute => {
                out.push("attrelid");
                out.push("attname");
            },
            CatalogTable::PgIndex => {
                out.push("indexrelid");
            },
            CatalogTable::PgConstraint => {
                out.push("oid");
            },
            CatalogTable::PgAttrdef => {
                out.push("adrelid");
                out.push("adnum");
            },
            CatalogTable::PgConfig => {
                out.push("name");
            },
            CatalogTable::PgSettings => {
                out.push("name");
            },
            CatalogTable::InformationSchemaTables => {
                out.push("table_catalog");
                out.push("table_schema");
                out.push("table_name");
            },
            CatalogTable::InformationSchemaColumns => {
                out.push("table_catalog");
                out.push("table_schema");
                out.push("table_name");
                out.push("column_name");
            },
            CatalogTable::InformationSchemaSchemata => {
                out.push("catalog_name");
                out.push("schema_name");
            },
        }
        assert(str_views(out@) =~= key_columns_of(*self));
        out
    }
}

/// Which catalog tables are to be served from a source.
#[derive(Clone, Debug)]
pub struct LazyCatalogOptions {
    pub tables: Vec<CatalogTable>,
}

/// Every table of `pg_catalog` that can be served from a source. The tables of
/// `information_schema` are views over these.
pub open spec fn all_tables() -> Seq<CatalogTable> {
    seq![
        CatalogTable::PgDatabase,
        CatalogTable::PgNamespace,
        CatalogTable::PgClass,
        CatalogTable::PgType,
        CatalogTable::PgAttribute,
        CatalogTable::PgIndex,
        CatalogTable::PgConstraint,
        CatalogTable::PgAttrdef,
        CatalogTable::PgConfig,
        CatalogTable::PgSettings,
    ]
}

impl LazyCatalogOptions {
    /// Every table of `pg_catalog`.
    pub fn all() -> (r: LazyCatalogOptions)
        ensures
            r.tables@ == all_tables(),
    {
        let tables: Vec<CatalogTable> = vec![
            CatalogTable::PgDatabase,
            CatalogTable::PgNamespace,
            CatalogTable::PgClass,
            CatalogTable::PgType,
            CatalogTable::PgAttribute,
            CatalogTable::PgIndex,
            CatalogTable::PgConstraint,
            CatalogTable::PgAttrdef,
            CatalogTable::PgConfig,
            CatalogTable::PgSettings,
        ];
        assert(tables@ =~= all_tables());
        LazyCatalogOptions { tables }
    }

    /// Just these tables.
    pub fn with_tables(tables: Vec<CatalogTable>) -> (r: LazyCatalogOptions)
        ensures
            r.tables@ == tables@,
    {
        LazyCatalogOptions { tables }
    }
}

impl Default for LazyCatalogOptions {
    fn default() -> (r: LazyCatalogOptions)
        ensures
            r.tables@ == all_tables(),
    {
        LazyCatalogOptions::all()
    }
}

} // verus!
