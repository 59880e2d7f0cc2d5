//! Backends and their dialects: for each backend a table from the raw column
//! type name, exactly as the backend reports it, to the rule by which such a
//! column is decoded.

use vstd::prelude::*;
use crate::name_map::{distinct_keys, inserted, lemma_inserted, lookup, NameMap};
use crate::value::ValueKind;

verus! {

/// One of the supported relational backends.
#[derive(Debug, Clone, Copy, PartialEq, Eq, Structural)]
pub enum Backend {
    /// The embedded, file-resident store.
    Sqlite,
    MySql,
    Postgres,
}

impl Backend {
    /// The backend's name as it appears in error reports.
    pub open spec fn name_spec(self) -> Seq<char> {
        match self {
            Backend::Sqlite => "Sqlite"@,
            Backend::MySql => "MySql"@,
            Backend::Postgres => "Postgres"@,
        }
    }

    /// The backend's name as it appears in error reports.
    pub fn name(self) -> (name: &'static str)
        ensures
            name@ == self.name_spec(),
    {
        match self {
            Backend::Sqlite => "Sqlite",
            Backend::MySql => "MySql",
            Backend::Postgres => "Postgres",
        }
    }
}

/// The width of a signed integer read.
#[derive(Debug, Clone, Copy, PartialEq, Eq, Structural)]
pub enum IntWidth {
    W8,
    W16,
    W32,
    W64,
}

/// How a column of some type is decoded.
#[derive(Debug, Clone, Copy, PartialEq, Eq, Structural)]
pub enum DecodeRule {
    /// Read as text.
    StringDirect,
    /// Read the payload and give it as base64 text.
    BytesBase64,
    /// Read the backend's own boolean.
    BoolDirect,
    /// Read an 8-bit integer, 0 or 1; failing that, a text that says
    /// "true" or "false" in any case.
    BoolFromIntOrSymbol,
    /// Read a signed integer at 64, 32, 16, then 8 bits; the first read that
    /// succeeds gives the value.
    IntegerCascade,
    /// A column of a floating-point or decimal type, read by the integer
    /// cascade: a fraction is cut off.
    NumericAsInteger,
    /// Read a signed integer at one width.
    IntegerFixed(IntWidth),
}

impl DecodeRule {
    /// The kind of value that the rule yields for a column that is not null.
    pub open spec fn kind_spec(self) -> ValueKind {
        match self {
            DecodeRule::StringDirect => ValueKind::Text,
            DecodeRule::BytesBase64 => ValueKind::Bytes,
            DecodeRule::BoolDirect => ValueKind::Bool,
            DecodeRule::BoolFromIntOrSymbol => ValueKind::Bool,
            DecodeRule::IntegerCascade => ValueKind::Integer,
            DecodeRule::NumericAsInteger => ValueKind::Integer,
            DecodeRule::IntegerFixed(_) => ValueKind::Integer,
        }
    }

    /// The kind of value that the rule yields for a column that is not null.
    pub fn kind(self) -> (kind: ValueKind)
        ensures
            kind == self.kind_spec(),
    {
        match self {
            DecodeRule::StringDirect => ValueKind::Text,
            DecodeRule::BytesBase64 => ValueKind::Bytes,
            DecodeRule::BoolDirect => ValueKind::Bool,
            DecodeRule::BoolFromIntOrSymbol => ValueKind::Bool,
            DecodeRule::IntegerCascade => ValueKind::Integer,
            DecodeRule::NumericAsInteger => ValueKind::Integer,
            DecodeRule::IntegerFixed(_) => ValueKind::Integer,
        }
    }
}

/// A type table: type names with their rules, no name twice.
pub type TypeTable = Seq<(Seq<char>, DecodeRule)>;

/// The table that a list of entries makes: an entry whose name the list
/// holds again further on gives way to the later one.
pub open spec fn table_of(entries: Seq<(Seq<char>, DecodeRule)>) -> TypeTable
    decreases entries.len(),
{
    if entries.len() == 0 {
        Seq::empty()
    } else {
        inserted(table_of(entries.drop_last()), entries.last().0, entries.last().1)
    }
}

/// No name occurs twice in a table made of entries.
pub proof fn lemma_table_of_distinct(entries: Seq<(Seq<char>, DecodeRule)>)
    ensures
        distinct_keys(table_of(entries)),
    decreases entries.len(),
{
    if entries.len() > 0 {
        lemma_table_of_distinct(entries.drop_last());
        lemma_inserted(table_of(entries.drop_last()), entries.last().0, entries.last().1);
    }
}

/// The entries of the embedded file store.
pub open spec fn sqlite_entries() -> Seq<(Seq<char>, DecodeRule)> {
    seq![
        ("TEXT"@, DecodeRule::StringDirect),
        ("STRING"@, DecodeRule::StringDirect),
        ("VARCHAR"@, DecodeRule::StringDirect),
        ("DATETIME"@, DecodeRule::StringDirect),
        ("BLOB"@, DecodeRule::BytesBase64),
        ("INTEGER"@, DecodeRule::IntegerCascade),
        ("INT"@, DecodeRule::IntegerCascade),
        ("BOOL"@, DecodeRule::BoolFromIntOrSymbol),
        ("BOOLEAN"@, DecodeRule::BoolFromIntOrSymbol),
        ("REAL"@, DecodeRule::NumericAsInteger),
        ("FLOAT"@, DecodeRule::NumericAsInteger),
        ("DOUBLE"@, DecodeRule::NumericAsInteger),
        ("NUMERIC"@, DecodeRule::NumericAsInteger),
    ]
}

/// The entries of the MySQL server backend.
pub open spec fn mysql_entries() -> Seq<(Seq<char>, DecodeRule)> {
    seq![
        ("TIMESTAMP"@, DecodeRule::StringDirect),
        ("DATE"@, DecodeRule::StringDirect),
        ("TIME"@, DecodeRule::StringDirect),
        ("DATETIME"@, DecodeRule::StringDirect),
        ("NEWDATE"@, DecodeRule::StringDirect),
        ("VARCHAR"@, DecodeRule::StringDirect),
        ("TEXT"@, DecodeRule::StringDirect),
        ("CHAR"@, DecodeRule::StringDirect),
        ("JSON"@, DecodeRule::StringDirect),
        ("VAR_STRING"@, DecodeRule::StringDirect),
        ("STRING"@, DecodeRule::StringDirect),
        ("TINY_BLOB"@, DecodeRule::BytesBase64),
        ("MEDIUM_BLOB"@, DecodeRule::BytesBase64),
        ("LONG_BLOB"@, DecodeRule::BytesBase64),
        ("BLOB"@, DecodeRule::BytesBase64),
        ("ENUM"@, DecodeRule::StringDirect),
        ("SET"@, DecodeRule::StringDirect),
        ("GEOMETRY"@, DecodeRule::BytesBase64),
        ("TINY"@, DecodeRule::IntegerFixed(IntWidth::W8)),
        ("TINYINT"@, DecodeRule::IntegerFixed(IntWidth::W8)),
        ("SMALL"@, DecodeRule::IntegerFixed(IntWidth::W16)),
        ("SMALLINT"@, DecodeRule::IntegerFixed(IntWidth::W16)),
        ("MEDIUM"@, DecodeRule::IntegerFixed(IntWidth::W32)),
        ("MEDIUMINT"@, DecodeRule::IntegerFixed(IntWidth::W32)),
        ("INT"@, DecodeRule::IntegerFixed(IntWidth::W32)),
        ("BIGINT"@, DecodeRule::IntegerFixed(IntWidth::W64)),
        ("REAL"@, DecodeRule::NumericAsInteger),
        ("YEAR"@, DecodeRule::IntegerFixed(IntWidth::W16)),
        ("FLOAT"@, DecodeRule::NumericAsInteger),
        ("DOUBLE"@, DecodeRule::NumericAsInteger),
        ("BIT"@, DecodeRule::IntegerFixed(IntWidth::W8)),
    ]
}

/// The entries of the PostgreSQL server backend.
pub open spec fn postgres_entries() -> Seq<(Seq<char>, DecodeRule)> {
    seq![
        ("TEXT"@, DecodeRule::StringDirect),
        ("VARCHAR"@, DecodeRule::StringDirect),
        ("NAME"@, DecodeRule::StringDirect),
        ("JSON"@, DecodeRule::StringDirect),
        ("BOOL"@, DecodeRule::BoolDirect),
        ("DATE"@, DecodeRule::StringDirect),
        ("TIME"@, DecodeRule::StringDirect),
        ("TIMESTAMP"@, DecodeRule::StringDirect),
        ("TIMESTAMPTZ"@, DecodeRule::StringDirect),
        ("BYTEA"@, DecodeRule::BytesBase64),
        ("CHAR"@, DecodeRule::IntegerFixed(IntWidth::W8)),
        ("INT2"@, DecodeRule::IntegerFixed(IntWidth::W16)),
        ("SMALLINT"@, DecodeRule::IntegerFixed(IntWidth::W16)),
        ("SMALLSERIAL"@, DecodeRule::IntegerFixed(IntWidth::W16)),
        ("INT4"@, DecodeRule::IntegerFixed(IntWidth::W32)),
        ("INT"@, DecodeRule::IntegerFixed(IntWidth::W32)),
        ("SERIAL"@, DecodeRule::IntegerFixed(IntWidth::W32)),
        ("INT8"@, DecodeRule::IntegerFixed(IntWidth::W64)),
        ("BIGINT"@, DecodeRule::IntegerFixed(IntWidth::W64)),
        ("BIGSERIAL"@, DecodeRule::IntegerFixed(IntWidth::W64)),
        ("FLOAT4"@, DecodeRule::NumericAsInteger),
        ("REAL"@, DecodeRule::NumericAsInteger),
        ("FLOAT8"@, DecodeRule::NumericAsInteger),
        ("DOUBLE PRECISION"@, DecodeRule::NumericAsInteger),
        ("NUMERIC"@, DecodeRule::NumericAsInteger),
    ]
}

/// The models of a list of entries.
pub open spec fn entry_views(entries: Seq<(&'static str, DecodeRule)>) -> Seq<
    (Seq<char>, DecodeRule),
> {
    Seq::new(entries.len(), |i: int| (entries[i].0@, entries[i].1))
}

/// Makes a table of a list of entries.
fn build_table(entries: &Vec<(&'static str, DecodeRule)>) -> (table: NameMap<DecodeRule>)
    ensures
        table@ == table_of(entry_views(entries@)),
        distinct_keys(table@),
{
    let mut table: NameMap<DecodeRule> = NameMap::new();
    let mut i: usize = 0;
    proof {
        assert(entry_views(entries@).take(0) =~= Seq::<(Seq<char>, DecodeRule)>::empty());
    }
    while i < entries.len()
        invariant
            i <= entries@.len(),
            table@ == table_of(entry_views(entries@).take(i as int)),
            distinct_keys(table@),
        decreases entries@.len() - i,
    {
        proof {
            let all = entry_views(entries@);
            assert(all.take(i + 1).drop_last() =~= all.take(i as int));
            assert(all.take(i + 1).last() == all[i as int]);
        }
        table.insert(entries[i].0.to_owned(), entries[i].1);
        i += 1;
    }
    proof {
        assert(entry_views(entries@).take(i as int) =~= entry_views(entries@));
    }
    table
}

/// A backend's dialect: its type table.
#[derive(Debug)]
pub struct Dialect {
    backend: Backend,
    types: NameMap<DecodeRule>,
}

/// Mathematical model of a [`Dialect`].
pub ghost struct DialectView {
    pub backend: Backend,
    pub types: TypeTable,
}

impl DialectView {
    /// The rule for a type name; `None` for a name that the table lacks.
    pub open spec fn rule_for(self, type_tag: Seq<char>) -> Option<DecodeRule> {
        lookup(self.types, type_tag)
    }
}

impl View for Dialect {
    type V = DialectView;

    closed spec fn view(&self) -> DialectView {
        DialectView { backend: self.backend, types: self.types@ }
    }
}

impl Dialect {
    /// The dialect of the embedded file store.
    pub fn sqlite() -> (dialect: Dialect)
        ensures
            dialect@.backend == Backend::Sqlite,
            dialect@.types == table_of(sqlite_entries()),
            distinct_keys(dialect@.types),
    {
        let mut entries: Vec<(&'static str, DecodeRule)> = Vec::new();
        entries.push(("TEXT", DecodeRule::StringDirect));
        entries.push(("STRING", DecodeRule::StringDirect));
        entries.push(("VARCHAR", DecodeRule::StringDirect));
        entries.push(("DATETIME", DecodeRule::StringDirect));
        entries.push(("BLOB", DecodeRule::BytesBase64));
        entries.push(("INTEGER", DecodeRule::IntegerCascade));
        entries.push(("INT", DecodeRule::IntegerCascade));
        entries.push(("BOOL", DecodeRule::BoolFromIntOrSymbol));
        entries.push(("BOOLEAN", DecodeRule::BoolFromIntOrSymbol));
        entries.push(("REAL", DecodeRule::NumericAsInteger));
        entries.push(("FLOAT", DecodeRule::NumericAsInteger));
        entries.push(("DOUBLE", DecodeRule::NumericAsInteger));
        entries.push(("NUMERIC", DecodeRule::NumericAsInteger));
        assert(entry_views(entries@) =~= sqlite_entries());
        Dialect { backend: Backend::Sqlite, types: build_table(&entries) }
    }

    /// The dialect of the MySQL server backend.
    pub fn mysql() -> (dialect: Dialect)
        ensures
            dialect@.backend == Backend::MySql,
            dialect@.types == table_of(mysql_entries()),
            distinct_keys(dialect@.types),
    {
        let mut entries: Vec<(&'static str, DecodeRule)> = Vec::new();
        entries.push(("TIMESTAMP", DecodeRule::StringDirect));
        entries.push(("DATE", DecodeRule::StringDirect));
        entries.push(("TIME", DecodeRule::StringDirect));
        entries.push(("DATETIME", DecodeRule::StringDirect));
        entries.push(("NEWDATE", DecodeRule::StringDirect));
        entries.push(("VARCHAR", DecodeRule::StringDirect));
        entries.push(("TEXT", DecodeRule::StringDirect));
        entries.push(("CHAR", DecodeRule::StringDirect));
        entries.push(("JSON", DecodeRule::StringDirect));
        entries.push(("VAR_STRING", DecodeRule::StringDirect));
        entries.push(("STRING", DecodeRule::StringDirect));
        entries.push(("TINY_BLOB", DecodeRule::BytesBase64));
        entries.push(("MEDIUM_BLOB", DecodeRule::BytesBase64));
        entries.push(("LONG_BLOB", DecodeRule::BytesBase64));
        entries.push(("BLOB", DecodeRule::BytesBase64));
        entries.push(("ENUM", DecodeRule::StringDirect));
        entries.push(("SET", DecodeRule::StringDirect));
        entries.push(("GEOMETRY", DecodeRule::BytesBase64));
        entries.push(("TINY", DecodeRule::IntegerFixed(IntWidth::W8)));
        entries.push(("TINYINT", DecodeRule::IntegerFixed(IntWidth::W8)));
        entries.push(("SMALL", DecodeRule::IntegerFixed(IntWidth::W16)));
        entries.push(("SMALLINT", DecodeRule::IntegerFixed(IntWidth::W16)));
        entries.push(("MEDIUM", DecodeRule::IntegerFixed(IntWidth::W32)));
        entries.push(("MEDIUMINT", DecodeRule::IntegerFixed(IntWidth::W32)));
        entries.push(("INT", DecodeRule::IntegerFixed(IntWidth::W32)));
        entries.push(("BIGINT", DecodeRule::IntegerFixed(IntWidth::W64)));
        entries.push(("REAL", DecodeRule::NumericAsInteger));
        entries.push(("YEAR", DecodeRule::IntegerFixed(IntWidth::W16)));
        entries.push(("FLOAT", DecodeRule::NumericAsInteger));
        entries.push(("DOUBLE", DecodeRule::NumericAsInteger));
        entries.push(("BIT", DecodeRule::IntegerFixed(IntWidth::W8)));
        assert(entry_views(entries@) =~= mysql_entries());
        Dialect { backend: Backend::MySql, types: build_table(&entries) }
    }

    /// The dialect of the PostgreSQL server backend.
    pub fn postgres() -> (dialect: Dialect)
        ensures
            dialect@.backend == Backend::Postgres,
            dialect@.types == table_of(postgres_entries()),
            distinct_keys(dialect@.types),
    {
        let mut entries: Vec<(&'static str, DecodeRule)> = Vec::new();
        entries.push(("TEXT", DecodeRule::StringDirect));
        entries.push(("VARCHAR", DecodeRule::StringDirect));
        entries.push(("NAME", DecodeRule::StringDirect));
        entries.push(("JSON", DecodeRule::StringDirect));
        entries.push(("BOOL", DecodeRule::BoolDirect));
        entries.push(("DATE", DecodeRule::StringDirect));
        entries.push(("TIME", DecodeRule::StringDirect));
        entries.push(("TIMESTAMP", DecodeRule::StringDirect));
        entries.push(("TIMESTAMPTZ", DecodeRule::StringDirect));
        entries.push(("BYTEA", DecodeRule::BytesBase64));
        entries.push(("CHAR", DecodeRule::IntegerFixed(IntWidth::W8)));
        entries.push(("INT2", DecodeRule::IntegerFixed(IntWidth::W16)));
        entries.push(("SMALLINT", DecodeRule::IntegerFixed(IntWidth::W16)));
        entries.push(("SMALLSERIAL", DecodeRule::IntegerFixed(IntWidth::W16)));
        entries.push(("INT4", DecodeRule::IntegerFixed(IntWidth::W32)));
        entries.push(("INT", DecodeRule::IntegerFixed(IntWidth::W32)));
        entries.push(("SERIAL", DecodeRule::IntegerFixed(IntWidth::W32)));
        entries.push(("INT8", DecodeRule::IntegerFixed(IntWidth::W64)));
        entries.push(("BIGINT", DecodeRule::IntegerFixed(IntWidth::W64)));
        entries.push(("BIGSERIAL", DecodeRule::IntegerFixed(IntWidth::W64)));
        entries.push(("FLOAT4", DecodeRule::NumericAsInteger));
        entries.push(("REAL", DecodeRule::NumericAsInteger));
        entries.push(("FLOAT8", DecodeRule::NumericAsInteger));
        entries.push(("DOUBLE PRECISION", DecodeRule::NumericAsInteger));
        entries.push(("NUMERIC", DecodeRule::NumericAsInteger));
        assert(entry_views(entries@) =~= postgres_entries());
        Dialect { backend: Backend::Postgres, types: build_table(&entries) }
    }

    /// The type table that belongs to a backend.
    pub open spec fn types_of(backend: Backend) -> TypeTable {
        match backend {
            Backend::Sqlite => table_of(sqlite_entries()),
            Backend::MySql => table_of(mysql_entries()),
            Backend::Postgres => table_of(postgres_entries()),
        }
    }

    /// The dialect of `backend`.
    pub fn of(backend: Backend) -> (dialect: Dialect)
        ensures
            dialect@.backend == backend,
            dialect@.types == Dialect::types_of(backend),
            distinct_keys(dialect@.types),
    {
        match backend {
            Backend::Sqlite => Dialect::sqlite(),
            Backend::MySql => Dialect::mysql(),
            Backend::Postgres => Dialect::postgres(),
        }
    }

    /// The number of type names in the table.
    pub fn len(&self) -> (n: usize)
        ensures
            n == self@.types.len(),
            distinct_keys(self@.types),
    {
        self.types.len()
    }

    /// The backend whose dialect this is.
    pub fn backend(&self) -> (backend: Backend)
        ensures
            backend == self@.backend,
    {
        self.backend
    }

    /// The rule for a type name, which must match an entry of the table
    /// exactly; `None` for a name that the table lacks.
    pub fn rule_for(&self, type_tag: &str) -> (rule: Option<DecodeRule>)
        ensures
            rule == self@.rule_for(type_tag@),
            distinct_keys(self@.types),
    {
        match self.types.get(type_tag) {
            Some(rule) => Some(*rule),
            None => None,
        }
    }
}

} // verus!
