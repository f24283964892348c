//! The databases the statements are written for, and what their driver
//! calls the column types.

use vstd::prelude::*;
use crate::value::Kind;

verus! {

/// `<i8 as sqlx::Type<sqlx::Sqlite>>::type_info()` and `sqlx::TypeInfo::name`:
/// the SQLite driver gives an `i8` the type `INTEGER`.
#[verifier::external_body]
fn sqlite_i8() -> (name: String)
    ensures
        name@ == "INTEGER"@,
{
    sqlx::TypeInfo::name(&<i8 as sqlx::Type<sqlx::Sqlite>>::type_info()).to_string()
}

/// `<i16 as sqlx::Type<sqlx::Sqlite>>::type_info()` and `sqlx::TypeInfo::name`:
/// the SQLite driver gives an `i16` the type `INTEGER`.
#[verifier::external_body]
fn sqlite_i16() -> (name: String)
    ensures
        name@ == "INTEGER"@,
{
    sqlx::TypeInfo::name(&<i16 as sqlx::Type<sqlx::Sqlite>>::type_info()).to_string()
}

/// `<i32 as sqlx::Type<sqlx::Sqlite>>::type_info()` and `sqlx::TypeInfo::name`:
/// the SQLite driver gives an `i32` the type `INTEGER`.
#[verifier::external_body]
fn sqlite_i32() -> (name: String)
    ensures
        name@ == "INTEGER"@,
{
    sqlx::TypeInfo::name(&<i32 as sqlx::Type<sqlx::Sqlite>>::type_info()).to_string()
}

/// `<i64 as sqlx::Type<sqlx::Sqlite>>::type_info()` and `sqlx::TypeInfo::name`:
/// the SQLite driver gives an `i64` the type `INTEGER`.
#[verifier::external_body]
fn sqlite_i64() -> (name: String)
    ensures
        name@ == "INTEGER"@,
{
    sqlx::TypeInfo::name(&<i64 as sqlx::Type<sqlx::Sqlite>>::type_info()).to_string()
}

/// `<u8 as sqlx::Type<sqlx::Sqlite>>::type_info()` and `sqlx::TypeInfo::name`:
/// the SQLite driver gives a `u8` the type `INTEGER`.
#[verifier::external_body]
fn sqlite_u8() -> (name: String)
    ensures
        name@ == "INTEGER"@,
{
    sqlx::TypeInfo::name(&<u8 as sqlx::Type<sqlx::Sqlite>>::type_info()).to_string()
}

/// `<u16 as sqlx::Type<sqlx::Sqlite>>::type_info()` and `sqlx::TypeInfo::name`:
/// the SQLite driver gives a `u16` the type `INTEGER`.
#[verifier::external_body]
fn sqlite_u16() -> (name: String)
    ensures
        name@ == "INTEGER"@,
{
    sqlx::TypeInfo::name(&<u16 as sqlx::Type<sqlx::Sqlite>>::type_info()).to_string()
}

/// `<u32 as sqlx::Type<sqlx::Sqlite>>::type_info()` and `sqlx::TypeInfo::name`:
/// the SQLite driver gives a `u32` the type `INTEGER`.
#[verifier::external_body]
fn sqlite_u32() -> (name: String)
    ensures
        name@ == "INTEGER"@,
{
    sqlx::TypeInfo::name(&<u32 as sqlx::Type<sqlx::Sqlite>>::type_info()).to_string()
}

/// `<bool as sqlx::Type<sqlx::Sqlite>>::type_info()` and `sqlx::TypeInfo::name`:
/// the SQLite driver gives a `bool` the type `BOOLEAN`.
#[verifier::external_body]
fn sqlite_bool() -> (name: String)
    ensures
        name@ == "BOOLEAN"@,
{
    sqlx::TypeInfo::name(&<bool as sqlx::Type<sqlx::Sqlite>>::type_info()).to_string()
}

/// `<String as sqlx::Type<sqlx::Sqlite>>::type_info()` and `sqlx::TypeInfo::name`:
/// the SQLite driver gives a `String` the type `TEXT`.
#[verifier::external_body]
fn sqlite_string() -> (name: String)
    ensures
        name@ == "TEXT"@,
{
    sqlx::TypeInfo::name(&<String as sqlx::Type<sqlx::Sqlite>>::type_info()).to_string()
}

/// `<i8 as sqlx::Type<sqlx::MySql>>::type_info()` and `sqlx::TypeInfo::name`:
/// the MySQL driver gives an `i8` the type `TINYINT`.
#[verifier::external_body]
fn mysql_i8() -> (name: String)
    ensures
        name@ == "TINYINT"@,
{
    sqlx::TypeInfo::name(&<i8 as sqlx::Type<sqlx::MySql>>::type_info()).to_string()
}

/// `<i16 as sqlx::Type<sqlx::MySql>>::type_info()` and `sqlx::TypeInfo::name`:
/// the MySQL driver gives an `i16` the type `SMALLINT`.
#[verifier::external_body]
fn mysql_i16() -> (name: String)
    ensures
        name@ == "SMALLINT"@,
{
    sqlx::TypeInfo::name(&<i16 as sqlx::Type<sqlx::MySql>>::type_info()).to_string()
}

/// `<i32 as sqlx::Type<sqlx::MySql>>::type_info()` and `sqlx::TypeInfo::name`:
/// the MySQL driver gives an `i32` the type `INT`.
#[verifier::external_body]
fn mysql_i32() -> (name: String)
    ensures
        name@ == "INT"@,
{
    sqlx::TypeInfo::name(&<i32 as sqlx::Type<sqlx::MySql>>::type_info()).to_string()
}

/// `<i64 as sqlx::Type<sqlx::MySql>>::type_info()` and `sqlx::TypeInfo::name`:
/// the MySQL driver gives an `i64` the type `BIGINT`.
#[verifier::external_body]
fn mysql_i64() -> (name: String)
    ensures
        name@ == "BIGINT"@,
{
    sqlx::TypeInfo::name(&<i64 as sqlx::Type<sqlx::MySql>>::type_info()).to_string()
}

/// `<u8 as sqlx::Type<sqlx::MySql>>::type_info()` and `sqlx::TypeInfo::name`:
/// the MySQL driver gives a `u8` the type `TINYINT UNSIGNED`.
#[verifier::external_body]
fn mysql_u8() -> (name: String)
    ensures
        name@ == "TINYINT UNSIGNED"@,
{
    sqlx::TypeInfo::name(&<u8 as sqlx::Type<sqlx::MySql>>::type_info()).to_string()
}

/// `<u16 as sqlx::Type<sqlx::MySql>>::type_info()` and `sqlx::TypeInfo::name`:
/// the MySQL driver gives a `u16` the type `SMALLINT UNSIGNED`.
#[verifier::external_body]
fn mysql_u16() -> (name: String)
    ensures
        name@ == "SMALLINT UNSIGNED"@,
{
    sqlx::TypeInfo::name(&<u16 as sqlx::Type<sqlx::MySql>>::type_info()).to_string()
}

/// `<u32 as sqlx::Type<sqlx::MySql>>::type_info()` and `sqlx::TypeInfo::name`:
/// the MySQL driver gives a `u32` the type `INT UNSIGNED`.
#[verifier::external_body]
fn mysql_u32() -> (name: String)
    ensures
        name@ == "INT UNSIGNED"@,
{
    sqlx::TypeInfo::name(&<u32 as sqlx::Type<sqlx::MySql>>::type_info()).to_string()
}

/// `<bool as sqlx::Type<sqlx::MySql>>::type_info()` and `sqlx::TypeInfo::name`:
/// the MySQL driver gives a `bool` the type `BOOLEAN`.
#[verifier::external_body]
fn mysql_bool() -> (name: String)
    ensures
        name@ == "BOOLEAN"@,
{
    sqlx::TypeInfo::name(&<bool as sqlx::Type<sqlx::MySql>>::type_info()).to_string()
}

/// `<String as sqlx::Type<sqlx::MySql>>::type_info()` and `sqlx::TypeInfo::name`:
/// the MySQL driver gives a `String` the type `VARCHAR`.
#[verifier::external_body]
fn mysql_string() -> (name: String)
    ensures
        name@ == "VARCHAR"@,
{
    sqlx::TypeInfo::name(&<String as sqlx::Type<sqlx::MySql>>::type_info()).to_string()
}

/// `<i8 as sqlx::Type<sqlx::Postgres>>::type_info()` and `sqlx::TypeInfo::name`:
/// the PostgreSQL driver gives an `i8` the type `"CHAR"`.
#[verifier::external_body]
fn postgres_i8() -> (name: String)
    ensures
        name@ == "\"CHAR\""@,
{
    sqlx::TypeInfo::name(&<i8 as sqlx::Type<sqlx::Postgres>>::type_info()).to_string()
}

/// `<i16 as sqlx::Type<sqlx::Postgres>>::type_info()` and `sqlx::TypeInfo::name`:
/// the PostgreSQL driver gives an `i16` the type `INT2`.
#[verifier::external_body]
fn postgres_i16() -> (name: String)
    ensures
        name@ == "INT2"@,
{
    sqlx::TypeInfo::name(&<i16 as sqlx::Type<sqlx::Postgres>>::type_info()).to_string()
}

/// `<i32 as sqlx::Type<sqlx::Postgres>>::type_info()` and `sqlx::TypeInfo::name`:
/// the PostgreSQL driver gives an `i32` the type `INT4`.
#[verifier::external_body]
fn postgres_i32() -> (name: String)
    ensures
        name@ == "INT4"@,
{
    sqlx::TypeInfo::name(&<i32 as sqlx::Type<sqlx::Postgres>>::type_info()).to_string()
}

/// `<i64 as sqlx::Type<sqlx::Postgres>>::type_info()` and `sqlx::TypeInfo::name`:
/// the PostgreSQL driver gives an `i64` the type `INT8`.
#[verifier::external_body]
fn postgres_i64() -> (name: String)
    ensures
        name@ == "INT8"@,
{
    sqlx::TypeInfo::name(&<i64 as sqlx::Type<sqlx::Postgres>>::type_info()).to_string()
}

/// `<bool as sqlx::Type<sqlx::Postgres>>::type_info()` and `sqlx::TypeInfo::name`:
/// the PostgreSQL driver gives a `bool` the type `BOOL`.
#[verifier::external_body]
fn postgres_bool() -> (name: String)
    ensures
        name@ == "BOOL"@,
{
    sqlx::TypeInfo::name(&<bool as sqlx::Type<sqlx::Postgres>>::type_info()).to_string()
}

/// `<String as sqlx::Type<sqlx::Postgres>>::type_info()` and `sqlx::TypeInfo::name`:
/// the PostgreSQL driver gives a `String` the type `TEXT`.
#[verifier::external_body]
fn postgres_string() -> (name: String)
    ensures
        name@ == "TEXT"@,
{
    sqlx::TypeInfo::name(&<String as sqlx::Type<sqlx::Postgres>>::type_info()).to_string()
}

/// A database that components can be stored in.
#[derive(Debug, Clone, Copy, PartialEq, Eq, Structural)]
pub enum Database {
    Sqlite,
    MySql,
    Postgres,
}

/// The name a database's driver gives to the column type of a kind, where
/// it has one; the empty text where it has none.
pub open spec fn sql_type(database: Database, kind: Kind) -> Seq<char> {
    match database {
        Database::Sqlite => match kind {
            Kind::I8 => "INTEGER"@,
            Kind::I16 => "INTEGER"@,
            Kind::I32 => "INTEGER"@,
            Kind::I64 => "INTEGER"@,
            Kind::U8 => "INTEGER"@,
            Kind::U16 => "INTEGER"@,
            Kind::U32 => "INTEGER"@,
            Kind::Bool => "BOOLEAN"@,
            Kind::Text => "TEXT"@,
            Kind::Other => Seq::empty(),
        },
        Database::MySql => match kind {
            Kind::I8 => "TINYINT"@,
            Kind::I16 => "SMALLINT"@,
            Kind::I32 => "INT"@,
            Kind::I64 => "BIGINT"@,
            Kind::U8 => "TINYINT UNSIGNED"@,
            Kind::U16 => "SMALLINT UNSIGNED"@,
            Kind::U32 => "INT UNSIGNED"@,
            Kind::Bool => "BOOLEAN"@,
            Kind::Text => "VARCHAR"@,
            Kind::Other => Seq::empty(),
        },
        Database::Postgres => match kind {
            Kind::I8 => "\"CHAR\""@,
            Kind::I16 => "INT2"@,
            Kind::I32 => "INT4"@,
            Kind::I64 => "INT8"@,
            Kind::U8 => Seq::empty(),
            Kind::U16 => Seq::empty(),
            Kind::U32 => Seq::empty(),
            Kind::Bool => "BOOL"@,
            Kind::Text => "TEXT"@,
            Kind::Other => Seq::empty(),
        },
    }
}

impl Database {
    /// Whether the database's driver has a column type for the kind:
    /// none has one for the kind of the other types, and that of
    /// PostgreSQL has none for the unsigned integers.
    pub open spec fn spec_stores(self, kind: Kind) -> bool {
        &&& !(kind is Other)
        &&& self is Postgres ==> !(kind is U8 || kind is U16 || kind is U32)
    }

    /// Whether the database's driver has a column type for the kind.
    #[verifier::when_used_as_spec(spec_stores)]
    pub fn stores(self, kind: Kind) -> (stores: bool)
        ensures
            stores == self.spec_stores(kind),
    {
        match kind {
            Kind::Other => false,
            Kind::U8 | Kind::U16 | Kind::U32 => match self {
                Database::Postgres => false,
                _ => true,
            },
            _ => true,
        }
    }

    /// The character that starts a numbered parameter in this database's
    /// statements.
    pub open spec fn spec_placeholder(self) -> char {
        match self {
            Database::Postgres => '$',
            _ => '?',
        }
    }

    /// The character that starts a numbered parameter in this database's
    /// statements.
    #[verifier::when_used_as_spec(spec_placeholder)]
    pub fn placeholder(self) -> (character: char)
        ensures
            character == self.spec_placeholder(),
    {
        match self {
            Database::Postgres => '$',
            _ => '?',
        }
    }

    /// The database's name as the driver spells it.
    pub fn name(self) -> (name: String)
        ensures
            name@ == match self {
                Database::Sqlite => "Sqlite"@,
                Database::MySql => "MySql"@,
                Database::Postgres => "Postgres"@,
            },
    {
        match self {
            Database::Sqlite => String::from_str("Sqlite"),
            Database::MySql => String::from_str("MySql"),
            Database::Postgres => String::from_str("Postgres"),
        }
    }
}

/// The driver's description of a column's type.
#[derive(Debug, Clone, Copy, PartialEq, Eq, Structural)]
pub struct TypeInfo {
    pub database: Database,
    pub kind: Kind,
}

impl TypeInfo {
    /// The name the driver gives to the type.
    pub fn name(&self) -> (name: String)
        requires
            self.database.stores(self.kind),
        ensures
            name@ == sql_type(self.database, self.kind),
    {
        match self.database {
            Database::Sqlite => match self.kind {
                Kind::I8 => sqlite_i8(),
                Kind::I16 => sqlite_i16(),
                Kind::I32 => sqlite_i32(),
                Kind::I64 => sqlite_i64(),
                Kind::U8 => sqlite_u8(),
                Kind::U16 => sqlite_u16(),
                Kind::U32 => sqlite_u32(),
                Kind::Bool => sqlite_bool(),
                Kind::Text => sqlite_string(),
                Kind::Other => vstd::pervasive::unreached(),
            },
            Database::MySql => match self.kind {
                Kind::I8 => mysql_i8(),
                Kind::I16 => mysql_i16(),
                Kind::I32 => mysql_i32(),
                Kind::I64 => mysql_i64(),
                Kind::U8 => mysql_u8(),
                Kind::U16 => mysql_u16(),
                Kind::U32 => mysql_u32(),
                Kind::Bool => mysql_bool(),
                Kind::Text => mysql_string(),
                Kind::Other => vstd::pervasive::unreached(),
            },
            Database::Postgres => match self.kind {
                Kind::I8 => postgres_i8(),
                Kind::I16 => postgres_i16(),
                Kind::I32 => postgres_i32(),
                Kind::I64 => postgres_i64(),
                Kind::Bool => postgres_bool(),
                Kind::Text => postgres_string(),
                _ => vstd::pervasive::unreached(),
            },
        }
    }
}

} // verus!
