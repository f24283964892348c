//! What a backend asks of its database, and what it makes of the answer.
//!
//! The functions here write the statements and decode the rows; running a
//! statement is left to the caller. A record that is written takes one
//! statement for each component, and nothing here makes them one
//! transaction: if one of them fails, those before it have run.

use vstd::prelude::*;
use crate::archetype::{Archetype, Data, Record, RemoveError};
use crate::component::{numbered, placeholder, Component};
use crate::condition::Condition;
use crate::cte::{serialize, serialize_one};
use crate::driver::Database;
use crate::entity::{statements, EntityPrefixedQuery, Query, Statement};
use crate::row::{read, DecodeError, DecodeFailure, OffsetRow};
use crate::text::texts;
use crate::value::{cells, Cell, Kind, Value};

verus! {

/// A database and the kind of the entities stored in it.
#[derive(Debug, Clone, Copy, PartialEq, Eq, Structural)]
pub struct Backend {
    pub database: Database,
    pub entity: Kind,
}

/// A fetched row: the entity and the record read after it.
#[derive(Debug)]
pub struct Rowed {
    pub entity: Value,
    pub inner: Record,
}

/// What a [`Rowed`] holds.
pub struct RowedData {
    pub entity: Cell,
    pub inner: Data,
}

impl View for Rowed {
    type V = RowedData;

    open spec fn view(&self) -> RowedData {
        RowedData { entity: self.entity@, inner: self.inner@ }
    }
}

/// What a result of decoding a row holds.
pub open spec fn rowed_view(result: Result<Rowed, DecodeError>) -> Result<
    RowedData,
    DecodeFailure,
> {
    match result {
        Ok(rowed) => Ok(rowed@),
        Err(error) => Err(error@),
    }
}

/// The columns that a condition on an archetype may compare: the entity
/// and the columns that the archetype's table expression yields.
pub open spec fn listed_columns(archetype: Archetype) -> Seq<Seq<char>> {
    seq!["entity"@] + archetype.spec_cte().columns()
}

impl Backend {
    /// The statement that fetches an archetype for one entity. It yields
    /// a row for the entity whatever the tables hold: the entity is taken
    /// from the parameter, and the columns of a component that the entity
    /// lacks are null.
    pub open spec fn spec_get(&self, archetype: Archetype, entity: Cell) -> Statement {
        Statement {
            sql: archetype.spec_cte().fetched(placeholder(self.database.spec_placeholder(), 1)),
            bound: seq![entity],
        }
    }

    /// The statement that fetches an archetype for every entity that
    /// meets a condition.
    pub open spec fn spec_list(&self, archetype: Archetype, condition: Condition) -> Statement {
        Statement {
            sql: archetype.spec_cte().serialized() + condition.clause(
                self.database.spec_placeholder(),
                1,
            ),
            bound: condition.bound(),
        }
    }

    /// What decoding a fetched row gives: the entity from the first cell,
    /// the record from the cells after it. A failure to read the entity
    /// comes before any other.
    pub open spec fn decoded(&self, archetype: Archetype, row: Seq<Cell>) -> Result<
        RowedData,
        DecodeFailure,
    > {
        match read(row, 0, "entity"@, self.entity) {
            Err(failure) => Err(failure),
            Ok(entity) => match archetype.decoded(row, 1) {
                Err(failure) => Err(failure),
                Ok(inner) => Ok(RowedData { entity, inner }),
            },
        }
    }

    /// The statement that creates a component's table unless it exists.
    /// The database has a column type for the entities and for each of
    /// the component's columns.
    pub fn register(&self, component: &Component) -> (sql: String)
        requires
            self.database.stores(self.entity),
            component.stored_in(self.database),
        ensures
            sql@ == component.spec_table_creator(self.database, self.entity),
    {
        component.table_creator(self.database, self.entity)
    }

    /// The statement that fetches an archetype for one entity: the
    /// entity is its only parameter.
    pub fn get(&self, archetype: &Archetype, entity: Value) -> (query: Query)
        requires
            archetype.well_formed(),
        ensures
            query@ == self.spec_get(*archetype, entity@),
    {
        proof {
            crate::archetype::archetype_column_count(*archetype);
        }
        let parameter = numbered(self.database.placeholder(), 1);
        let sql = serialize_one(&archetype.cte(), parameter.as_str());
        let query = Query::new(sql.as_str()).bind(entity);
        query
    }

    /// The statement that fetches an archetype for every entity that
    /// meets a condition: the condition's values are its parameters.
    pub fn list(&self, archetype: &Archetype, condition: &Condition) -> (query: Query)
        requires
            archetype.well_formed(),
            condition.names_only(listed_columns(*archetype)),
        ensures
            query@ == self.spec_list(*archetype, *condition),
    {
        proof {
            crate::archetype::archetype_column_count(*archetype);
        }
        let mut sql = serialize(&archetype.cte());
        let compiled = condition.compile(self.database.placeholder());
        sql.append(compiled.clause.as_str());
        Query { sql, arguments: compiled.arguments }
    }

    /// Tests whether a condition compares only columns that the listing
    /// of an archetype has.
    pub fn lists(&self, archetype: &Archetype, condition: &Condition) -> (named: bool)
        ensures
            named == condition.names_only(listed_columns(*archetype)),
    {
        let mut columns: Vec<String> = Vec::new();
        columns.push(String::from_str("entity"));
        let mut more = archetype.cte().columns();
        proof {
            assert(texts(columns@ + more@) =~= texts(columns@) + texts(more@));
            assert(texts(columns@) =~= seq!["entity"@]);
        }
        columns.append(&mut more);
        condition.names_columns(&columns)
    }

    /// The statements that store a record for an entity, in the order in
    /// which they are to run. The record is a value of the archetype:
    /// [`Archetype::accepts`] tests that.
    pub fn insert(&self, archetype: &Archetype, entity: Value, record: &Record) -> (queries: Vec<
        Query,
    >)
        requires
            archetype.admits(record@),
        ensures
            statements(queries@) == archetype.written(
                record@,
                false,
                self.database.spec_placeholder(),
                entity@,
            ),
    {
        let mut prefixed = EntityPrefixedQuery::new(entity);
        archetype.insert(record, self.database.placeholder(), &mut prefixed);
        let queries = prefixed.into_queries();
        queries
    }

    /// The statements that replace an entity's rows by a record, in the
    /// order in which they are to run. The record is a value of the
    /// archetype: [`Archetype::accepts`] tests that.
    pub fn update(&self, archetype: &Archetype, entity: Value, record: &Record) -> (queries: Vec<
        Query,
    >)
        requires
            archetype.admits(record@),
        ensures
            statements(queries@) == archetype.written(
                record@,
                true,
                self.database.spec_placeholder(),
                entity@,
            ),
    {
        let mut prefixed = EntityPrefixedQuery::new(entity);
        archetype.update(record, self.database.placeholder(), &mut prefixed);
        let queries = prefixed.into_queries();
        queries
    }

    /// The statements that remove an archetype from an entity, in the
    /// order in which they are to run; none, and a failure, if the
    /// archetype cannot be removed.
    pub fn remove(&self, archetype: &Archetype, entity: Value) -> (result: Result<
        Vec<Query>,
        RemoveError,
    >)
        ensures
            result is Ok <==> archetype.removable(),
            result matches Ok(queries) ==> statements(queries@) == archetype.removed(
                self.database.spec_placeholder(),
                entity@,
            ),
    {
        let mut prefixed = EntityPrefixedQuery::new(entity);
        match archetype.remove(self.database.placeholder(), &mut prefixed) {
            Ok(()) => {
                let queries = prefixed.into_queries();
                Ok(queries)
            },
            Err(error) => Err(error),
        }
    }

    /// Decodes a fetched row: the entity first, then the record.
    pub fn decode(&self, archetype: &Archetype, row: Vec<Value>) -> (result: Result<
        Rowed,
        DecodeError,
    >)
        ensures
            rowed_view(result) == self.decoded(*archetype, cells(row@)),
    {
        let mut cursor = OffsetRow::new(row);
        let entity = cursor.try_get("entity", self.entity);
        let inner = archetype.component_deserializer(&mut cursor);
        match entity {
            Err(error) => Err(error),
            Ok(entity) => match inner {
                Err(error) => Err(error),
                Ok(inner) => Ok(Rowed { entity, inner }),
            },
        }
    }
}

} // verus!
