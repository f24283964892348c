//! Statements that all start with the same entity.

use vstd::prelude::*;
use crate::value::{cells, nulls, Cell, Value};

verus! {

/// A statement and the values bound to its parameters, in order.
#[derive(Debug)]
pub struct Query {
    pub sql: String,
    pub arguments: Vec<Value>,
}

/// What a [`Query`] holds.
pub struct Statement {
    pub sql: Seq<char>,
    pub bound: Seq<Cell>,
}

impl View for Query {
    type V = Statement;

    open spec fn view(&self) -> Statement {
        Statement { sql: self.sql@, bound: cells(self.arguments@) }
    }
}

/// What a sequence of queries holds.
pub open spec fn statements(queries: Seq<Query>) -> Seq<Statement> {
    Seq::new(queries.len(), |i: int| queries[i]@)
}

impl Query {
    /// What the statement's parameters are bound to, in order.
    pub open spec fn bound(&self) -> Seq<Cell> {
        cells(self.arguments@)
    }

    /// A statement with nothing bound yet.
    pub fn new(sql: &str) -> (query: Query)
        ensures
            query.sql@ == sql@,
            query.bound() == Seq::<Cell>::empty(),
    {
        Query { sql: String::from_str(sql), arguments: Vec::new() }
    }

    /// Binds null to the next parameters, as many as asked for.
    pub fn bind_nulls(self, count: usize) -> (query: Query)
        ensures
            query.sql@ == self.sql@,
            query.bound() == self.bound() + nulls(count as nat),
    {
        let mut query = self;
        let mut i: usize = 0;
        assert(query.bound() =~= self.bound() + nulls(0));
        while i < count
            invariant
                i <= count,
                query.sql@ == self.sql@,
                query.bound() == self.bound() + nulls(i as nat),
            decreases count - i,
        {
            query = query.bind(Value::Null);
            assert(query.bound() =~= self.bound() + nulls((i + 1) as nat));
            i += 1;
        }
        query
    }

    /// Binds a value to the next parameter.
    pub fn bind(self, value: Value) -> (query: Query)
        ensures
            query.sql@ == self.sql@,
            query.bound() == self.bound().push(value@),
    {
        let mut query = self;
        query.arguments.push(value);
        query
    }
}

/// The statements written for one entity, in the order they are to run.
/// The entity is the first bound value of each.
pub struct EntityPrefixedQuery {
    entity: Value,
    queries: Vec<Query>,
}

impl EntityPrefixedQuery {
    /// The entity that every statement starts with.
    pub closed spec fn entity(&self) -> Cell {
        self.entity@
    }

    /// The statements written so far.
    pub closed spec fn queries(&self) -> Seq<Statement> {
        statements(self.queries@)
    }

    /// No statement yet, for the given entity.
    pub fn new(entity: Value) -> (prefixed: EntityPrefixedQuery)
        ensures
            prefixed.entity() == entity@,
            prefixed.queries().len() == 0,
    {
        EntityPrefixedQuery { entity, queries: Vec::new() }
    }

    /// Adds a statement: the entity is bound first, then whatever the
    /// binder binds.
    pub fn query<F: FnOnce(Query) -> Query>(&mut self, sql: &str, binder: F)
        requires
            forall|started: Query|
                started.sql@ == sql@ && started.bound() == seq![old(self).entity()]
                    ==> binder.requires((started,)),
        ensures
            final(self).entity() == old(self).entity(),
            final(self).queries().len() == old(self).queries().len() + 1,
            final(self).queries().drop_last() == old(self).queries(),
            exists|started: Query, finished: Query|
                started.sql@ == sql@ && started.bound() == seq![old(self).entity()]
                    && binder.ensures((started,), finished) && final(self).queries().last()
                    == finished@,
    {
        let started = Query::new(sql).bind(self.entity.clone());
        let finished = binder(started);
        self.queries.push(finished);
    }

    /// Hands out the statements, in the order they were added.
    pub fn into_queries(self) -> (queries: Vec<Query>)
        ensures
            statements(queries@) == self.queries(),
    {
        self.queries
    }
}

} // verus!
