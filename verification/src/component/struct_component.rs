//! Components with a flat list of fields.

use vstd::prelude::*;
use crate::component::{
    delete_sql,
    insert_sql,
    update_sql,
    write_statements,
    ColumnDefinition,
    Statements,
};
use crate::cte::{CommonTableExpression, TableExpression};
use crate::driver::{sql_type, Database, TypeInfo};
use crate::entity::{EntityPrefixedQuery, Query, Statement};
use crate::component::attribute::{declared_table, table_name_of};
use crate::component::Implementation;
use crate::declaration::{Body, DeriveInput, ParseError, ParseFailure};
use crate::field::{
    all_stored,
    are_stored,
    declared_fields,
    parse_fields,
    Field,
};
use crate::row::{DecodeError, DecodeFailure, OffsetRow};
use crate::text::{concat, lemma_concat_push, texts, trim_matches, trimmed};
use crate::value::{cells, lemma_cells_push, Cell, Kind, Value};

verus! {

/// A component whose value is a list of fields.
#[derive(Debug)]
pub struct StructComponent {
    pub typename: String,
    pub table_name: String,
    pub fields: Vec<Field>,
}

/// The names of the fields' columns, in order.
pub open spec fn column_names(fields: Seq<Field>) -> Seq<Seq<char>> {
    Seq::new(fields.len(), |i: int| fields[i].spec_column_name())
}

/// The lines that define the fields' columns in a table definition.
pub open spec fn column_lines(fields: Seq<Field>, database: Database) -> Seq<Seq<char>> {
    Seq::new(
        fields.len(),
        |i: int|
            ",\n  "@ + fields[i].spec_column_name() + " "@ + fields[i].spec_sql_definition(
                database,
            ),
    )
}

/// Whether the cells can be the values of the fields, one each.
pub open spec fn admitted(fields: Seq<Field>, value: Seq<Cell>) -> bool {
    &&& value.len() == fields.len()
    &&& forall|i: int| 0 <= i < fields.len() ==> (#[trigger] fields[i]).admits(value[i])
}

/// What reading the first `count` fields from a row gives, the first of
/// them at the given position: their values, or the failure of the first
/// field that fails.
pub open spec fn decoded_fields(fields: Seq<Field>, row: Seq<Cell>, position: nat, count: nat)
    -> Result<Seq<Cell>, DecodeFailure>
    decreases count,
{
    if count == 0 || count > fields.len() {
        Ok(Seq::empty())
    } else {
        match decoded_fields(fields, row, position, (count - 1) as nat) {
            Err(failure) => Err(failure),
            Ok(values) => match fields[count - 1].decoded(row, (position + count - 1) as nat) {
                Err(failure) => Err(failure),
                Ok(cell) => Ok(values.push(cell)),
            },
        }
    }
}

/// What a result of decoding fields holds.
pub open spec fn fields_view(result: Result<Vec<Value>, DecodeError>) -> Result<
    Seq<Cell>,
    DecodeFailure,
> {
    match result {
        Ok(values) => Ok(cells(values@)),
        Err(error) => Err(error@),
    }
}

/// Writes the names of the fields' columns.
pub fn name_columns(fields: &Vec<Field>) -> (names: Vec<String>)
    ensures
        texts(names@) == column_names(fields@),
{
    let mut names: Vec<String> = Vec::new();
    let mut i: usize = 0;
    while i < fields.len()
        invariant
            i <= fields.len(),
            texts(names@) == column_names(fields@).take(i as int),
        decreases fields.len() - i,
    {
        let name = fields[i].column_name();
        proof {
            assert(column_names(fields@).take(i as int).push(name@) =~= column_names(
                fields@,
            ).take(i as int + 1));
        }
        names.push(name);
        i += 1;
    }
    names
}

/// Appends the lines that define the fields' columns.
pub fn append_column_lines(sql: &mut String, fields: &Vec<Field>, database: Database)
    requires
        all_stored(fields@, database),
    ensures
        final(sql)@ == old(sql)@ + concat(column_lines(fields@, database)),
{
    let ghost lines = column_lines(fields@, database);
    let mut i: usize = 0;
    while i < fields.len()
        invariant
            i <= fields.len(),
            all_stored(fields@, database),
            lines == column_lines(fields@, database),
            sql@ == old(sql)@ + concat(lines.take(i as int)),
        decreases fields.len() - i,
    {
        sql.append(",\n  ");
        sql.append(fields[i].column_name().as_str());
        sql.append(" ");
        sql.append(fields[i].sql_definition(database).as_str());
        proof {
            assert(lines.take(i as int + 1) =~= lines.take(i as int).push(lines[i as int]));
            lemma_concat_push(lines.take(i as int), lines[i as int]);
        }
        i += 1;
    }
    proof {
        assert(lines.take(fields.len() as int) =~= lines);
    }
}

/// Reads the fields from consecutive cells of the row. Every field's cell
/// is read, whether an earlier one failed or not.
pub fn read_fields(fields: &Vec<Field>, row: &mut OffsetRow) -> (result: Result<
    Vec<Value>,
    DecodeError,
>)
    ensures
        final(row).cells() == old(row).cells(),
        final(row).position() == old(row).position() + fields@.len(),
        fields_view(result) == decoded_fields(
            fields@,
            old(row).cells(),
            old(row).position(),
            fields@.len(),
        ),
{
    let mut values: Vec<Value> = Vec::new();
    let mut failure: Option<DecodeError> = None;
    let mut i: usize = 0;
    assert(cells(values@) =~= Seq::<Cell>::empty());
    while i < fields.len()
        invariant
            i <= fields.len(),
            row.cells() == old(row).cells(),
            row.position() == old(row).position() + i,
            match failure {
                Some(error) => decoded_fields(
                    fields@,
                    old(row).cells(),
                    old(row).position(),
                    i as nat,
                ) == Err::<Seq<Cell>, DecodeFailure>(error@),
                None => decoded_fields(fields@, old(row).cells(), old(row).position(), i as nat)
                    == Ok::<Seq<Cell>, DecodeFailure>(cells(values@)),
            },
        decreases fields.len() - i,
    {
        let read = fields[i].deserialize(row);
        if failure.is_none() {
            match read {
                Ok(value) => {
                    proof {
                        lemma_cells_push(values@, value);
                    }
                    values.push(value);
                },
                Err(error) => {
                    failure = Some(error);
                },
            }
        }
        i += 1;
    }
    match failure {
        Some(error) => Err(error),
        None => Ok(values),
    }
}

/// Tests whether the values can be the values of the fields, one each.
pub fn accept_fields(fields: &Vec<Field>, value: &Vec<Value>) -> (accepted: bool)
    ensures
        accepted == admitted(fields@, cells(value@)),
{
    if value.len() != fields.len() {
        return false;
    }
    let mut i: usize = 0;
    while i < fields.len()
        invariant
            i <= fields.len(),
            value.len() == fields.len(),
            forall|k: int| 0 <= k < i ==> (#[trigger] fields@[k]).admits(cells(value@)[k]),
        decreases fields.len() - i,
    {
        if !fields[i].accepts(&value[i]) {
            return false;
        }
        i += 1;
    }
    true
}

/// Binds the values to the next parameters, in order.
pub fn bind_all(values: &Vec<Value>, query: Query) -> (bound: Query)
    ensures
        bound@.sql == query@.sql,
        bound@.bound == query@.bound + cells(values@),
{
    let mut bound = query;
    let mut i: usize = 0;
    while i < values.len()
        invariant
            i <= values.len(),
            bound@.sql == query@.sql,
            bound@.bound == query@.bound + cells(values@.take(i as int)),
        decreases values.len() - i,
    {
        bound = bound.bind(values[i].clone());
        i += 1;
    }
    bound
}

impl StructComponent {
    /// The name of the component's table: the declared name without the
    /// quotes around it.
    pub open spec fn spec_table(&self) -> Seq<char> {
        trimmed(self.table_name@, '"')
    }

    /// Whether the database has a column type for each field.
    pub open spec fn stored_in(&self, database: Database) -> bool {
        all_stored(self.fields@, database)
    }

    /// The statement that creates the component's table, unless it exists:
    /// the entity as the primary key, then one column for each field.
    pub open spec fn spec_table_creator(&self, database: Database, entity: Kind) -> Seq<char> {
        "create table if not exists "@ + self.spec_table() + "(\n  entity "@ + sql_type(
            database,
            entity,
        ) + " primary key"@ + concat(column_lines(self.fields@, database)) + "\n);"@
    }

    /// The table expression that fetches the component: its columns, in
    /// order, from its table.
    pub open spec fn spec_cte(&self) -> TableExpression {
        TableExpression::Extract { table: self.spec_table(), columns: column_names(self.fields@) }
    }

    /// Whether the cells can be a value of the component.
    pub open spec fn admits(&self, value: Seq<Cell>) -> bool {
        admitted(self.fields@, value)
    }

    /// What reading the component from a row gives, its first field at the
    /// given position.
    pub open spec fn decoded(&self, row: Seq<Cell>, position: nat) -> Result<
        Seq<Cell>,
        DecodeFailure,
    > {
        decoded_fields(self.fields@, row, position, self.fields@.len())
    }

    /// The name of the component's table.
    pub fn table(&self) -> (table: String)
        ensures
            table@ == self.spec_table(),
    {
        trim_matches(self.table_name.as_str(), '"')
    }

    /// The statements that insert, update and delete an entity's row.
    pub fn statements(&self, placeholder_char: char) -> (statements: Statements)
        ensures
            statements.are_for(self.spec_table(), column_names(self.fields@), placeholder_char),
    {
        let table = self.table();
        let names = name_columns(&self.fields);
        write_statements(table.as_str(), &names, placeholder_char)
    }

    /// Tests whether the database has a column type for each field.
    pub fn is_stored_in(&self, database: Database) -> (stored: bool)
        ensures
            stored == self.stored_in(database),
    {
        are_stored(&self.fields, database)
    }

    /// The statement that creates the component's table for entities of
    /// the given kind. The database has a column type for the entity
    /// and for each field.
    pub fn table_creator(&self, database: Database, entity: Kind) -> (sql: String)
        requires
            database.stores(entity),
            self.stored_in(database),
        ensures
            sql@ == self.spec_table_creator(database, entity),
    {
        let mut sql = String::from_str("create table if not exists ");
        sql.append(self.table().as_str());
        sql.append("(\n  entity ");
        sql.append((TypeInfo { database, kind: entity }).name().as_str());
        sql.append(" primary key");
        append_column_lines(&mut sql, &self.fields, database);
        sql.append("\n);");
        sql
    }

    /// The columns of the component's table after the entity, in order.
    pub fn columns(&self, database: Database) -> (columns: Vec<ColumnDefinition>)
        ensures
            columns@.len() == self.fields@.len(),
            forall|i: int|
                0 <= i < columns@.len() ==> {
                    &&& (#[trigger] columns@[i]).name@ == self.fields@[i].spec_column_name()
                    &&& columns@[i].type_info == (TypeInfo {
                        database,
                        kind: self.fields@[i].spec_kind(),
                    })
                },
    {
        let mut columns: Vec<ColumnDefinition> = Vec::new();
        let mut i: usize = 0;
        while i < self.fields.len()
            invariant
                i <= self.fields.len(),
                columns@.len() == i,
                forall|k: int|
                    0 <= k < i ==> {
                        &&& (#[trigger] columns@[k]).name@ == self.fields@[k].spec_column_name()
                        &&& columns@[k].type_info == (TypeInfo {
                            database,
                            kind: self.fields@[k].spec_kind(),
                        })
                    },
            decreases self.fields.len() - i,
        {
            columns.push(self.fields[i].column_definition(database));
            i += 1;
        }
        columns
    }

    /// The table expression that fetches the component.
    pub fn cte(&self) -> (cte: CommonTableExpression)
        ensures
            cte@ == self.spec_cte(),
    {
        CommonTableExpression::Extract { table: self.table(), columns: name_columns(&self.fields) }
    }

    /// Tests whether the values can be a value of the component.
    pub fn accepts(&self, value: &Vec<Value>) -> (accepted: bool)
        ensures
            accepted == self.admits(cells(value@)),
    {
        accept_fields(&self.fields, value)
    }

    /// Binds the fields' values to the next parameters, in the order of
    /// the fields. The values are one for each field, each of its field's
    /// kind: [`StructComponent::accepts`] tests that.
    pub fn field_serializer(&self, value: &Vec<Value>, query: Query) -> (bound: Query)
        requires
            self.admits(cells(value@)),
        ensures
            bound@.sql == query@.sql,
            bound@.bound == query@.bound + cells(value@),
    {
        bind_all(value, query)
    }

    /// Reads the fields from consecutive cells of the row, in the order of
    /// the fields. Every field's cell is read; the first field that fails
    /// gives the failure.
    pub fn field_deserializer(&self, row: &mut OffsetRow) -> (result: Result<
        Vec<Value>,
        DecodeError,
    >)
        ensures
            final(row).cells() == old(row).cells(),
            final(row).position() == old(row).position() + self.fields@.len(),
            fields_view(result) == self.decoded(old(row).cells(), old(row).position()),
    {
        read_fields(&self.fields, row)
    }

    /// Adds the statement that stores the value as the entity's row.
    pub fn insert(
        &self,
        value: &Vec<Value>,
        placeholder_char: char,
        query: &mut EntityPrefixedQuery,
    )
        requires
            self.admits(cells(value@)),
        ensures
            final(query).entity() == old(query).entity(),
            final(query).queries() == old(query).queries().push(
                Statement {
                    sql: insert_sql(
                        self.spec_table(),
                        column_names(self.fields@),
                        placeholder_char,
                    ),
                    bound: seq![old(query).entity()] + cells(value@),
                },
            ),
    {
        let statements = self.statements(placeholder_char);
        let binder = |started: Query| -> (finished: Query)
            requires
                self.admits(cells(value@)),
            ensures
                finished@.sql == started@.sql,
                finished@.bound == started@.bound + cells(value@),
            {
                self.field_serializer(value, started)
            };
        query.query(statements.insert.as_str(), binder);
    }

    /// Adds the statement that replaces the entity's row by the value.
    pub fn update(
        &self,
        value: &Vec<Value>,
        placeholder_char: char,
        query: &mut EntityPrefixedQuery,
    )
        requires
            self.admits(cells(value@)),
        ensures
            final(query).entity() == old(query).entity(),
            final(query).queries() == old(query).queries().push(
                Statement {
                    sql: update_sql(
                        self.spec_table(),
                        column_names(self.fields@),
                        placeholder_char,
                    ),
                    bound: seq![old(query).entity()] + cells(value@),
                },
            ),
    {
        let statements = self.statements(placeholder_char);
        let binder = |started: Query| -> (finished: Query)
            requires
                self.admits(cells(value@)),
            ensures
                finished@.sql == started@.sql,
                finished@.bound == started@.bound + cells(value@),
            {
                self.field_serializer(value, started)
            };
        query.query(statements.update.as_str(), binder);
    }

    /// Adds the statement that deletes the entity's row.
    pub fn remove(&self, placeholder_char: char, query: &mut EntityPrefixedQuery)
        ensures
            final(query).entity() == old(query).entity(),
            final(query).queries() == old(query).queries().push(
                Statement {
                    sql: delete_sql(self.spec_table(), placeholder_char),
                    bound: seq![old(query).entity()],
                },
            ),
    {
        let statements = self.statements(placeholder_char);
        let binder = |started: Query| -> (finished: Query)
            ensures
                finished@ == started@,
            {
                started
            };
        query.query(statements.delete.as_str(), binder);
    }
}

/// Writing a value of a component and reading it back gives the value:
/// whatever stands before and after its cells in the row.
pub proof fn struct_round_trip(
    component: StructComponent,
    value: Seq<Cell>,
    before: Seq<Cell>,
    after: Seq<Cell>,
)
    requires
        component.admits(value),
    ensures
        component.decoded(before + value + after, before.len()) == Ok::<
            Seq<Cell>,
            DecodeFailure,
        >(value),
{
    lemma_fields_round_trip(component.fields@, value, before, after, value.len());
    assert(value.take(value.len() as int) =~= value);
}

pub(crate) proof fn lemma_fields_round_trip(
    fields: Seq<Field>,
    value: Seq<Cell>,
    before: Seq<Cell>,
    after: Seq<Cell>,
    count: nat,
)
    requires
        admitted(fields, value),
        count <= fields.len(),
    ensures
        decoded_fields(fields, before + value + after, before.len(), count) == Ok::<
            Seq<Cell>,
            DecodeFailure,
        >(value.take(count as int)),
    decreases count,
{
    if count == 0 {
        assert(value.take(0) =~= Seq::<Cell>::empty());
    } else {
        lemma_fields_round_trip(fields, value, before, after, (count - 1) as nat);
        assert(value.take(count as int) =~= value.take(count - 1).push(value[count - 1]));
    }
}


/// Whether one of the fields does not take null.
pub open spec fn some_required(fields: Seq<Field>, count: nat) -> bool {
    exists|i: int| 0 <= i < count && i < fields.len() && !(#[trigger] fields[i]).spec_nullable()
}

/// Read from cells that are all null, fields are missing as soon as one
/// of them does not take null.
pub(crate) proof fn lemma_fields_of_nulls(
    fields: Seq<Field>,
    row: Seq<Cell>,
    position: nat,
    count: nat,
)
    requires
        count <= fields.len(),
        position + count <= row.len(),
        forall|i: int| position <= i < position + count ==> row[i] is Null,
    ensures
        some_required(fields, count) ==> decoded_fields(fields, row, position, count) matches Err(
            DecodeFailure::ColumnNotFound(_),
        ),
        !some_required(fields, count) ==> decoded_fields(fields, row, position, count) is Ok,
    decreases count,
{
    if count > 0 {
        lemma_fields_of_nulls(fields, row, position, (count - 1) as nat);
    }
}


impl StructComponent {
    /// Why a declaration of fields declares no component, if it declares
    /// none: its attributes cannot be read. Fields of any type are read.
    pub open spec fn refused(derive: DeriveInput) -> Option<ParseFailure> {
        match declared_table(derive) {
            Err(failure) => Some(failure),
            Ok(_) => None,
        }
    }

    /// Reads the component that a declaration of fields declares: named
    /// as its type, stored in the table that its attributes ask for, or
    /// else in one named as its type.
    pub fn parse(derive: &DeriveInput) -> (result: Result<StructComponent, ParseError>)
        requires
            derive.body is Struct,
        ensures
            match result {
                Ok(component) => {
                    &&& Self::refused(*derive) is None
                    &&& component.typename@ == derive.ident@
                    &&& declared_table(*derive) == Ok::<Seq<char>, ParseFailure>(
                        component.table_name@,
                    )
                    &&& declared_fields(component.fields@, derive.body->Struct_0@)
                },
                Err(error) => Self::refused(*derive) == Some(error@),
            },
    {
        let table_name = match table_name_of(derive) {
            Err(error) => {
                return Err(error);
            },
            Ok(name) => name,
        };
        match &derive.body {
            Body::Struct(declarations) => Ok(
                StructComponent {
                    typename: derive.ident.clone(),
                    table_name,
                    fields: parse_fields(declarations),
                },
            ),
            _ => vstd::pervasive::unreached(),
        }
    }

    /// What the component is for one database.
    pub fn implementation(&self, database: Database, placeholder_char: char) -> (implementation:
        Implementation)
        ensures
            implementation.database == database,
            implementation.table@ == self.spec_table(),
            implementation.statements.are_for(
                self.spec_table(),
                column_names(self.fields@),
                placeholder_char,
            ),
            implementation.columns@.len() == self.fields@.len(),
            forall|i: int|
                0 <= i < self.fields@.len() ==> {
                    &&& (#[trigger] implementation.columns@[i]).name@
                        == self.fields@[i].spec_column_name()
                    &&& implementation.columns@[i].type_info == (TypeInfo {
                        database,
                        kind: self.fields@[i].spec_kind(),
                    })
                },
            implementation.cte@ == self.spec_cte(),
    {
        Implementation {
            database,
            table: self.table(),
            columns: self.columns(database),
            statements: self.statements(placeholder_char),
            cte: self.cte(),
        }
    }
}

} // verus!
