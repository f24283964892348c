//! Components: record types stored in a table of their own.

pub mod attribute;
pub mod enum_component;
pub mod struct_component;

use vstd::prelude::*;
use crate::component::attribute::declared_table;
use crate::component::enum_component::{EnumComponent, Tagged, TaggedCells};
use crate::component::struct_component::{column_names, StructComponent};
use crate::cte::{CommonTableExpression, TableExpression};
use crate::driver::{Database, TypeInfo};
use crate::entity::{EntityPrefixedQuery, Query, Statement};
use crate::field::Field;
use crate::declaration::{Body, DeriveInput, ParseError, ParseFailure};
use crate::reflect::{reflect_component, Reflection};
use crate::row::{DecodeError, DecodeFailure, OffsetRow};
use crate::text::{decimal, decimal_string, join, join_strings, texts};
use crate::value::{cells, clone_values, nulls, Cell, Kind, Value};

verus! {

/// One column of a component's table.
#[derive(Debug)]
pub struct ColumnDefinition {
    pub name: String,
    pub type_info: TypeInfo,
}

impl ColumnDefinition {
    /// The column's name.
    pub fn name(&self) -> (name: &str)
        ensures
            name@ == self.name@,
    {
        self.name.as_str()
    }

    /// The driver's description of the column's type.
    pub fn type_info(&self) -> (type_info: &TypeInfo)
        ensures
            *type_info == self.type_info,
    {
        &self.type_info
    }
}

/// The numbered parameter with the given number.
pub open spec fn placeholder(character: char, number: nat) -> Seq<char> {
    seq![character] + decimal(number)
}

/// The numbered parameters from 1 up to the count.
pub open spec fn spec_placeholders(character: char, count: nat) -> Seq<Seq<char>> {
    Seq::new(count, |i: int| placeholder(character, (i + 1) as nat))
}

/// Writes the numbered parameter with the given number.
pub fn numbered(character: char, number: u128) -> (text: String)
    ensures
        text@ == placeholder(character, number as nat),
{
    let mut text = String::new();
    text.push(character);
    let digits = decimal_string(number);
    text.append(digits.as_str());
    text
}

/// The numbered parameters of a statement with as many parameters as
/// the count, from the first on.
pub fn placeholders(character: char, count: usize) -> (list: Vec<String>)
    ensures
        texts(list@) == spec_placeholders(character, count as nat),
{
    let mut list: Vec<String> = Vec::new();
    let mut i: usize = 0;
    while i < count
        invariant
            i <= count,
            texts(list@) == spec_placeholders(character, i as nat),
        decreases count - i,
    {
        let text = numbered(character, i as u128 + 1);
        proof {
            assert(spec_placeholders(character, i as nat).push(text@) =~= spec_placeholders(
                character,
                (i + 1) as nat,
            ));
        }
        list.push(text);
        i += 1;
    }
    list
}

/// The columns of a table with the entity's column before them.
pub open spec fn with_entity(columns: Seq<Seq<char>>) -> Seq<Seq<char>> {
    seq!["entity"@] + columns
}

/// The assignments of an update: each column set to the parameter after the
/// entity's, in order.
pub open spec fn assignments(columns: Seq<Seq<char>>, character: char) -> Seq<Seq<char>> {
    Seq::new(columns.len(), |i: int| columns[i] + " = "@ + placeholder(character, (i + 2) as nat))
}

/// The statement that stores an entity's row: the entity is the first
/// parameter, the columns follow in order.
pub open spec fn insert_sql(table: Seq<char>, columns: Seq<Seq<char>>, character: char) -> Seq<
    char,
> {
    "insert into "@ + table + "("@ + join(with_entity(columns), ", "@) + ") values("@ + join(
        spec_placeholders(character, columns.len() + 1),
        ", "@,
    ) + ");"@
}

/// The statement that replaces the columns of an entity's row: the entity
/// is the first parameter, the columns follow in order.
pub open spec fn update_sql(table: Seq<char>, columns: Seq<Seq<char>>, character: char) -> Seq<
    char,
> {
    "update "@ + table + " set "@ + join(assignments(columns, character), ", "@)
        + " where entity = "@ + placeholder(character, 1)
}

/// The statement that deletes an entity's row: the entity is its only
/// parameter.
pub open spec fn delete_sql(table: Seq<char>, character: char) -> Seq<char> {
    "delete from "@ + table + " where entity = "@ + placeholder(character, 1)
}

/// The three statements that write a component's table.
#[derive(Debug)]
pub struct Statements {
    pub insert: String,
    pub update: String,
    pub delete: String,
}

impl Statements {
    /// Whether these are the statements for a table and its columns.
    pub open spec fn are_for(
        &self,
        table: Seq<char>,
        columns: Seq<Seq<char>>,
        character: char,
    ) -> bool {
        &&& self.insert@ == insert_sql(table, columns, character)
        &&& self.update@ == update_sql(table, columns, character)
        &&& self.delete@ == delete_sql(table, character)
    }
}

/// Writes the three statements for a table and its columns.
pub fn write_statements(table: &str, columns: &Vec<String>, character: char) -> (statements:
    Statements)
    ensures
        statements.are_for(table@, texts(columns@), character),
{
    let ghost names = texts(columns@);
    let mut listed: Vec<String> = Vec::new();
    listed.push(String::from_str("entity"));
    let mut parameters: Vec<String> = Vec::new();
    parameters.push(numbered(character, 1));
    let mut updates: Vec<String> = Vec::new();
    let mut i: usize = 0;
    while i < columns.len()
        invariant
            i <= columns.len(),
            names == texts(columns@),
            texts(listed@) == with_entity(names.take(i as int)),
            texts(parameters@) == spec_placeholders(character, (i + 1) as nat),
            texts(updates@) == assignments(names.take(i as int), character),
        decreases columns.len() - i,
    {
        let parameter = numbered(character, i as u128 + 2);
        let mut update = columns[i].clone();
        update.append(" = ");
        update.append(parameter.as_str());
        let column = columns[i].clone();
        proof {
            assert(with_entity(names.take(i as int)).push(column@) =~= with_entity(
                names.take(i as int + 1),
            ));
            assert(spec_placeholders(character, (i + 1) as nat).push(parameter@)
                =~= spec_placeholders(character, (i + 2) as nat));
            assert(assignments(names.take(i as int), character).push(update@) =~= assignments(
                names.take(i as int + 1),
                character,
            ));
        }
        listed.push(column);
        parameters.push(parameter);
        updates.push(update);
        i += 1;
    }
    proof {
        assert(names.take(columns.len() as int) =~= names);
    }
    let entity = numbered(character, 1);

    let mut insert = String::from_str("insert into ");
    insert.append(table);
    insert.append("(");
    insert.append(join_strings(&listed, ", ").as_str());
    insert.append(") values(");
    insert.append(join_strings(&parameters, ", ").as_str());
    insert.append(");");

    let mut update = String::from_str("update ");
    update.append(table);
    update.append(" set ");
    update.append(join_strings(&updates, ", ").as_str());
    update.append(" where entity = ");
    update.append(entity.as_str());

    let mut delete = String::from_str("delete from ");
    delete.append(table);
    delete.append(" where entity = ");
    delete.append(entity.as_str());

    Statements { insert, update, delete }
}


/// A component: a flat list of fields, or one of several variants.
#[derive(Debug)]
pub enum Component {
    Struct(StructComponent),
    Enum(EnumComponent),
}

/// A value of a component.
#[derive(Debug)]
pub enum ComponentValue {
    Struct(Vec<Value>),
    Enum(Tagged),
}

/// What a [`ComponentValue`] holds.
pub enum ComponentData {
    Struct(Seq<Cell>),
    Enum(TaggedCells),
}

impl View for ComponentValue {
    type V = ComponentData;

    open spec fn view(&self) -> ComponentData {
        match self {
            ComponentValue::Struct(fields) => ComponentData::Struct(cells(fields@)),
            ComponentValue::Enum(tagged) => ComponentData::Enum(tagged@),
        }
    }
}

impl PartialEq for ComponentValue {
    fn eq(&self, other: &ComponentValue) -> (equal: bool) {
        match self {
            ComponentValue::Struct(fields) => match other {
                ComponentValue::Struct(others) => crate::value::same_values(fields, others),
                _ => false,
            },
            ComponentValue::Enum(tagged) => match other {
                ComponentValue::Enum(others) => *tagged == *others,
                _ => false,
            },
        }
    }
}

impl vstd::std_specs::cmp::PartialEqSpecImpl for ComponentValue {
    open spec fn obeys_eq_spec() -> bool {
        true
    }

    open spec fn eq_spec(&self, other: &ComponentValue) -> bool {
        self@ == other@
    }
}

impl Clone for ComponentValue {
    fn clone(&self) -> (copy: ComponentValue)
        ensures
            copy@ == self@,
    {
        match self {
            ComponentValue::Struct(fields) => ComponentValue::Struct(clone_values(fields)),
            ComponentValue::Enum(tagged) => ComponentValue::Enum(tagged.clone()),
        }
    }
}

/// What a result of decoding a component holds.
pub open spec fn component_view(result: Result<ComponentValue, DecodeError>) -> Result<
    ComponentData,
    DecodeFailure,
> {
    match result {
        Ok(value) => Ok(value@),
        Err(error) => Err(error@),
    }
}

/// What a component is for one database: its table, its columns, the
/// statements that write it and the table expression that fetches it.
#[derive(Debug)]
pub struct Implementation {
    pub database: Database,
    pub table: String,
    pub columns: Vec<ColumnDefinition>,
    pub statements: Statements,
    pub cte: CommonTableExpression,
}

impl Component {
    /// The name of the component's type.
    pub open spec fn spec_typename(&self) -> Seq<char> {
        match self {
            Component::Struct(component) => component.typename@,
            Component::Enum(component) => component.typename@,
        }
    }

    /// The name of the component's table as it was declared.
    pub open spec fn spec_table_name(&self) -> Seq<char> {
        match self {
            Component::Struct(component) => component.table_name@,
            Component::Enum(component) => component.table_name@,
        }
    }

    /// The name of the component's table.
    pub open spec fn spec_table(&self) -> Seq<char> {
        match self {
            Component::Struct(component) => component.spec_table(),
            Component::Enum(component) => component.spec_table(),
        }
    }

    /// The columns of the component's table after the entity.
    pub open spec fn spec_columns(&self) -> Seq<Seq<char>> {
        match self {
            Component::Struct(component) => column_names(component.fields@),
            Component::Enum(component) => component.spec_columns(),
        }
    }

    /// The fields of the component: of variants, the fields of all of
    /// them, variant by variant.
    pub open spec fn spec_fields(&self) -> Seq<Field> {
        match self {
            Component::Struct(component) => component.fields@,
            Component::Enum(component) => component.spec_fields(),
        }
    }

    /// The number of columns that the component takes in a row.
    pub open spec fn width(&self) -> nat {
        self.spec_columns().len()
    }

    /// The table expression that fetches the component: its columns, in
    /// order, from its table.
    pub open spec fn spec_cte(&self) -> TableExpression {
        TableExpression::Extract { table: self.spec_table(), columns: self.spec_columns() }
    }

    /// The statement that creates the component's table.
    pub open spec fn spec_table_creator(&self, database: Database, entity: Kind) -> Seq<char> {
        match self {
            Component::Struct(component) => component.spec_table_creator(database, entity),
            Component::Enum(component) => component.spec_table_creator(database, entity),
        }
    }

    /// Whether the component's names are told apart: always so for a list
    /// of fields, see [`EnumComponent::well_formed`] for variants.
    pub open spec fn well_formed(&self) -> bool {
        match self {
            Component::Struct(_) => true,
            Component::Enum(component) => component.well_formed(),
        }
    }

    /// Whether the value is one of the component.
    pub open spec fn admits(&self, value: ComponentData) -> bool {
        match self {
            Component::Struct(component) => value matches ComponentData::Struct(fields)
                && component.admits(fields),
            Component::Enum(component) => value matches ComponentData::Enum(tagged)
                && component.admits(tagged),
        }
    }

    /// What writing a value binds.
    pub open spec fn encoded(&self, value: ComponentData) -> Seq<Cell> {
        match self {
            Component::Struct(_) => match value {
                ComponentData::Struct(fields) => fields,
                ComponentData::Enum(_) => Seq::empty(),
            },
            Component::Enum(component) => match value {
                ComponentData::Struct(_) => Seq::empty(),
                ComponentData::Enum(tagged) => component.encoded(tagged),
            },
        }
    }

    /// What reading the component from a row gives, its first column at
    /// the given position.
    pub open spec fn decoded(&self, row: Seq<Cell>, position: nat) -> Result<
        ComponentData,
        DecodeFailure,
    > {
        match self {
            Component::Struct(component) => match component.decoded(row, position) {
                Ok(fields) => Ok(ComponentData::Struct(fields)),
                Err(failure) => Err(failure),
            },
            Component::Enum(component) => match component.decoded(row, position) {
                Ok(tagged) => Ok(ComponentData::Enum(tagged)),
                Err(failure) => Err(failure),
            },
        }
    }

    /// Tests whether the component's names are told apart.
    pub fn is_well_formed(&self) -> (well_formed: bool)
        ensures
            well_formed == self.well_formed(),
    {
        match self {
            Component::Struct(_) => true,
            Component::Enum(component) => component.is_well_formed(),
        }
    }

    /// The name of the component's type.
    pub fn typename(&self) -> (typename: &str)
        ensures
            typename@ == self.spec_typename(),
    {
        match self {
            Component::Struct(component) => component.typename.as_str(),
            Component::Enum(component) => component.typename.as_str(),
        }
    }

    /// The name of the component's table as it was declared.
    pub fn table_name(&self) -> (table_name: &str)
        ensures
            table_name@ == self.spec_table_name(),
    {
        match self {
            Component::Struct(component) => component.table_name.as_str(),
            Component::Enum(component) => component.table_name.as_str(),
        }
    }

    /// The name of the component's table.
    pub fn table(&self) -> (table: String)
        ensures
            table@ == self.spec_table(),
    {
        match self {
            Component::Struct(component) => component.table(),
            Component::Enum(component) => component.table(),
        }
    }

    /// The statements that insert, update and delete an entity's row.
    pub fn statements(&self, placeholder_char: char) -> (statements: Statements)
        ensures
            statements.are_for(self.spec_table(), self.spec_columns(), placeholder_char),
    {
        match self {
            Component::Struct(component) => component.statements(placeholder_char),
            Component::Enum(component) => component.statements(placeholder_char),
        }
    }

    /// Whether the database has a column type for each of the
    /// component's columns.
    pub open spec fn stored_in(&self, database: Database) -> bool {
        match self {
            Component::Struct(component) => component.stored_in(database),
            Component::Enum(component) => component.stored_in(database),
        }
    }

    /// Tests whether the database has a column type for each of the
    /// component's columns.
    pub fn is_stored_in(&self, database: Database) -> (stored: bool)
        ensures
            stored == self.stored_in(database),
    {
        match self {
            Component::Struct(component) => component.is_stored_in(database),
            Component::Enum(component) => component.is_stored_in(database),
        }
    }

    /// The statement that creates the component's table for entities of
    /// the given kind. The database has a column type for the entity
    /// and for each column.
    pub fn table_creator(&self, database: Database, entity: Kind) -> (sql: String)
        requires
            database.stores(entity),
            self.stored_in(database),
        ensures
            sql@ == self.spec_table_creator(database, entity),
    {
        match self {
            Component::Struct(component) => component.table_creator(database, entity),
            Component::Enum(component) => component.table_creator(database, entity),
        }
    }

    /// The table expression that fetches the component.
    pub fn cte(&self) -> (cte: CommonTableExpression)
        ensures
            cte@ == self.spec_cte(),
    {
        match self {
            Component::Struct(component) => component.cte(),
            Component::Enum(component) => component.cte(),
        }
    }

    /// Tests whether the value is one of the component.
    pub fn accepts(&self, value: &ComponentValue) -> (accepted: bool)
        ensures
            accepted == self.admits(value@),
    {
        match self {
            Component::Struct(component) => match value {
                ComponentValue::Struct(fields) => component.accepts(fields),
                ComponentValue::Enum(_) => false,
            },
            Component::Enum(component) => match value {
                ComponentValue::Struct(_) => false,
                ComponentValue::Enum(tagged) => component.accepts(tagged),
            },
        }
    }

    /// Binds what writing the value binds. The value is one of the
    /// component: [`Component::accepts`] tests that.
    pub fn field_serializer(&self, value: &ComponentValue, query: Query) -> (bound: Query)
        requires
            self.admits(value@),
        ensures
            bound@.sql == query@.sql,
            bound@.bound == query@.bound + self.encoded(value@),
    {
        match self {
            Component::Struct(component) => match value {
                ComponentValue::Struct(fields) => component.field_serializer(fields, query),
                ComponentValue::Enum(_) => vstd::pervasive::unreached(),
            },
            Component::Enum(component) => match value {
                ComponentValue::Struct(_) => vstd::pervasive::unreached(),
                ComponentValue::Enum(tagged) => component.field_serializer(tagged, query),
            },
        }
    }

    /// Binds null for every column of the component: what is written of
    /// a component that is absent.
    pub fn bind_absent(&self, query: Query) -> (bound: Query)
        ensures
            bound@.sql == query@.sql,
            bound@.bound == query@.bound + nulls(self.width()),
    {
        match self {
            Component::Struct(component) => query.bind_nulls(component.fields.len()),
            Component::Enum(component) => {
                let bound = query.bind(Value::Null).bind_nulls(component.fields().len());
                assert(bound@.bound =~= query@.bound + nulls(self.width()));
                bound
            },
        }
    }

    /// Reads the component from the row. As many cells are read as the
    /// component has columns, whether the reading succeeds or not.
    pub fn field_deserializer(&self, row: &mut OffsetRow) -> (result: Result<
        ComponentValue,
        DecodeError,
    >)
        ensures
            final(row).cells() == old(row).cells(),
            final(row).position() == old(row).position() + self.width(),
            component_view(result) == self.decoded(old(row).cells(), old(row).position()),
    {
        match self {
            Component::Struct(component) => match component.field_deserializer(row) {
                Ok(fields) => Ok(ComponentValue::Struct(fields)),
                Err(error) => Err(error),
            },
            Component::Enum(component) => match component.field_deserializer(row) {
                Ok(tagged) => Ok(ComponentValue::Enum(tagged)),
                Err(error) => Err(error),
            },
        }
    }

    /// Adds the statement that stores the value as the entity's row.
    pub fn insert(
        &self,
        value: &ComponentValue,
        placeholder_char: char,
        query: &mut EntityPrefixedQuery,
    )
        requires
            self.admits(value@),
        ensures
            final(query).entity() == old(query).entity(),
            final(query).queries() == old(query).queries().push(
                Statement {
                    sql: insert_sql(self.spec_table(), self.spec_columns(), placeholder_char),
                    bound: seq![old(query).entity()] + self.encoded(value@),
                },
            ),
    {
        let statements = self.statements(placeholder_char);
        let binder = |started: Query| -> (finished: Query)
            requires
                self.admits(value@),
            ensures
                finished@.sql == started@.sql,
                finished@.bound == started@.bound + self.encoded(value@),
            {
                self.field_serializer(value, started)
            };
        query.query(statements.insert.as_str(), binder);
    }

    /// Adds the statement that replaces the entity's row by the value.
    pub fn update(
        &self,
        value: &ComponentValue,
        placeholder_char: char,
        query: &mut EntityPrefixedQuery,
    )
        requires
            self.admits(value@),
        ensures
            final(query).entity() == old(query).entity(),
            final(query).queries() == old(query).queries().push(
                Statement {
                    sql: update_sql(self.spec_table(), self.spec_columns(), placeholder_char),
                    bound: seq![old(query).entity()] + self.encoded(value@),
                },
            ),
    {
        let statements = self.statements(placeholder_char);
        let binder = |started: Query| -> (finished: Query)
            requires
                self.admits(value@),
            ensures
                finished@.sql == started@.sql,
                finished@.bound == started@.bound + self.encoded(value@),
            {
                self.field_serializer(value, started)
            };
        query.query(statements.update.as_str(), binder);
    }

    /// Adds the statement that deletes the entity's row.
    pub fn remove(&self, placeholder_char: char, query: &mut EntityPrefixedQuery)
        ensures
            final(query).entity() == old(query).entity(),
            final(query).queries() == old(query).queries().push(
                Statement {
                    sql: delete_sql(self.spec_table(), placeholder_char),
                    bound: seq![old(query).entity()],
                },
            ),
    {
        match self {
            Component::Struct(component) => component.remove(placeholder_char, query),
            Component::Enum(component) => component.remove(placeholder_char, query),
        }
    }
}

/// Writing a value of a well-formed component and reading it back gives
/// the value: whatever stands before and after its cells in the row.
pub proof fn component_round_trip(
    component: Component,
    value: ComponentData,
    before: Seq<Cell>,
    after: Seq<Cell>,
)
    requires
        component.well_formed(),
        component.admits(value),
    ensures
        component.decoded(before + component.encoded(value) + after, before.len()) == Ok::<
            ComponentData,
            DecodeFailure,
        >(value),
{
    match component {
        Component::Struct(inner) => {
            crate::component::struct_component::struct_round_trip(
                inner,
                value->Struct_0,
                before,
                after,
            );
        },
        Component::Enum(inner) => {
            crate::component::enum_component::enum_round_trip(
                inner,
                value->Enum_0,
                before,
                after,
            );
        },
    }
}


impl Component {
    /// Whether the component has a column that does not take null: the
    /// tag of variants, or a field that is not nullable.
    pub open spec fn has_required_column(&self) -> bool {
        match self {
            Component::Struct(component) => crate::component::struct_component::some_required(
                component.fields@,
                component.fields@.len(),
            ),
            Component::Enum(_) => true,
        }
    }
}

/// What writing a value of a component binds is as wide as the component.
pub proof fn encoded_width(component: Component, value: ComponentData)
    requires
        component.admits(value),
    ensures
        component.encoded(value).len() == component.width(),
{
}

/// Where all of its cells are null, a component with a column that does
/// not take null is missing, and any other component is read.
pub proof fn component_of_nulls(component: Component, row: Seq<Cell>, position: nat)
    requires
        position + component.width() <= row.len(),
        forall|i: int| position <= i < position + component.width() ==> row[i] is Null,
    ensures
        component.has_required_column() ==> component.decoded(row, position) matches Err(
            DecodeFailure::ColumnNotFound(_),
        ),
        !component.has_required_column() ==> component.decoded(row, position) is Ok,
{
    match component {
        Component::Struct(inner) => {
            crate::component::struct_component::lemma_fields_of_nulls(
                inner.fields@,
                row,
                position,
                inner.fields@.len(),
            );
        },
        Component::Enum(inner) => {},
    }
}


/// What deriving a component gives: what it is for each database asked
/// for, and the columns of a list of fields by name.
#[derive(Debug)]
pub struct Derived {
    pub implementations: Vec<Implementation>,
    pub reflection: Option<Reflection>,
}

/// Calls the implementer once for each database, with the database and
/// the character that starts its parameters, and gives what it returned,
/// in the order of the databases.
pub fn implement_for<T, F: Fn(Database, char) -> T>(databases: &Vec<Database>, implementer: &F)
    -> (implementations: Vec<T>)
    requires
        forall|i: int|
            0 <= i < databases@.len() ==> implementer.requires(
                (#[trigger] databases@[i], databases@[i].spec_placeholder()),
            ),
    ensures
        implementations@.len() == databases@.len(),
        forall|i: int|
            0 <= i < databases@.len() ==> implementer.ensures(
                (databases@[i], databases@[i].spec_placeholder()),
                #[trigger] implementations@[i],
            ),
{
    let mut implementations: Vec<T> = Vec::new();
    let mut i: usize = 0;
    while i < databases.len()
        invariant
            i <= databases.len(),
            implementations@.len() == i,
            forall|k: int|
                0 <= k < databases@.len() ==> implementer.requires(
                    (#[trigger] databases@[k], databases@[k].spec_placeholder()),
                ),
            forall|k: int|
                0 <= k < i ==> implementer.ensures(
                    (databases@[k], databases@[k].spec_placeholder()),
                    #[trigger] implementations@[k],
                ),
        decreases databases.len() - i,
    {
        let database = databases[i];
        let implementation = implementer(database, database.placeholder());
        implementations.push(implementation);
        i += 1;
    }
    implementations
}

impl Component {
    /// Whether an implementation is what the component is for a
    /// database, its statements' parameters started by a character.
    pub open spec fn implemented_by(
        &self,
        implementation: Implementation,
        database: Database,
        placeholder_char: char,
    ) -> bool {
        &&& implementation.database == database
        &&& implementation.table@ == self.spec_table()
        &&& implementation.statements.are_for(
            self.spec_table(),
            self.spec_columns(),
            placeholder_char,
        )
        &&& implementation.cte@ == self.spec_cte()
        &&& implementation.columns@.len() == self.spec_fields().len()
        &&& forall|i: int|
            0 <= i < self.spec_fields().len() ==> {
                &&& (#[trigger] implementation.columns@[i]).name@
                    == self.spec_fields()[i].spec_column_name()
                &&& implementation.columns@[i].type_info == (TypeInfo {
                    database,
                    kind: self.spec_fields()[i].spec_kind(),
                })
            }
    }

    /// Whether the component is the one that a declaration declares:
    /// named as the type, stored in the table that the attributes ask
    /// for, or else in one named as the type, with the declared fields
    /// or variants.
    pub open spec fn declared_by(&self, derive: DeriveInput) -> bool {
        &&& self.spec_typename() == derive.ident@
        &&& declared_table(derive) == Ok::<Seq<char>, ParseFailure>(self.spec_table_name())
        &&& match self {
            Component::Struct(inner) => derive.body is Struct && crate::field::declared_fields(
                inner.fields@,
                derive.body->Struct_0@,
            ),
            Component::Enum(inner) => derive.body is Enum
                && crate::component::enum_component::declared_variants(
                inner.variants@,
                derive.body->Enum_0@,
            ),
        }
    }

    /// Whether what was derived is what the component is for each of the
    /// databases, in their order, and, for a list of fields, its columns
    /// by name, which are the columns that its table expression yields.
    pub open spec fn derived_as(&self, derived: Derived, databases: Seq<Database>) -> bool {
        &&& derived.implementations@.len() == databases.len()
        &&& forall|i: int|
            0 <= i < databases.len() ==> self.implemented_by(
                #[trigger] derived.implementations@[i],
                databases[i],
                databases[i].spec_placeholder(),
            )
        &&& derived.reflection is Some <==> self is Struct
        &&& derived.reflection matches Some(reflection) ==> {
            &&& reflection.name@ == "Reflected"@ + self.spec_typename()
            &&& crate::reflect::reflected_fields(reflection.fields@)
                == crate::reflect::field_names(self->Struct_0.fields@)
            &&& crate::reflect::reflected_columns(reflection.fields@) == self.spec_cte().columns()
        }
    }

    /// Why a declaration declares no component, if it declares none.
    pub open spec fn refused(derive: DeriveInput) -> Option<ParseFailure> {
        match derive.body {
            Body::Struct(_) => StructComponent::refused(derive),
            Body::Enum(_) => EnumComponent::refused(derive),
            Body::Union => None,
        }
    }

    /// Reads the component that a declaration declares.
    pub fn parse(derive: &DeriveInput) -> (result: Result<Component, ParseError>)
        requires
            !(derive.body is Union),
        ensures
            result is Err <==> Self::refused(*derive) is Some,
            result matches Err(error) ==> Self::refused(*derive) == Some(error@),
            result matches Ok(component) ==> component.declared_by(*derive),
    {
        match &derive.body {
            Body::Struct(_) => match StructComponent::parse(derive) {
                Ok(component) => Ok(Component::Struct(component)),
                Err(error) => Err(error),
            },
            Body::Enum(_) => match EnumComponent::parse(derive) {
                Ok(component) => Ok(Component::Enum(component)),
                Err(error) => Err(error),
            },
            Body::Union => vstd::pervasive::unreached(),
        }
    }

    /// What the component is for one database.
    pub fn implementation(&self, database: Database, placeholder_char: char) -> (implementation:
        Implementation)
        ensures
            self.implemented_by(implementation, database, placeholder_char),
    {
        match self {
            Component::Struct(component) => component.implementation(database, placeholder_char),
            Component::Enum(component) => component.implementation(database, placeholder_char),
        }
    }

    /// Derives the component: what it is for each of the databases, and,
    /// for a list of fields, its columns by name.
    pub fn derive(&self, databases: &Vec<Database>) -> (derived: Derived)
        ensures
            self.derived_as(derived, databases@),
    {
        let implementer = |database: Database, placeholder_char: char| -> (implementation:
            Implementation)
            ensures
                self.implemented_by(implementation, database, placeholder_char),
            {
                self.implementation(database, placeholder_char)
            };
        let implementations = implement_for(databases, &implementer);
        let reflection = match self {
            Component::Struct(component) => Some(reflect_component(component)),
            Component::Enum(_) => None,
        };
        Derived { implementations, reflection }
    }
}

} // verus!
