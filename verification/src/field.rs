//! One stored field of a component.

use vstd::prelude::*;
use crate::component::ColumnDefinition;
use crate::declaration::{storage, stored_as, FieldDeclaration};
use crate::driver::{sql_type, Database, TypeInfo};
use crate::row::{read_optional, read_view, DecodeError, DecodeFailure, OffsetRow};
use crate::text::{decimal, decimal_string};
use crate::value::{Cell, Kind, Value};

verus! {

/// A field of a component: numbered where the declaration gives it no name.
#[derive(Debug)]
pub enum Field {
    Numbered { index: usize, kind: Kind, nullable: bool },
    Named { ident: String, kind: Kind, nullable: bool },
}

impl Clone for Field {
    fn clone(&self) -> (copy: Field)
        ensures
            copy == *self,
    {
        match self {
            Field::Numbered { index, kind, nullable } => Field::Numbered {
                index: *index,
                kind: *kind,
                nullable: *nullable,
            },
            Field::Named { ident, kind, nullable } => Field::Named {
                ident: ident.clone(),
                kind: *kind,
                nullable: *nullable,
            },
        }
    }
}

impl Field {
    /// The kind of the field's values.
    pub open spec fn spec_kind(&self) -> Kind {
        match self {
            Field::Numbered { kind, .. } => *kind,
            Field::Named { kind, .. } => *kind,
        }
    }

    /// Whether the field may hold no value.
    pub open spec fn spec_nullable(&self) -> bool {
        match self {
            Field::Numbered { nullable, .. } => *nullable,
            Field::Named { nullable, .. } => *nullable,
        }
    }

    /// The field as the declaration identifies it: its name, or its number.
    pub open spec fn spec_ident(&self) -> Seq<char> {
        match self {
            Field::Numbered { index, .. } => decimal(*index as nat),
            Field::Named { ident, .. } => ident@,
        }
    }

    /// The name of the field's column: `column` and the number for a
    /// numbered field.
    pub open spec fn spec_column_name(&self) -> Seq<char> {
        match self {
            Field::Numbered { index, .. } => "column"@ + decimal(*index as nat),
            Field::Named { ident, .. } => ident@,
        }
    }

    /// The name that code binds the field's value to: `self_` and the number
    /// for a numbered field.
    pub open spec fn spec_field_name(&self) -> Seq<char> {
        match self {
            Field::Numbered { index, .. } => "self_"@ + decimal(*index as nat),
            Field::Named { ident, .. } => ident@,
        }
    }

    /// The column's type and whether it takes null, as a table definition
    /// writes them.
    pub open spec fn spec_sql_definition(&self, database: Database) -> Seq<char> {
        sql_type(database, self.spec_kind()) + " "@ + if self.spec_nullable() {
            "null"@
        } else {
            "not null"@
        }
    }

    /// Whether a cell can be the field's value: null only in a nullable
    /// field, anything else if it is of the field's kind.
    pub open spec fn admits(&self, cell: Cell) -> bool {
        if cell is Null {
            self.spec_nullable()
        } else {
            self.spec_kind().admits(cell)
        }
    }

    /// What reading the field at a position of a row gives. A null cell is
    /// the value of a nullable field; in any other field the column is
    /// missing.
    pub open spec fn decoded(&self, row: Seq<Cell>, position: nat) -> Result<Cell, DecodeFailure> {
        match read_optional(row, position, self.spec_ident(), self.spec_kind()) {
            Ok(Some(cell)) => Ok(cell),
            Ok(None) => if self.spec_nullable() {
                Ok(Cell::Null)
            } else {
                Err(DecodeFailure::ColumnNotFound(self.spec_ident()))
            },
            Err(failure) => Err(failure),
        }
    }

    /// The kind of the field's values.
    #[verifier::when_used_as_spec(spec_kind)]
    pub fn kind(&self) -> (kind: Kind)
        ensures
            kind == self.spec_kind(),
    {
        match self {
            Field::Numbered { kind, .. } => *kind,
            Field::Named { kind, .. } => *kind,
        }
    }

    /// Whether the field may hold no value.
    #[verifier::when_used_as_spec(spec_nullable)]
    pub fn nullable(&self) -> (nullable: bool)
        ensures
            nullable == self.spec_nullable(),
    {
        match self {
            Field::Numbered { nullable, .. } => *nullable,
            Field::Named { nullable, .. } => *nullable,
        }
    }

    /// The field as the declaration identifies it.
    pub fn ident(&self) -> (ident: String)
        ensures
            ident@ == self.spec_ident(),
    {
        match self {
            Field::Numbered { index, .. } => decimal_string(*index as u128),
            Field::Named { ident, .. } => ident.clone(),
        }
    }

    /// The name of the field's column.
    pub fn column_name(&self) -> (name: String)
        ensures
            name@ == self.spec_column_name(),
    {
        match self {
            Field::Numbered { index, .. } => {
                let number = decimal_string(*index as u128);
                String::from_str("column").concat(number.as_str())
            },
            Field::Named { ident, .. } => ident.clone(),
        }
    }

    /// The name that code binds the field's value to.
    pub fn field_name(&self) -> (name: String)
        ensures
            name@ == self.spec_field_name(),
    {
        match self {
            Field::Numbered { index, .. } => {
                let number = decimal_string(*index as u128);
                String::from_str("self_").concat(number.as_str())
            },
            Field::Named { ident, .. } => ident.clone(),
        }
    }

    /// The column's type and whether it takes null, as a table definition
    /// writes them.
    pub fn sql_definition(&self, database: Database) -> (definition: String)
        requires
            database.stores(self.spec_kind()),
        ensures
            definition@ == self.spec_sql_definition(database),
    {
        let info = TypeInfo { database, kind: self.kind() };
        let mut definition = info.name();
        definition.append(" ");
        if self.nullable() {
            definition.append("null");
        } else {
            definition.append("not null");
        }
        definition
    }

    /// The field's column as a database sees it.
    pub fn column_definition(&self, database: Database) -> (column: ColumnDefinition)
        ensures
            column.name@ == self.spec_column_name(),
            column.type_info == (TypeInfo { database, kind: self.spec_kind() }),
    {
        ColumnDefinition {
            name: self.column_name(),
            type_info: TypeInfo { database, kind: self.kind() },
        }
    }

    /// Tests whether the value can be the field's value.
    pub fn accepts(&self, value: &Value) -> (accepted: bool)
        ensures
            accepted == self.admits(value@),
    {
        match value {
            Value::Null => self.nullable(),
            _ => self.kind().accepts(value),
        }
    }

    /// Reads the field from the next cell of the row.
    pub fn deserialize(&self, row: &mut OffsetRow) -> (result: Result<Value, DecodeError>)
        ensures
            final(row).cells() == old(row).cells(),
            final(row).position() == old(row).position() + 1,
            read_view(result) == self.decoded(old(row).cells(), old(row).position()),
    {
        let ident = self.ident();
        match row.try_get_optional(ident.as_str(), self.kind()) {
            Ok(Some(value)) => Ok(value),
            Ok(None) => {
                if self.nullable() {
                    Ok(Value::Null)
                } else {
                    Err(DecodeError::ColumnNotFound(ident))
                }
            },
            Err(error) => Err(error),
        }
    }
}

/// Whether the database has a column type for each of the fields.
pub open spec fn all_stored(fields: Seq<Field>, database: Database) -> bool {
    forall|i: int| 0 <= i < fields.len() ==> database.stores((#[trigger] fields[i]).spec_kind())
}

/// Tests whether the database has a column type for each of the fields.
pub fn are_stored(fields: &Vec<Field>, database: Database) -> (stored: bool)
    ensures
        stored == all_stored(fields@, database),
{
    let mut i: usize = 0;
    while i < fields.len()
        invariant
            i <= fields.len(),
            forall|k: int| 0 <= k < i ==> database.stores((#[trigger] fields@[k]).spec_kind()),
        decreases fields.len() - i,
    {
        if !database.stores(fields[i].kind()) {
            return false;
        }
        i += 1;
    }
    true
}

/// Whether the fields are those that the declarations declare, one each.
pub open spec fn declared_fields(fields: Seq<Field>, declarations: Seq<FieldDeclaration>) -> bool {
    &&& fields.len() == declarations.len()
    &&& forall|i: int|
        0 <= i < fields.len() ==> (#[trigger] fields[i]).declared_by(i as nat, declarations[i])
}

impl Field {
    /// Whether the field is the one that a declaration declares in the
    /// given place: named as declared, or numbered by its place, and of
    /// the kind that the type of its column stands for.
    pub open spec fn declared_by(&self, index: nat, declaration: FieldDeclaration) -> bool {
        &&& stored_as(declaration.spec_stored_type()) == (self.spec_kind(), self.spec_nullable())
        &&& match declaration.ident {
            Some(name) => *self matches Field::Named { ident, .. } && ident@ == name@,
            None => *self matches Field::Numbered { index: number, .. } && number == index,
        }
    }

    /// Reads the field that a declaration declares in the given place.
    pub fn parse(index: usize, declaration: &FieldDeclaration) -> (field: Field)
        ensures
            field.declared_by(index as nat, *declaration),
    {
        let (kind, nullable) = storage(declaration.stored_type().as_str());
        match &declaration.ident {
            Some(name) => Field::Named { ident: name.clone(), kind, nullable },
            None => Field::Numbered { index, kind, nullable },
        }
    }
}

/// Reads the fields that the declarations declare, in order.
pub fn parse_fields(declarations: &Vec<FieldDeclaration>) -> (fields: Vec<Field>)
    ensures
        declared_fields(fields@, declarations@),
{
    let mut fields: Vec<Field> = Vec::new();
    let mut i: usize = 0;
    while i < declarations.len()
        invariant
            i <= declarations.len(),
            fields@.len() == i,
            forall|k: int|
                0 <= k < i ==> (#[trigger] fields@[k]).declared_by(k as nat, declarations@[k]),
        decreases declarations.len() - i,
    {
        fields.push(Field::parse(i, &declarations[i]));
        i += 1;
    }
    fields
}

} // verus!
