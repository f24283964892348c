//! The columns of a component by name, for writing conditions.

use vstd::prelude::*;
use crate::component::struct_component::{column_names, StructComponent};
use crate::condition::{Condition, Operator};
use crate::cte::{alias_of, aliases};
use crate::field::Field;
use crate::value::Value;

verus! {

/// A column as a table expression yields it.
#[derive(Debug)]
pub struct ReflectedColumn {
    pub name: String,
}

/// A field of a component and the column that holds it.
#[derive(Debug)]
pub struct ReflectedField {
    pub field: String,
    pub column: ReflectedColumn,
}

/// The columns of a component, one for each field.
#[derive(Debug)]
pub struct Reflection {
    pub name: String,
    pub fields: Vec<ReflectedField>,
}

impl ReflectedColumn {
    /// The column of the given name.
    pub fn new(name: &str) -> (column: ReflectedColumn)
        ensures
            column.name@ == name@,
    {
        ReflectedColumn { name: String::from_str(name) }
    }

    /// The condition that compares the column with a value.
    pub fn compare(&self, operator: Operator, value: Value) -> (condition: Condition)
        ensures
            condition matches Condition::Compare { column: c, operator: o, value: v } && c@
                == self.name@ && o == operator && v == value,
    {
        Condition::compare(self.name.as_str(), operator, value)
    }

    /// The condition that the column equals a value.
    pub fn equals(&self, value: Value) -> (condition: Condition)
        ensures
            condition matches Condition::Compare { column: c, operator: o, value: v } && c@
                == self.name@ && o == Operator::Equal && v == value,
    {
        self.compare(Operator::Equal, value)
    }

    /// The condition that the column is less than a value.
    pub fn less_than(&self, value: Value) -> (condition: Condition)
        ensures
            condition matches Condition::Compare { column: c, operator: o, value: v } && c@
                == self.name@ && o == Operator::LessThan && v == value,
    {
        self.compare(Operator::LessThan, value)
    }

    /// The condition that the column is a value or less.
    pub fn less_than_or_equals(&self, value: Value) -> (condition: Condition)
        ensures
            condition matches Condition::Compare { column: c, operator: o, value: v } && c@
                == self.name@ && o == Operator::LessThanOrEqual && v == value,
    {
        self.compare(Operator::LessThanOrEqual, value)
    }

    /// The condition that the column is greater than a value.
    pub fn greater_than(&self, value: Value) -> (condition: Condition)
        ensures
            condition matches Condition::Compare { column: c, operator: o, value: v } && c@
                == self.name@ && o == Operator::GreaterThan && v == value,
    {
        self.compare(Operator::GreaterThan, value)
    }

    /// The condition that the column is a value or greater.
    pub fn greater_than_or_equals(&self, value: Value) -> (condition: Condition)
        ensures
            condition matches Condition::Compare { column: c, operator: o, value: v } && c@
                == self.name@ && o == Operator::GreaterThanOrEqual && v == value,
    {
        self.compare(Operator::GreaterThanOrEqual, value)
    }
}

/// The names of the fields as code binds them, in order.
pub open spec fn field_names(fields: Seq<Field>) -> Seq<Seq<char>> {
    Seq::new(fields.len(), |i: int| fields[i].spec_field_name())
}

/// The names of the reflected fields, in order.
pub open spec fn reflected_fields(fields: Seq<ReflectedField>) -> Seq<Seq<char>> {
    Seq::new(fields.len(), |i: int| fields[i].field@)
}

/// The names of the reflected columns, in order.
pub open spec fn reflected_columns(fields: Seq<ReflectedField>) -> Seq<Seq<char>> {
    Seq::new(fields.len(), |i: int| fields[i].column.name@)
}

impl Reflection {
    /// The reflected column of the field of the given name: the first, if
    /// several have it.
    pub fn column(&self, field: &str) -> (column: Option<&ReflectedColumn>)
        ensures
            match column {
                Some(found) => exists|i: int|
                    0 <= i < self.fields@.len() && self.fields@[i].field@ == field@
                        && self.fields@[i].column == *found && forall|k: int|
                        0 <= k < i ==> self.fields@[k].field@ != field@,
                None => forall|i: int|
                    0 <= i < self.fields@.len() ==> self.fields@[i].field@ != field@,
            },
    {
        let wanted = String::from_str(field);
        let mut i: usize = 0;
        while i < self.fields.len()
            invariant
                i <= self.fields.len(),
                wanted@ == field@,
                forall|k: int| 0 <= k < i ==> self.fields@[k].field@ != field@,
            decreases self.fields.len() - i,
        {
            if self.fields[i].field == wanted {
                return Some(&self.fields[i].column);
            }
            i += 1;
        }
        None
    }
}

/// Reflects a component: its type's name with `Reflected` before it, and
/// for each field the column under which the component's table
/// expression yields it.
pub fn reflect_component(component: &StructComponent) -> (reflection: Reflection)
    ensures
        reflection.name@ == "Reflected"@ + component.typename@,
        reflected_fields(reflection.fields@) == field_names(component.fields@),
        reflected_columns(reflection.fields@) == aliases(
            component.spec_table(),
            column_names(component.fields@),
        ),
{
    let table = component.table();
    let mut fields: Vec<ReflectedField> = Vec::new();
    let ghost names = field_names(component.fields@);
    let ghost columns = aliases(component.spec_table(), column_names(component.fields@));
    let mut i: usize = 0;
    while i < component.fields.len()
        invariant
            i <= component.fields.len(),
            table@ == component.spec_table(),
            names == field_names(component.fields@),
            columns == aliases(component.spec_table(), column_names(component.fields@)),
            reflected_fields(fields@) == names.take(i as int),
            reflected_columns(fields@) == columns.take(i as int),
        decreases component.fields.len() - i,
    {
        let field = &component.fields[i];
        let stringified = alias_of(table.as_str(), field.column_name().as_str());
        let reflected = ReflectedField {
            field: field.field_name(),
            column: ReflectedColumn::new(stringified.as_str()),
        };
        proof {
            assert(columns.take(i as int + 1) =~= columns.take(i as int).push(
                columns[i as int],
            ));
        }
        fields.push(reflected);
        i += 1;
    }
    Reflection { name: String::from_str("Reflected").concat(component.typename.as_str()), fields }
}

/// The columns that a component reflects are the columns that its table
/// expression yields: a condition written with them names columns that
/// the statement has.
pub proof fn reflection_names_fetched_columns(component: StructComponent, reflection: Reflection)
    requires
        reflected_columns(reflection.fields@) == aliases(
            component.spec_table(),
            column_names(component.fields@),
        ),
    ensures
        reflected_columns(reflection.fields@) == component.spec_cte().columns(),
{
}

} // verus!
