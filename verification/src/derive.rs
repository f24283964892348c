//! The derives: from a declaration to what the declared type is for each
//! database.

use vstd::prelude::*;
use crate::archetype::{Archetype, ArchetypeImplementation};
use crate::component::{implement_for, Component, Derived};
use crate::declaration::{DeriveInput, ParseError};
use crate::driver::Database;

verus! {

/// Derives the component that a declaration declares, for each of the
/// databases. Fails if the declaration cannot be read.
pub fn derive_component(input: &DeriveInput, databases: &Vec<Database>) -> (result: Result<
    (Component, Derived),
    ParseError,
>)
    requires
        !(input.body is Union),
    ensures
        result is Err <==> Component::refused(*input) is Some,
        result matches Err(error) ==> Component::refused(*input) == Some(error@),
        result matches Ok((component, derived)) ==> component.declared_by(*input)
            && component.derived_as(derived, databases@),
{
    match Component::parse(input) {
        Err(error) => Err(error),
        Ok(component) => {
            let derived = component.derive(databases);
            Ok((component, derived))
        },
    }
}

/// Derives the archetype that a declaration declares, for each of the
/// databases. The archetypes of the fields' types are given, one for each
/// field.
pub fn derive_archetype(input: &DeriveInput, resolved: Vec<Archetype>, databases: &Vec<Database>)
    -> (derived: (Archetype, Vec<ArchetypeImplementation>))
    requires
        Archetype::declarable(*input, resolved@),
    ensures
        derived.0.declared_by(*input, resolved@),
        derived.1@.len() == databases@.len(),
        forall|i: int|
            0 <= i < databases@.len() ==> {
                &&& (#[trigger] derived.1@[i]).database == databases@[i]
                &&& derived.1@[i].cte@ == derived.0.spec_cte()
                &&& derived.1@[i].removable == derived.0.removable()
            },
{
    let archetype = Archetype::parse(input, resolved);
    let implementer = |database: Database, placeholder_char: char| -> (implementation:
        ArchetypeImplementation)
        ensures
            implementation.database == database,
            implementation.cte@ == archetype.spec_cte(),
            implementation.removable == archetype.removable(),
        {
            archetype.implementation(database)
        };
    let implementations = implement_for(databases, &implementer);
    (archetype, implementations)
}

} // verus!
