//! Writing and removing archetypes: one statement for each component.

use vstd::prelude::*;
use crate::archetype::accept::{lemma_choice_admits, lemma_members_admit};
use crate::archetype::{
    data,
    lemma_data,
    member_names,
    name_members,
    Archetype,
    Data,
    Member,
    Record,
    RemoveError,
    StructArchetype,
    Variant,
};
use crate::component::{delete_sql, insert_sql, update_sql};
use crate::entity::{EntityPrefixedQuery, Statement};
use crate::text::{find, first_index, texts};
use crate::value::Cell;

verus! {

/// The names of the variants, in order.
pub open spec fn variant_idents(variants: Seq<Variant>) -> Seq<Seq<char>> {
    Seq::new(variants.len(), |i: int| variants[i].ident@)
}

/// The smaller of two numbers.
pub open spec fn least(a: nat, b: nat) -> nat {
    if a <= b {
        a
    } else {
        b
    }
}

impl Archetype {
    /// The statements that write a record for an entity: one for each
    /// component that the record holds, in the order of the archetype's
    /// members, the entity bound first in each. What is absent writes
    /// nothing, and so does a record that is not of the archetype's
    /// shape.
    pub open spec fn written(&self, record: Data, update: bool, character: char, entity: Cell)
        -> Seq<Statement>
        decreases self,
    {
        match self {
            Archetype::Component(component) => match record {
                Data::Component(value) => seq![
                    Statement {
                        sql: if update {
                            update_sql(
                                component.spec_table(),
                                component.spec_columns(),
                                character,
                            )
                        } else {
                            insert_sql(
                                component.spec_table(),
                                component.spec_columns(),
                                character,
                            )
                        },
                        bound: seq![entity] + component.encoded(value),
                    },
                ],
                _ => Seq::empty(),
            },
            Archetype::Optional(inner) => match record {
                Data::Optional(Some(present)) => inner.written(*present, update, character, entity),
                _ => Seq::empty(),
            },
            Archetype::Struct(group) => match record {
                Data::Struct(fields) => Self::members_written(
                    group.fields@,
                    fields,
                    update,
                    character,
                    entity,
                    least(group.fields@.len(), fields.len()),
                ),
                _ => Seq::empty(),
            },
            Archetype::Enum(choice) => match record {
                Data::Enum { variant, fields } => {
                    let index = first_index(variant_idents(choice.variants@), variant);
                    if index < choice.variants@.len() {
                        Self::choice_written(
                            choice.members@,
                            texts(choice.variants@[index].fields@),
                            fields,
                            update,
                            character,
                            entity,
                            least(choice.variants@[index].fields@.len(), fields.len()),
                        )
                    } else {
                        Seq::empty()
                    }
                },
                _ => Seq::empty(),
            },
        }
    }

    /// The statements that write the first `count` members' records.
    pub open spec fn members_written(
        members: Seq<Member>,
        records: Seq<Data>,
        update: bool,
        character: char,
        entity: Cell,
        count: nat,
    ) -> Seq<Statement>
        decreases members, count,
    {
        if count == 0 || count > members.len() {
            Seq::empty()
        } else {
            Self::members_written(members, records, update, character, entity, (count - 1) as nat)
                + members[count - 1].archetype.written(
                records[count - 1],
                update,
                character,
                entity,
            )
        }
    }

    /// The statements that write the records of a variant's first `count`
    /// fields, each as the member of the field's name.
    pub open spec fn choice_written(
        members: Seq<Member>,
        fields: Seq<Seq<char>>,
        records: Seq<Data>,
        update: bool,
        character: char,
        entity: Cell,
        count: nat,
    ) -> Seq<Statement>
        decreases members, count,
    {
        if count == 0 || count > fields.len() {
            Seq::empty()
        } else {
            let index = first_index(member_names(members), fields[count - 1]);
            Self::choice_written(
                members,
                fields,
                records,
                update,
                character,
                entity,
                (count - 1) as nat,
            ) + if 0 <= index < members.len() {
                members[index].archetype.written(records[count - 1], update, character, entity)
            } else {
                Seq::empty()
            }
        }
    }

    /// Whether the archetype can be removed: it is no choice between
    /// variants, and holds none.
    pub open spec fn removable(&self) -> bool
        decreases self,
    {
        match self {
            Archetype::Component(_) => true,
            Archetype::Optional(inner) => inner.removable(),
            Archetype::Struct(group) => Self::members_removable(
                group.fields@,
                group.fields@.len(),
            ),
            Archetype::Enum(_) => false,
        }
    }

    /// Whether the first `count` members can be removed.
    pub open spec fn members_removable(members: Seq<Member>, count: nat) -> bool
        decreases members, count,
    {
        if count == 0 || count > members.len() {
            true
        } else {
            Self::members_removable(members, (count - 1) as nat) && members[count
                - 1].archetype.removable()
        }
    }

    /// The statements that remove the archetype from an entity: one for
    /// each component, in the order of the members, the entity bound in
    /// each.
    pub open spec fn removed(&self, character: char, entity: Cell) -> Seq<Statement>
        decreases self,
    {
        match self {
            Archetype::Component(component) => seq![
                Statement {
                    sql: delete_sql(component.spec_table(), character),
                    bound: seq![entity],
                },
            ],
            Archetype::Optional(inner) => inner.removed(character, entity),
            Archetype::Struct(group) => Self::members_removed(
                group.fields@,
                character,
                entity,
                group.fields@.len(),
            ),
            Archetype::Enum(_) => Seq::empty(),
        }
    }

    /// The statements that remove the first `count` members.
    pub open spec fn members_removed(
        members: Seq<Member>,
        character: char,
        entity: Cell,
        count: nat,
    ) -> Seq<Statement>
        decreases members, count,
    {
        if count == 0 || count > members.len() {
            Seq::empty()
        } else {
            Self::members_removed(members, character, entity, (count - 1) as nat) + members[count
                - 1].archetype.removed(character, entity)
        }
    }
}

pub(crate) proof fn lemma_members_removable(members: Seq<Member>, count: nat, index: int)
    requires
        count <= members.len(),
        Archetype::members_removable(members, count),
        0 <= index < count,
    ensures
        members[index].archetype.removable(),
    decreases count,
{
    if index < count - 1 {
        lemma_members_removable(members, (count - 1) as nat, index);
    }
}

pub(crate) proof fn lemma_members_not_removable(members: Seq<Member>, count: nat, index: int)
    requires
        count <= members.len(),
        0 <= index < count,
        !members[index].archetype.removable(),
    ensures
        !Archetype::members_removable(members, count),
    decreases count,
{
    if index < count - 1 {
        lemma_members_not_removable(members, (count - 1) as nat, index);
    }
}

/// Writes the names of the variants.
pub fn name_variants(variants: &Vec<Variant>) -> (names: Vec<String>)
    ensures
        texts(names@) == variant_idents(variants@),
{
    let mut names: Vec<String> = Vec::new();
    let mut i: usize = 0;
    while i < variants.len()
        invariant
            i <= variants.len(),
            texts(names@) == variant_idents(variants@).take(i as int),
        decreases variants.len() - i,
    {
        let name = variants[i].ident.clone();
        proof {
            assert(variant_idents(variants@).take(i as int).push(name@) =~= variant_idents(
                variants@,
            ).take(i as int + 1));
        }
        names.push(name);
        i += 1;
    }
    names
}

/// Adds the statements that write the members' records.
fn write_members(
    members: &Vec<Member>,
    records: &Vec<Record>,
    update: bool,
    placeholder_char: char,
    query: &mut EntityPrefixedQuery,
)
    requires
        members@.len() == records@.len(),
        Archetype::members_admit(members@, data(records@, records@.len()), members@.len()),
    ensures
        final(query).entity() == old(query).entity(),
        final(query).queries() == old(query).queries() + Archetype::members_written(
            members@,
            data(records@, records@.len()),
            update,
            placeholder_char,
            old(query).entity(),
            least(members@.len(), records@.len()),
        ),
    decreases members,
{
    let count = if members.len() <= records.len() {
        members.len()
    } else {
        records.len()
    };
    let ghost held = data(records@, records@.len());
    proof {
        lemma_data(records@, records@.len());
    }
    let mut i: usize = 0;
    while i < count
        invariant
            i <= count,
            count == least(members@.len(), records@.len()),
            members@.len() == records@.len(),
            Archetype::members_admit(members@, held, members@.len()),
            held == data(records@, records@.len()),
            forall|k: int| 0 <= k < records@.len() ==> (#[trigger] held[k]) == records@[k]@,
            query.entity() == old(query).entity(),
            query.queries() == old(query).queries() + Archetype::members_written(
                members@,
                held,
                update,
                placeholder_char,
                old(query).entity(),
                i as nat,
            ),
        decreases count - i,
    {
        proof {
            lemma_members_admit(members@, held, members@.len(), i as int);
        }
        members[i].archetype.write(&records[i], update, placeholder_char, query);
        i += 1;
    }
}

/// Adds the statements that write a variant's records.
fn write_choice(
    members: &Vec<Member>,
    fields: &Vec<String>,
    records: &Vec<Record>,
    update: bool,
    placeholder_char: char,
    query: &mut EntityPrefixedQuery,
)
    requires
        fields@.len() == records@.len(),
        Archetype::choice_admits(
            members@,
            texts(fields@),
            data(records@, records@.len()),
            fields@.len(),
        ),
    ensures
        final(query).entity() == old(query).entity(),
        final(query).queries() == old(query).queries() + Archetype::choice_written(
            members@,
            texts(fields@),
            data(records@, records@.len()),
            update,
            placeholder_char,
            old(query).entity(),
            least(fields@.len(), records@.len()),
        ),
    decreases members,
{
    let count = if fields.len() <= records.len() {
        fields.len()
    } else {
        records.len()
    };
    let names = name_members(members);
    let ghost held = data(records@, records@.len());
    proof {
        lemma_data(records@, records@.len());
    }
    let mut i: usize = 0;
    while i < count
        invariant
            i <= count,
            count == least(fields@.len(), records@.len()),
            fields@.len() == records@.len(),
            Archetype::choice_admits(members@, texts(fields@), held, fields@.len()),
            texts(names@) == member_names(members@),
            names@.len() == members@.len(),
            held == data(records@, records@.len()),
            forall|k: int| 0 <= k < records@.len() ==> (#[trigger] held[k]) == records@[k]@,
            query.entity() == old(query).entity(),
            query.queries() == old(query).queries() + Archetype::choice_written(
                members@,
                texts(fields@),
                held,
                update,
                placeholder_char,
                old(query).entity(),
                i as nat,
            ),
        decreases count - i,
    {
        let at = find(&names, &fields[i]);
        proof {
            lemma_choice_admits(members@, texts(fields@), held, fields@.len(), i as int);
        }
        members[at].archetype.write(&records[i], update, placeholder_char, query);
        i += 1;
    }
}

/// Tests whether the members can be removed.
pub fn members_are_removable(members: &Vec<Member>) -> (removable: bool)
    ensures
        removable == Archetype::members_removable(members@, members@.len()),
    decreases members,
{
    let mut i: usize = 0;
    while i < members.len()
        invariant
            i <= members.len(),
            Archetype::members_removable(members@, i as nat),
        decreases members.len() - i,
    {
        if !members[i].archetype.is_removable() {
            proof {
                lemma_members_not_removable(members@, members@.len(), i as int);
            }
            return false;
        }
        i += 1;
    }
    true
}

/// Adds the statements that remove the members.
fn remove_members(members: &Vec<Member>, placeholder_char: char, query: &mut EntityPrefixedQuery)
    requires
        Archetype::members_removable(members@, members@.len()),
    ensures
        final(query).entity() == old(query).entity(),
        final(query).queries() == old(query).queries() + Archetype::members_removed(
            members@,
            placeholder_char,
            old(query).entity(),
            members@.len(),
        ),
    decreases members,
{
    let mut i: usize = 0;
    while i < members.len()
        invariant
            i <= members.len(),
            Archetype::members_removable(members@, members@.len()),
            query.entity() == old(query).entity(),
            query.queries() == old(query).queries() + Archetype::members_removed(
                members@,
                placeholder_char,
                old(query).entity(),
                i as nat,
            ),
        decreases members.len() - i,
    {
        proof {
            lemma_members_removable(members@, members@.len(), i as int);
        }
        members[i].archetype.remove_all(placeholder_char, query);
        i += 1;
    }
}

impl Archetype {
    /// Adds the statements that write a record for the entity: inserts,
    /// or updates if asked so. The record is a value of the archetype:
    /// [`Archetype::accepts`] tests that.
    pub fn write(
        &self,
        record: &Record,
        update: bool,
        placeholder_char: char,
        query: &mut EntityPrefixedQuery,
    )
        requires
            self.admits(record@),
        ensures
            final(query).entity() == old(query).entity(),
            final(query).queries() == old(query).queries() + self.written(
                record@,
                update,
                placeholder_char,
                old(query).entity(),
            ),
        decreases self,
    {
        match self {
            Archetype::Component(component) => match record {
                Record::Component(value) => {
                    if update {
                        component.update(value, placeholder_char, query);
                    } else {
                        component.insert(value, placeholder_char, query);
                    }
                },
                _ => vstd::pervasive::unreached(),
            },
            Archetype::Optional(inner) => match record {
                Record::Optional(Some(present)) => {
                    inner.write(present, update, placeholder_char, query);
                },
                Record::Optional(None) => {},
                _ => vstd::pervasive::unreached(),
            },
            Archetype::Struct(group) => match record {
                Record::Struct(fields) => {
                    proof {
                        lemma_data(fields@, fields@.len());
                    }
                    write_members(&group.fields, fields, update, placeholder_char, query);
                },
                _ => vstd::pervasive::unreached(),
            },
            Archetype::Enum(choice) => match record {
                Record::Enum { variant, fields } => {
                    let names = name_variants(&choice.variants);
                    let index = find(&names, variant);
                    proof {
                        lemma_data(fields@, fields@.len());
                    }
                    write_choice(
                        &choice.members,
                        &choice.variants[index].fields,
                        fields,
                        update,
                        placeholder_char,
                        query,
                    );
                },
                _ => vstd::pervasive::unreached(),
            },
        }
    }

    /// Adds the statements that store a record for the entity.
    pub fn insert(&self, record: &Record, placeholder_char: char, query: &mut EntityPrefixedQuery)
        requires
            self.admits(record@),
        ensures
            final(query).entity() == old(query).entity(),
            final(query).queries() == old(query).queries() + self.written(
                record@,
                false,
                placeholder_char,
                old(query).entity(),
            ),
    {
        self.write(record, false, placeholder_char, query)
    }

    /// Adds the statements that replace the entity's rows by a record.
    pub fn update(&self, record: &Record, placeholder_char: char, query: &mut EntityPrefixedQuery)
        requires
            self.admits(record@),
        ensures
            final(query).entity() == old(query).entity(),
            final(query).queries() == old(query).queries() + self.written(
                record@,
                true,
                placeholder_char,
                old(query).entity(),
            ),
    {
        self.write(record, true, placeholder_char, query)
    }

    /// Tests whether the archetype can be removed.
    pub fn is_removable(&self) -> (removable: bool)
        ensures
            removable == self.removable(),
        decreases self,
    {
        match self {
            Archetype::Component(_) => true,
            Archetype::Optional(inner) => inner.is_removable(),
            Archetype::Struct(group) => members_are_removable(&group.fields),
            Archetype::Enum(_) => false,
        }
    }

    /// Adds the statements that remove an archetype that can be removed.
    pub fn remove_all(&self, placeholder_char: char, query: &mut EntityPrefixedQuery)
        requires
            self.removable(),
        ensures
            final(query).entity() == old(query).entity(),
            final(query).queries() == old(query).queries() + self.removed(
                placeholder_char,
                old(query).entity(),
            ),
        decreases self,
    {
        match self {
            Archetype::Component(component) => {
                component.remove(placeholder_char, query);
            },
            Archetype::Optional(inner) => {
                inner.remove_all(placeholder_char, query);
            },
            Archetype::Struct(group) => {
                remove_members(&group.fields, placeholder_char, query);
            },
            Archetype::Enum(_) => {},
        }
    }

    /// Adds the statements that remove the archetype from the entity, if
    /// it can be removed; adds none and fails if it cannot.
    pub fn remove(&self, placeholder_char: char, query: &mut EntityPrefixedQuery) -> (result:
        Result<(), RemoveError>)
        ensures
            final(query).entity() == old(query).entity(),
            result is Ok <==> self.removable(),
            result is Ok ==> final(query).queries() == old(query).queries() + self.removed(
                placeholder_char,
                old(query).entity(),
            ),
            result is Err ==> final(query).queries() == old(query).queries(),
    {
        if self.is_removable() {
            self.remove_all(placeholder_char, query);
            Ok(())
        } else {
            Err(RemoveError::EnumArchetype)
        }
    }
}

impl StructArchetype {
    /// Adds the statements that remove the members from the entity, if
    /// all of them can be removed; adds none and fails if not.
    pub fn remove(&self, placeholder_char: char, query: &mut EntityPrefixedQuery) -> (result:
        Result<(), RemoveError>)
        ensures
            final(query).entity() == old(query).entity(),
            result is Ok <==> Archetype::members_removable(self.fields@, self.fields@.len()),
            result is Ok ==> final(query).queries() == old(query).queries()
                + Archetype::members_removed(
                self.fields@,
                placeholder_char,
                old(query).entity(),
                self.fields@.len(),
            ),
            result is Err ==> final(query).queries() == old(query).queries(),
    {
        if members_are_removable(&self.fields) {
            remove_members(&self.fields, placeholder_char, query);
            Ok(())
        } else {
            Err(RemoveError::EnumArchetype)
        }
    }
}

} // verus!
