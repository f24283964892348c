//! Binding records to a statement, component by component.

use vstd::prelude::*;
use crate::archetype::write::{name_variants, variant_idents};
use crate::archetype::accept::{lemma_choice_admits, lemma_members_admit};
use crate::archetype::{data, lemma_data, member_names, Archetype, Data, Member, Record};
use crate::entity::Query;
use crate::text::{distinct, find, first_index, texts};
use crate::value::{nulls, Cell};

verus! {

impl Archetype {
    /// What writing a record binds, which is what a fetch yields for an
    /// entity with the record, after the entity: what a component's value
    /// is written as; nulls for what is absent; the cells of a record's
    /// members one after the other; and for a variant the cells of the
    /// members that are its fields, with nulls for the others.
    pub open spec fn encoded(&self, record: Data) -> Seq<Cell>
        decreases self,
    {
        match self {
            Archetype::Component(component) => match record {
                Data::Component(value) => component.encoded(value),
                _ => Seq::empty(),
            },
            Archetype::Optional(inner) => match record {
                Data::Optional(Some(present)) => inner.encoded(*present),
                _ => nulls(inner.width()),
            },
            Archetype::Struct(group) => match record {
                Data::Struct(fields) => Self::members_encoded(
                    group.fields@,
                    fields,
                    group.fields@.len(),
                ),
                _ => Seq::empty(),
            },
            Archetype::Enum(choice) => match record {
                Data::Enum { variant, fields } => {
                    let index = first_index(variant_idents(choice.variants@), variant);
                    if 0 <= index < choice.variants@.len() {
                        Self::choice_encoded(
                            choice.members@,
                            texts(choice.variants@[index].fields@),
                            fields,
                            choice.members@.len(),
                        )
                    } else {
                        Seq::empty()
                    }
                },
                _ => Seq::empty(),
            },
        }
    }

    /// What the first `count` members bind, each with the record of the
    /// same number.
    pub open spec fn members_encoded(members: Seq<Member>, records: Seq<Data>, count: nat) -> Seq<
        Cell,
    >
        decreases members, count,
    {
        if count == 0 || count > members.len() {
            Seq::empty()
        } else {
            Self::members_encoded(members, records, (count - 1) as nat) + members[count
                - 1].archetype.encoded(records[count - 1])
        }
    }

    /// What the first `count` members bind when a variant is written: a
    /// member that is a field of the variant binds the field's record,
    /// any other binds nulls.
    pub open spec fn choice_encoded(
        members: Seq<Member>,
        fields: Seq<Seq<char>>,
        records: Seq<Data>,
        count: nat,
    ) -> Seq<Cell>
        decreases members, count,
    {
        if count == 0 || count > members.len() {
            Seq::empty()
        } else {
            let index = first_index(fields, members[count - 1].name@);
            Self::choice_encoded(members, fields, records, (count - 1) as nat) + if 0 <= index
                < fields.len() && index < records.len() {
                members[count - 1].archetype.encoded(records[index])
            } else {
                nulls(members[count - 1].archetype.width())
            }
        }
    }
}

/// Binds null for every column of the members.
fn bind_absent_members(members: &Vec<Member>, query: Query) -> (bound: Query)
    ensures
        bound@.sql == query@.sql,
        bound@.bound == query@.bound + nulls(
            Archetype::members_width(members@, members@.len()),
        ),
    decreases members,
{
    let mut bound = query;
    let mut i: usize = 0;
    while i < members.len()
        invariant
            i <= members.len(),
            bound@.sql == query@.sql,
            bound@.bound == query@.bound + nulls(Archetype::members_width(members@, i as nat)),
        decreases members.len() - i,
    {
        bound = members[i].archetype.bind_absent(bound);
        i += 1;
    }
    bound
}

/// Binds the members' records, each member with the record of the same
/// number.
fn serialize_members(members: &Vec<Member>, records: &Vec<Record>, query: Query) -> (bound: Query)
    requires
        members@.len() == records@.len(),
        Archetype::members_admit(members@, data(records@, records@.len()), members@.len()),
    ensures
        bound@.sql == query@.sql,
        bound@.bound == query@.bound + Archetype::members_encoded(
            members@,
            data(records@, records@.len()),
            members@.len(),
        ),
    decreases members,
{
    let ghost held = data(records@, records@.len());
    proof {
        lemma_data(records@, records@.len());
    }
    let mut bound = query;
    let mut i: usize = 0;
    while i < members.len()
        invariant
            i <= members.len(),
            members@.len() == records@.len(),
            Archetype::members_admit(members@, held, members@.len()),
            held == data(records@, records@.len()),
            held.len() == records@.len(),
            forall|k: int| 0 <= k < records@.len() ==> (#[trigger] held[k]) == records@[k]@,
            bound@.sql == query@.sql,
            bound@.bound == query@.bound + Archetype::members_encoded(members@, held, i as nat),
        decreases members.len() - i,
    {
        proof {
            lemma_members_admit(members@, held, members@.len(), i as int);
        }
        bound = members[i].archetype.serialize(&records[i], bound);
        i += 1;
    }
    bound
}

/// Binds what the members bind when a variant with the given fields is
/// written.
fn serialize_choice(
    members: &Vec<Member>,
    fields: &Vec<String>,
    records: &Vec<Record>,
    query: Query,
) -> (bound: Query)
    requires
        fields@.len() == records@.len(),
        distinct(member_names(members@)),
        Archetype::choice_admits(
            members@,
            texts(fields@),
            data(records@, records@.len()),
            fields@.len(),
        ),
    ensures
        bound@.sql == query@.sql,
        bound@.bound == query@.bound + Archetype::choice_encoded(
            members@,
            texts(fields@),
            data(records@, records@.len()),
            members@.len(),
        ),
    decreases members,
{
    let ghost held = data(records@, records@.len());
    proof {
        lemma_data(records@, records@.len());
    }
    let mut bound = query;
    let mut i: usize = 0;
    while i < members.len()
        invariant
            i <= members.len(),
            fields@.len() == records@.len(),
            distinct(member_names(members@)),
            Archetype::choice_admits(members@, texts(fields@), held, fields@.len()),
            held == data(records@, records@.len()),
            held.len() == records@.len(),
            forall|k: int| 0 <= k < records@.len() ==> (#[trigger] held[k]) == records@[k]@,
            bound@.sql == query@.sql,
            bound@.bound == query@.bound + Archetype::choice_encoded(
                members@,
                texts(fields@),
                held,
                i as nat,
            ),
        decreases members.len() - i,
    {
        let at = find(fields, &members[i].name);
        if at < fields.len() && at < records.len() {
            proof {
                // The member is the first of its name, or the field would
                // name an earlier one; so the field's record is its value.
                crate::text::lemma_first_index(texts(fields@), members@[i as int].name@);
                lemma_choice_admits(members@, texts(fields@), held, fields@.len(), at as int);
                assert forall|e: int| 0 <= e < i implies member_names(members@)[e]
                    != members@[i as int].name@ by {
                    assert(member_names(members@)[e] != member_names(members@)[i as int]);
                }
                crate::text::lemma_first_index_is(
                    member_names(members@),
                    members@[i as int].name@,
                    i as int,
                );
            }
            bound = members[i].archetype.serialize(&records[at], bound);
        } else {
            bound = members[i].archetype.bind_absent(bound);
        }
        i += 1;
    }
    bound
}

impl Archetype {
    /// Binds null for every column of the archetype: what is written of
    /// something that is absent.
    pub fn bind_absent(&self, query: Query) -> (bound: Query)
        ensures
            bound@.sql == query@.sql,
            bound@.bound == query@.bound + nulls(self.width()),
        decreases self,
    {
        match self {
            Archetype::Component(component) => component.bind_absent(query),
            Archetype::Optional(inner) => inner.bind_absent(query),
            Archetype::Struct(group) => bind_absent_members(&group.fields, query),
            Archetype::Enum(choice) => bind_absent_members(&choice.members, query),
        }
    }

    /// Binds a record to the next parameters: the values of its
    /// components in the order of the archetype's members, and null for
    /// every column of what is absent. As many values are bound as the
    /// archetype is wide, whatever is absent.
    pub fn serialize(&self, record: &Record, query: Query) -> (bound: Query)
        requires
            self.admits(record@),
        ensures
            bound@.sql == query@.sql,
            bound@.bound == query@.bound + self.encoded(record@),
        decreases self,
    {
        match self {
            Archetype::Component(component) => match record {
                Record::Component(value) => component.field_serializer(value, query),
                _ => vstd::pervasive::unreached(),
            },
            Archetype::Optional(inner) => match record {
                Record::Optional(Some(present)) => inner.serialize(present, query),
                _ => inner.bind_absent(query),
            },
            Archetype::Struct(group) => match record {
                Record::Struct(fields) => {
                    proof {
                        lemma_data(fields@, fields@.len());
                    }
                    serialize_members(&group.fields, fields, query)
                },
                _ => vstd::pervasive::unreached(),
            },
            Archetype::Enum(choice) => match record {
                Record::Enum { variant, fields } => {
                    let names = name_variants(&choice.variants);
                    let index = find(&names, variant);
                    proof {
                        lemma_data(fields@, fields@.len());
                    }
                    serialize_choice(
                        &choice.members,
                        &choice.variants[index].fields,
                        fields,
                        query,
                    )
                },
                _ => vstd::pervasive::unreached(),
            },
        }
    }
}

} // verus!
