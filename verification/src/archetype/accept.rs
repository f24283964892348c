//! Which records are values of an archetype.

use vstd::prelude::*;
use crate::archetype::write::{name_variants, variant_idents};
use crate::archetype::{data, lemma_data, member_names, name_members, Archetype, Data, Member, Record};
use crate::text::{distinct, find, first_index, texts};

verus! {

impl Archetype {
    /// Whether a record is a value of the archetype: a value of a
    /// component; something absent, or something present that is a value;
    /// one value for each member of a record; the values of the fields of
    /// a variant, each a value of the member that the field names, where
    /// no two members have one name.
    pub open spec fn admits(&self, record: Data) -> bool
        decreases self,
    {
        match self {
            Archetype::Component(component) => record matches Data::Component(value)
                && component.admits(value),
            Archetype::Optional(inner) => match record {
                Data::Optional(Some(present)) => inner.admits(*present),
                Data::Optional(None) => true,
                _ => false,
            },
            Archetype::Struct(group) => record matches Data::Struct(fields) && fields.len()
                == group.fields@.len() && Self::members_admit(
                group.fields@,
                fields,
                group.fields@.len(),
            ),
            Archetype::Enum(choice) => record matches Data::Enum { variant, fields } && {
                let index = first_index(variant_idents(choice.variants@), variant);
                &&& distinct(member_names(choice.members@))
                &&& 0 <= index < choice.variants@.len()
                &&& fields.len() == choice.variants@[index].fields@.len()
                &&& Self::choice_admits(
                    choice.members@,
                    texts(choice.variants@[index].fields@),
                    fields,
                    fields.len(),
                )
            },
        }
    }

    /// Whether each of the first `count` records is a value of the member
    /// of the same number.
    pub open spec fn members_admit(members: Seq<Member>, records: Seq<Data>, count: nat) -> bool
        decreases members, count,
    {
        if count == 0 || count > members.len() {
            true
        } else {
            Self::members_admit(members, records, (count - 1) as nat) && members[count
                - 1].archetype.admits(records[count - 1])
        }
    }

    /// Whether each of the first `count` records is a value of the member
    /// that the field of the same number names.
    pub open spec fn choice_admits(
        members: Seq<Member>,
        fields: Seq<Seq<char>>,
        records: Seq<Data>,
        count: nat,
    ) -> bool
        decreases members, count,
    {
        if count == 0 || count > fields.len() {
            true
        } else {
            let index = first_index(member_names(members), fields[count - 1]);
            &&& Self::choice_admits(members, fields, records, (count - 1) as nat)
            &&& 0 <= index < members.len()
            &&& members[index].archetype.admits(records[count - 1])
        }
    }
}

pub(crate) proof fn lemma_members_admit(
    members: Seq<Member>,
    records: Seq<Data>,
    count: nat,
    index: int,
)
    requires
        count <= members.len(),
        0 <= index < count,
    ensures
        Archetype::members_admit(members, records, count)
            ==> members[index].archetype.admits(records[index]),
    decreases count,
{
    if index < count - 1 {
        lemma_members_admit(members, records, (count - 1) as nat, index);
    }
}

pub(crate) proof fn lemma_choice_admits(
    members: Seq<Member>,
    fields: Seq<Seq<char>>,
    records: Seq<Data>,
    count: nat,
    index: int,
)
    requires
        count <= fields.len(),
        0 <= index < count,
    ensures
        Archetype::choice_admits(members, fields, records, count) ==> {
            &&& 0 <= first_index(member_names(members), fields[index]) < members.len()
            &&& members[first_index(member_names(members), fields[index])].archetype.admits(
                records[index],
            )
        },
    decreases count,
{
    if index < count - 1 {
        lemma_choice_admits(members, fields, records, (count - 1) as nat, index);
    }
}

/// Tests whether each record is a value of the member of the same number.
fn accept_members(members: &Vec<Member>, records: &Vec<Record>) -> (accepted: bool)
    requires
        members@.len() == records@.len(),
    ensures
        accepted == Archetype::members_admit(
            members@,
            data(records@, records@.len()),
            members@.len(),
        ),
    decreases members,
{
    let ghost held = data(records@, records@.len());
    proof {
        lemma_data(records@, records@.len());
    }
    let mut i: usize = 0;
    while i < members.len()
        invariant
            i <= members.len(),
            members@.len() == records@.len(),
            held == data(records@, records@.len()),
            forall|k: int| 0 <= k < records@.len() ==> (#[trigger] held[k]) == records@[k]@,
            Archetype::members_admit(members@, held, i as nat),
        decreases members.len() - i,
    {
        if !members[i].archetype.accepts(&records[i]) {
            proof {
                lemma_members_admit(members@, held, members@.len(), i as int);
            }
            return false;
        }
        i += 1;
    }
    true
}

/// Tests whether each record is a value of the member that the field of
/// the same number names.
fn accept_choice(members: &Vec<Member>, fields: &Vec<String>, records: &Vec<Record>) -> (accepted:
    bool)
    requires
        fields@.len() == records@.len(),
    ensures
        accepted == Archetype::choice_admits(
            members@,
            texts(fields@),
            data(records@, records@.len()),
            fields@.len(),
        ),
    decreases members,
{
    let names = name_members(members);
    let ghost held = data(records@, records@.len());
    proof {
        lemma_data(records@, records@.len());
        assert(texts(names@).len() == names@.len());
    }
    let mut i: usize = 0;
    while i < fields.len()
        invariant
            i <= fields.len(),
            fields@.len() == records@.len(),
            texts(names@) == member_names(members@),
            names@.len() == members@.len(),
            held == data(records@, records@.len()),
            forall|k: int| 0 <= k < records@.len() ==> (#[trigger] held[k]) == records@[k]@,
            Archetype::choice_admits(members@, texts(fields@), held, i as nat),
        decreases fields.len() - i,
    {
        let at = find(&names, &fields[i]);
        if at >= members.len() || !members[at].archetype.accepts(&records[i]) {
            proof {
                lemma_choice_admits(members@, texts(fields@), held, fields@.len(), i as int);
            }
            return false;
        }
        i += 1;
    }
    true
}

impl Archetype {
    /// Tests whether the record is a value of the archetype.
    pub fn accepts(&self, record: &Record) -> (accepted: bool)
        ensures
            accepted == self.admits(record@),
        decreases self,
    {
        match self {
            Archetype::Component(component) => match record {
                Record::Component(value) => component.accepts(value),
                _ => false,
            },
            Archetype::Optional(inner) => match record {
                Record::Optional(Some(present)) => inner.accepts(present),
                Record::Optional(None) => true,
                _ => false,
            },
            Archetype::Struct(group) => match record {
                Record::Struct(fields) => {
                    proof {
                        lemma_data(fields@, fields@.len());
                    }
                    fields.len() == group.fields.len() && accept_members(&group.fields, fields)
                },
                _ => false,
            },
            Archetype::Enum(choice) => match record {
                Record::Enum { variant, fields } => {
                    let names = name_variants(&choice.variants);
                    let index = find(&names, variant);
                    proof {
                        lemma_data(fields@, fields@.len());
                    }
                    let members = name_members(&choice.members);
                    crate::text::all_distinct(&members) && index < choice.variants.len()
                        && fields.len() == choice.variants[index].fields.len() && accept_choice(
                        &choice.members,
                        &choice.variants[index].fields,
                        fields,
                    )
                },
                _ => false,
            },
        }
    }
}

} // verus!
