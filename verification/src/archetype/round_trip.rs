//! What is written of a record is read as the record.

use vstd::prelude::*;
use crate::archetype::decode::optional;
use crate::archetype::accept::lemma_members_admit;
use crate::archetype::write::lemma_members_removable;
use crate::archetype::{Archetype, Data, Member};
use crate::component::{
    component_of_nulls,
    component_round_trip,
    encoded_width,
    Component,
    ComponentData,
};
use crate::row::DecodeFailure;
use crate::value::{nulls, Cell};

verus! {

impl Archetype {
    /// Whether the archetype is missing where all of its cells are null:
    /// a component with a column that does not take null, or a record
    /// with a member that is missing there. What is optional is never
    /// missing, it is absent.
    pub open spec fn vanishes(&self) -> bool
        decreases self,
    {
        match self {
            Archetype::Component(component) => component.has_required_column(),
            Archetype::Optional(_) => false,
            Archetype::Struct(group) => Self::some_vanishes(group.fields@, group.fields@.len()),
            Archetype::Enum(_) => false,
        }
    }

    /// Whether one of the first `count` members is missing where all of
    /// its cells are null.
    pub open spec fn some_vanishes(members: Seq<Member>, count: nat) -> bool
        decreases members, count,
    {
        if count == 0 || count > members.len() {
            false
        } else {
            Self::some_vanishes(members, (count - 1) as nat) || members[count
                - 1].archetype.vanishes()
        }
    }

    /// Whether a record of the archetype can be told from its cells: a
    /// value of a well-formed component; something present that can be
    /// told, or something absent that would be missing; a record whose
    /// members' values can all be told. Which variant of a choice was
    /// written is told by which members are there, not by their cells.
    pub open spec fn tells(&self, record: Data) -> bool
        decreases self,
    {
        match self {
            Archetype::Component(component) => component.well_formed(),
            Archetype::Optional(inner) => match record {
                Data::Optional(Some(present)) => inner.tells(*present),
                _ => inner.vanishes(),
            },
            Archetype::Struct(group) => Self::members_tell(
                group.fields@,
                record->Struct_0,
                group.fields@.len(),
            ),
            Archetype::Enum(_) => false,
        }
    }

    /// Whether each of the first `count` records can be told from its
    /// cells as a value of the member of the same number.
    pub open spec fn members_tell(members: Seq<Member>, records: Seq<Data>, count: nat) -> bool
        decreases members, count,
    {
        if count == 0 || count > members.len() {
            true
        } else {
            Self::members_tell(members, records, (count - 1) as nat) && members[count
                - 1].archetype.tells(records[count - 1])
        }
    }
}

proof fn lemma_members_tell(members: Seq<Member>, records: Seq<Data>, count: nat, index: int)
    requires
        count <= members.len(),
        Archetype::members_tell(members, records, count),
        0 <= index < count,
    ensures
        members[index].archetype.tells(records[index]),
    decreases count,
{
    if index < count - 1 {
        lemma_members_tell(members, records, (count - 1) as nat, index);
    }
}

proof fn lemma_width_grows(members: Seq<Member>, fewer: nat, count: nat)
    requires
        fewer <= count <= members.len(),
    ensures
        Archetype::members_width(members, fewer) <= Archetype::members_width(members, count),
    decreases count,
{
    if fewer < count {
        lemma_width_grows(members, fewer, (count - 1) as nat);
    }
}

proof fn lemma_encoded_grows(members: Seq<Member>, records: Seq<Data>, fewer: nat, count: nat)
    requires
        fewer <= count <= members.len(),
    ensures
        Archetype::members_encoded(members, records, fewer).len() <= Archetype::members_encoded(
            members,
            records,
            count,
        ).len(),
        Archetype::members_encoded(members, records, count).subrange(
            0,
            Archetype::members_encoded(members, records, fewer).len() as int,
        ) == Archetype::members_encoded(members, records, fewer),
    decreases count,
{
    if fewer < count {
        lemma_encoded_grows(members, records, fewer, (count - 1) as nat);
    }
    assert(Archetype::members_encoded(members, records, count).subrange(
        0,
        Archetype::members_encoded(members, records, fewer).len() as int,
    ) =~= Archetype::members_encoded(members, records, fewer));
}

/// Where all of its cells are null, an archetype without a choice between
/// variants is missing if it vanishes, and is read if not.
pub proof fn archetype_of_nulls(archetype: Archetype, row: Seq<Cell>, position: nat)
    requires
        archetype.removable(),
        position + archetype.width() <= row.len(),
        forall|i: int| position <= i < position + archetype.width() ==> row[i] is Null,
    ensures
        archetype.vanishes() ==> archetype.decoded(row, position) matches Err(
            DecodeFailure::ColumnNotFound(_),
        ),
        !archetype.vanishes() ==> archetype.decoded(row, position) is Ok,
    decreases archetype,
{
    match archetype {
        Archetype::Component(component) => {
            component_of_nulls(component, row, position);
        },
        Archetype::Optional(inner) => {
            archetype_of_nulls(*inner, row, position);
        },
        Archetype::Struct(group) => {
            lemma_members_of_nulls(group.fields@, row, position, group.fields@.len());
        },
        Archetype::Enum(_) => {},
    }
}

proof fn lemma_members_of_nulls(members: Seq<Member>, row: Seq<Cell>, position: nat, count: nat)
    requires
        count <= members.len(),
        Archetype::members_removable(members, members.len()),
        position + Archetype::members_width(members, members.len()) <= row.len(),
        forall|i: int|
            position <= i < position + Archetype::members_width(members, members.len())
                ==> row[i] is Null,
    ensures
        Archetype::some_vanishes(members, count) ==> Archetype::members_decoded(
            members,
            row,
            position,
            count,
        ) matches Err(DecodeFailure::ColumnNotFound(_)),
        !Archetype::some_vanishes(members, count) ==> Archetype::members_decoded(
            members,
            row,
            position,
            count,
        ) is Ok,
    decreases members, count,
{
    if count > 0 {
        lemma_members_of_nulls(members, row, position, (count - 1) as nat);
        lemma_members_removable(members, members.len(), count - 1);
        lemma_width_grows(members, count, members.len());
        archetype_of_nulls(
            members[count - 1].archetype,
            row,
            position + Archetype::members_width(members, (count - 1) as nat),
        );
    }
}

/// The cells that a record is written as, which are the cells that a
/// fetch yields for an entity with the record, are read as the record if
/// the record can be told from its cells,
/// whatever stands before and after them in the row, and they are as many
/// as the archetype is wide. This holds of every archetype without a
/// choice between variants, however its records and optional parts are
/// nested.
pub proof fn archetype_round_trip(
    archetype: Archetype,
    record: Data,
    before: Seq<Cell>,
    after: Seq<Cell>,
)
    requires
        archetype.removable(),
        archetype.admits(record),
        archetype.tells(record),
    ensures
        archetype.encoded(record).len() == archetype.width(),
        archetype.decoded(before + archetype.encoded(record) + after, before.len()) == Ok::<
            Data,
            DecodeFailure,
        >(record),
    decreases archetype,
{
    let row = before + archetype.encoded(record) + after;
    match archetype {
        Archetype::Component(component) => {
            encoded_width(component, record->Component_0);
            component_round_trip(component, record->Component_0, before, after);
        },
        Archetype::Optional(inner) => {
            match record {
                Data::Optional(Some(present)) => {
                    archetype_round_trip(*inner, *present, before, after);
                    assert(optional(inner.decoded(row, before.len())) == Ok::<
                        Option<Data>,
                        DecodeFailure,
                    >(Some(*present)));
                },
                _ => {
                    archetype_of_nulls(*inner, row, before.len());
                },
            }
        },
        Archetype::Struct(group) => {
            lemma_members_round_trip(
                group.fields@,
                record->Struct_0,
                before,
                after,
                group.fields@.len(),
            );
            assert(record->Struct_0.take(group.fields@.len() as int) =~= record->Struct_0);
        },
        Archetype::Enum(_) => {},
    }
}

proof fn lemma_members_round_trip(
    members: Seq<Member>,
    records: Seq<Data>,
    before: Seq<Cell>,
    after: Seq<Cell>,
    count: nat,
)
    requires
        count <= members.len(),
        records.len() == members.len(),
        Archetype::members_removable(members, members.len()),
        Archetype::members_admit(members, records, members.len()),
        Archetype::members_tell(members, records, members.len()),
    ensures
        Archetype::members_encoded(members, records, count).len() == Archetype::members_width(
            members,
            count,
        ),
        Archetype::members_decoded(
            members,
            before + Archetype::members_encoded(members, records, members.len()) + after,
            before.len(),
            count,
        ) == Ok::<Seq<Data>, DecodeFailure>(records.take(count as int)),
    decreases members, count,
{
    let all = Archetype::members_encoded(members, records, members.len());
    let row = before + all + after;
    if count == 0 {
        assert(records.take(0) =~= Seq::<Data>::empty());
    } else {
        lemma_members_round_trip(members, records, before, after, (count - 1) as nat);
        lemma_members_removable(members, members.len(), count - 1);
        lemma_members_admit(members, records, members.len(), count - 1);
        lemma_members_tell(members, records, members.len(), count - 1);
        lemma_encoded_grows(members, records, (count - 1) as nat, members.len());
        lemma_encoded_grows(members, records, count, members.len());
        let earlier = Archetype::members_encoded(members, records, (count - 1) as nat);
        let own = members[count - 1].archetype.encoded(records[count - 1]);
        let later = all.subrange((earlier.len() + own.len()) as int, all.len() as int);
        assert(Archetype::members_encoded(members, records, count) == earlier + own);
        assert(all =~= earlier + own + later);
        assert(row =~= (before + earlier) + own + (later + after));
        archetype_round_trip(
            members[count - 1].archetype,
            records[count - 1],
            before + earlier,
            later + after,
        );
        assert(records.take(count as int) =~= records.take(count - 1).push(records[count - 1]));
    }
}

/// Of two optional components read side by side, the one that the entity
/// has is read as it was written, and the one that it lacks, whose cells
/// are all null, is read as absent: reading does not fail.
pub proof fn merge_null_padding(
    first: Member,
    second: Member,
    present: Component,
    absent: Component,
    value: ComponentData,
    before: Seq<Cell>,
    after: Seq<Cell>,
)
    requires
        first.archetype == Archetype::Optional(Box::new(Archetype::Component(present))),
        second.archetype == Archetype::Optional(Box::new(Archetype::Component(absent))),
        present.well_formed(),
        present.admits(value),
        absent.has_required_column(),
    ensures
        Archetype::members_decoded(
            seq![first, second],
            before + present.encoded(value) + nulls(absent.width()) + after,
            before.len(),
            2,
        ) == Ok::<Seq<Data>, DecodeFailure>(
            seq![Data::Optional(Some(Box::new(Data::Component(value)))), Data::Optional(None)],
        ),
{
    let members = seq![first, second];
    let present_value = Data::Optional(Some(Box::new(Data::Component(value))));
    let records = seq![present_value, Data::Optional(None)];
    assert(members[0] == first && members[1] == second);
    assert(records[0] == present_value && records[1] == Data::Optional(None));

    // Both members can be removed, admit their records, and tell them.
    assert(Archetype::Component(present).removable());
    assert(Archetype::Component(absent).removable());
    assert(first.archetype.removable() && second.archetype.removable());
    assert(Archetype::members_removable(members, 0));
    assert(Archetype::members_removable(members, 1));
    assert(Archetype::members_removable(members, 2));
    assert(Archetype::Component(present).admits(Data::Component(value)));
    assert(first.archetype.admits(present_value));
    assert(second.archetype.admits(Data::Optional(None)));
    assert(Archetype::members_admit(members, records, 0));
    assert(Archetype::members_admit(members, records, 1));
    assert(Archetype::members_admit(members, records, 2));
    assert(Archetype::Component(present).tells(Data::Component(value)));
    assert(first.archetype.tells(present_value));
    assert(Archetype::Component(absent).vanishes());
    assert(second.archetype.tells(Data::Optional(None)));
    assert(Archetype::members_tell(members, records, 0));
    assert(Archetype::members_tell(members, records, 1));
    assert(Archetype::members_tell(members, records, 2));

    // What they are written as is the value and then the nulls.
    assert(Archetype::Component(present).encoded(Data::Component(value)) == present.encoded(
        value,
    ));
    assert(first.archetype.encoded(present_value) == present.encoded(value));
    assert(Archetype::Component(absent).width() == absent.width());
    assert(second.archetype.encoded(Data::Optional(None)) == nulls(absent.width()));
    assert(Archetype::members_encoded(members, records, 0) =~= Seq::<Cell>::empty());
    assert(Archetype::members_encoded(members, records, 1) =~= present.encoded(value));
    assert(Archetype::members_encoded(members, records, 2) =~= present.encoded(value) + nulls(
        absent.width(),
    ));

    lemma_members_round_trip(members, records, before, after, 2);
    assert(records.take(2) =~= records);
    assert(before + Archetype::members_encoded(members, records, members.len()) + after
        =~= before + present.encoded(value) + nulls(absent.width()) + after);
}

} // verus!
