//! Reading archetypes from a row.

use vstd::prelude::*;
use crate::archetype::{
    data,
    lemma_data_push,
    member_names,
    name_members,
    Archetype,
    Data,
    EnumArchetype,
    Member,
    Record,
    StructArchetype,
    Variant,
};
use crate::cte::holds;
use crate::row::{DecodeError, DecodeFailure, OffsetRow};
use crate::text::{find, first_index, lemma_first_index, texts};
use crate::value::Cell;

verus! {

/// What a result of decoding a record holds.
pub open spec fn record_view(result: Result<Record, DecodeError>) -> Result<Data, DecodeFailure> {
    match result {
        Ok(record) => Ok(record@),
        Err(error) => Err(error@),
    }
}

/// What a result of decoding several records holds.
pub open spec fn records_view(result: Result<Vec<Record>, DecodeError>) -> Result<
    Seq<Data>,
    DecodeFailure,
> {
    match result {
        Ok(records) => Ok(data(records@, records@.len())),
        Err(error) => Err(error@),
    }
}

/// What an optional record holds.
pub open spec fn found_view(found: Option<Record>) -> Option<Data> {
    match found {
        Some(record) => Some(record@),
        None => None,
    }
}

/// What the first `count` optional records hold.
pub open spec fn found_data(found: Seq<Option<Record>>, count: nat) -> Seq<Option<Data>>
    decreases count,
{
    if count == 0 || count > found.len() {
        Seq::empty()
    } else {
        found_data(found, (count - 1) as nat).push(found_view(found[count - 1]))
    }
}

/// Something that may be absent, read from the row: absent where the
/// thing itself is missing, a failure where it fails otherwise.
pub open spec fn optional(
    result: Result<Data, DecodeFailure>,
) -> Result<Option<Data>, DecodeFailure> {
    match result {
        Ok(inner) => Ok(Some(inner)),
        Err(DecodeFailure::ColumnNotFound(_)) => Ok(None),
        Err(failure) => Err(failure),
    }
}

/// Whether a variant is the one that was found: its fields are members,
/// and the members that were found are exactly its fields.
pub open spec fn fits(variant: Variant, names: Seq<Seq<char>>, found: Seq<Option<Data>>) -> bool {
    &&& forall|i: int|
        0 <= i < variant.fields@.len() ==> names.contains(#[trigger] texts(variant.fields@)[i])
    &&& forall|j: int|
        0 <= j < names.len() ==> ((#[trigger] found[j]) is Some <==> texts(
            variant.fields@,
        ).contains(names[j]))
}

/// The number of the first variant from the given one on that fits, or
/// the number of variants if none does.
pub open spec fn first_fit(
    variants: Seq<Variant>,
    names: Seq<Seq<char>>,
    found: Seq<Option<Data>>,
    from: nat,
) -> nat
    decreases variants.len() - from,
{
    if from >= variants.len() {
        variants.len()
    } else if fits(variants[from as int], names, found) {
        from
    } else {
        first_fit(variants, names, found, from + 1)
    }
}

/// The values of a variant's first `count` fields, taken from what was
/// found of the members.
pub open spec fn taken(
    fields: Seq<Seq<char>>,
    names: Seq<Seq<char>>,
    found: Seq<Option<Data>>,
    count: nat,
) -> Seq<Data>
    decreases count,
{
    if count == 0 || count > fields.len() {
        Seq::empty()
    } else {
        taken(fields, names, found, (count - 1) as nat).push(
            found[first_index(names, fields[count - 1])]->Some_0,
        )
    }
}

impl Archetype {
    /// What reading the archetype from a row gives, its first column at
    /// the given position.
    ///
    /// A component is read as it reads itself. Something optional is
    /// absent where it is missing. A record's members are read one after
    /// the other, and the first that fails gives the failure. Of a choice
    /// every member is read as optional, and the first variant whose
    /// fields are exactly the members found is the value.
    pub open spec fn decoded(&self, row: Seq<Cell>, position: nat) -> Result<Data, DecodeFailure>
        decreases self,
    {
        match self {
            Archetype::Component(component) => match component.decoded(row, position) {
                Ok(value) => Ok(Data::Component(value)),
                Err(failure) => Err(failure),
            },
            Archetype::Optional(inner) => match optional(inner.decoded(row, position)) {
                Ok(Some(value)) => Ok(Data::Optional(Some(Box::new(value)))),
                Ok(None) => Ok(Data::Optional(None)),
                Err(failure) => Err(failure),
            },
            Archetype::Struct(record) => match Self::members_decoded(
                record.fields@,
                row,
                position,
                record.fields@.len(),
            ) {
                Ok(fields) => Ok(Data::Struct(fields)),
                Err(failure) => Err(failure),
            },
            Archetype::Enum(choice) => match Self::members_scanned(
                choice.members@,
                row,
                position,
                choice.members@.len(),
            ) {
                Err(failure) => Err(failure),
                Ok(found) => {
                    let names = member_names(choice.members@);
                    let index = first_fit(choice.variants@, names, found, 0);
                    if index < choice.variants@.len() {
                        Ok(
                            Data::Enum {
                                variant: choice.variants@[index as int].ident@,
                                fields: taken(
                                    texts(choice.variants@[index as int].fields@),
                                    names,
                                    found,
                                    choice.variants@[index as int].fields@.len(),
                                ),
                            },
                        )
                    } else {
                        Err(DecodeFailure::UnknownVariant(choice.typename@))
                    }
                },
            },
        }
    }

    /// What reading the first `count` members gives, the first of them at
    /// the given position: their values, or the failure of the first
    /// member that fails.
    pub open spec fn members_decoded(
        members: Seq<Member>,
        row: Seq<Cell>,
        position: nat,
        count: nat,
    ) -> Result<Seq<Data>, DecodeFailure>
        decreases members, count,
    {
        if count == 0 || count > members.len() {
            Ok(Seq::empty())
        } else {
            match Self::members_decoded(members, row, position, (count - 1) as nat) {
                Err(failure) => Err(failure),
                Ok(values) => match members[count - 1].archetype.decoded(
                    row,
                    position + Self::members_width(members, (count - 1) as nat),
                ) {
                    Err(failure) => Err(failure),
                    Ok(value) => Ok(values.push(value)),
                },
            }
        }
    }

    /// What reading the first `count` members as optional gives, the
    /// first of them at the given position: what was found of each, or
    /// the failure of the first member that fails otherwise than by
    /// being missing.
    pub open spec fn members_scanned(
        members: Seq<Member>,
        row: Seq<Cell>,
        position: nat,
        count: nat,
    ) -> Result<Seq<Option<Data>>, DecodeFailure>
        decreases members, count,
    {
        if count == 0 || count > members.len() {
            Ok(Seq::empty())
        } else {
            match Self::members_scanned(members, row, position, (count - 1) as nat) {
                Err(failure) => Err(failure),
                Ok(found) => match optional(
                    members[count - 1].archetype.decoded(
                        row,
                        position + Self::members_width(members, (count - 1) as nat),
                    ),
                ) {
                    Err(failure) => Err(failure),
                    Ok(value) => Ok(found.push(value)),
                },
            }
        }
    }
}

pub(crate) proof fn lemma_found_data(found: Seq<Option<Record>>, count: nat)
    requires
        count <= found.len(),
    ensures
        found_data(found, count).len() == count,
        forall|i: int|
            0 <= i < count ==> (#[trigger] found_data(found, count)[i]) == found_view(found[i]),
    decreases count,
{
    if count > 0 {
        lemma_found_data(found, (count - 1) as nat);
    }
}

pub(crate) proof fn lemma_found_data_push(
    found: Seq<Option<Record>>,
    last: Option<Record>,
    count: nat,
)
    requires
        count <= found.len(),
    ensures
        found_data(found.push(last), count) == found_data(found, count),
        count == found.len() ==> found_data(found.push(last), count + 1) == found_data(
            found,
            count,
        ).push(found_view(last)),
    decreases count,
{
    if count > 0 {
        lemma_found_data_push(found, last, (count - 1) as nat);
    }
}

/// Reads the members one after the other. Every member's cells are read,
/// whether an earlier member failed or not.
pub fn decode_members(members: &Vec<Member>, row: &mut OffsetRow) -> (result: Result<
    Vec<Record>,
    DecodeError,
>)
    ensures
        final(row).cells() == old(row).cells(),
        final(row).position() == old(row).position() + Archetype::members_width(
            members@,
            members@.len(),
        ),
        records_view(result) == Archetype::members_decoded(
            members@,
            old(row).cells(),
            old(row).position(),
            members@.len(),
        ),
    decreases members,
{
    let mut values: Vec<Record> = Vec::new();
    let mut failure: Option<DecodeError> = None;
    let mut i: usize = 0;
    while i < members.len()
        invariant
            i <= members.len(),
            row.cells() == old(row).cells(),
            row.position() == old(row).position() + Archetype::members_width(members@, i as nat),
            failure is None ==> values@.len() == i,
            match failure {
                Some(error) => Archetype::members_decoded(
                    members@,
                    old(row).cells(),
                    old(row).position(),
                    i as nat,
                ) == Err::<Seq<Data>, DecodeFailure>(error@),
                None => Archetype::members_decoded(
                    members@,
                    old(row).cells(),
                    old(row).position(),
                    i as nat,
                ) == Ok::<Seq<Data>, DecodeFailure>(data(values@, i as nat)),
            },
        decreases members.len() - i,
    {
        let read = members[i].archetype.component_deserializer(row);
        if failure.is_none() {
            match read {
                Ok(value) => {
                    proof {
                        lemma_data_push(values@, value, i as nat);
                    }
                    values.push(value);
                },
                Err(error) => {
                    failure = Some(error);
                },
            }
        }
        i += 1;
    }
    match failure {
        Some(error) => Err(error),
        None => Ok(values),
    }
}

/// Reads the members one after the other as optional. Every member's
/// cells are read, whether an earlier member failed or not.
pub fn scan_members(members: &Vec<Member>, row: &mut OffsetRow) -> (result: Result<
    Vec<Option<Record>>,
    DecodeError,
>)
    ensures
        final(row).cells() == old(row).cells(),
        final(row).position() == old(row).position() + Archetype::members_width(
            members@,
            members@.len(),
        ),
        match result {
            Ok(found) => found@.len() == members@.len() && Archetype::members_scanned(
                members@,
                old(row).cells(),
                old(row).position(),
                members@.len(),
            ) == Ok::<Seq<Option<Data>>, DecodeFailure>(found_data(found@, found@.len())),
            Err(error) => Archetype::members_scanned(
                members@,
                old(row).cells(),
                old(row).position(),
                members@.len(),
            ) == Err::<Seq<Option<Data>>, DecodeFailure>(error@),
        },
    decreases members,
{
    let mut found: Vec<Option<Record>> = Vec::new();
    let mut failure: Option<DecodeError> = None;
    let mut i: usize = 0;
    while i < members.len()
        invariant
            i <= members.len(),
            row.cells() == old(row).cells(),
            row.position() == old(row).position() + Archetype::members_width(members@, i as nat),
            failure is None ==> found@.len() == i,
            match failure {
                Some(error) => Archetype::members_scanned(
                    members@,
                    old(row).cells(),
                    old(row).position(),
                    i as nat,
                ) == Err::<Seq<Option<Data>>, DecodeFailure>(error@),
                None => Archetype::members_scanned(
                    members@,
                    old(row).cells(),
                    old(row).position(),
                    i as nat,
                ) == Ok::<Seq<Option<Data>>, DecodeFailure>(found_data(found@, i as nat)),
            },
        decreases members.len() - i,
    {
        let read = members[i].archetype.component_deserializer(row);
        if failure.is_none() {
            match read {
                Ok(value) => {
                    proof {
                        lemma_found_data_push(found@, Some(value), i as nat);
                    }
                    found.push(Some(value));
                },
                Err(DecodeError::ColumnNotFound(_)) => {
                    proof {
                        lemma_found_data_push(found@, None, i as nat);
                    }
                    found.push(None);
                },
                Err(error) => {
                    failure = Some(error);
                },
            }
        }
        i += 1;
    }
    match failure {
        Some(error) => Err(error),
        None => Ok(found),
    }
}

/// Tests whether a variant is the one that was found.
fn variant_fits(variant: &Variant, names: &Vec<String>, found: &Vec<Option<Record>>) -> (fitting:
    bool)
    requires
        names@.len() == found@.len(),
    ensures
        fitting == fits(*variant, texts(names@), found_data(found@, found@.len())),
{
    proof {
        lemma_found_data(found@, found@.len());
    }
    let mut i: usize = 0;
    while i < variant.fields.len()
        invariant
            i <= variant.fields.len(),
            forall|k: int|
                0 <= k < i ==> texts(names@).contains(#[trigger] texts(variant.fields@)[k]),
        decreases variant.fields.len() - i,
    {
        if !holds(names, &variant.fields[i]) {
            assert(!texts(names@).contains(texts(variant.fields@)[i as int]));
            return false;
        }
        i += 1;
    }
    let mut j: usize = 0;
    while j < names.len()
        invariant
            j <= names.len(),
            names@.len() == found@.len(),
            found_data(found@, found@.len()).len() == found@.len(),
            forall|k: int|
                0 <= k < found@.len() ==> (#[trigger] found_data(found@, found@.len())[k])
                    == found_view(found@[k]),
            forall|k: int|
                0 <= k < j ==> ((#[trigger] found_data(found@, found@.len())[k]) is Some
                    <==> texts(variant.fields@).contains(texts(names@)[k])),
        decreases names.len() - j,
    {
        let listed = holds(&variant.fields, &names[j]);
        if found[j].is_some() != listed {
            assert(!(found_data(found@, found@.len())[j as int] is Some <==> texts(
                variant.fields@,
            ).contains(texts(names@)[j as int])));
            return false;
        }
        j += 1;
    }
    true
}

impl StructArchetype {
    /// Reads the members from the row, in their order.
    pub fn component_deserializer(&self, row: &mut OffsetRow) -> (result: Result<
        Vec<Record>,
        DecodeError,
    >)
        ensures
            final(row).cells() == old(row).cells(),
            final(row).position() == old(row).position() + Archetype::members_width(
                self.fields@,
                self.fields@.len(),
            ),
            records_view(result) == Archetype::members_decoded(
                self.fields@,
                old(row).cells(),
                old(row).position(),
                self.fields@.len(),
            ),
        decreases self,
    {
        decode_members(&self.fields, row)
    }
}

impl EnumArchetype {
    /// Reads every member from the row as optional, and gives the first
    /// variant whose fields are exactly the members found.
    pub fn component_deserializer(&self, row: &mut OffsetRow) -> (result: Result<
        Record,
        DecodeError,
    >)
        ensures
            final(row).cells() == old(row).cells(),
            final(row).position() == old(row).position() + Archetype::members_width(
                self.members@,
                self.members@.len(),
            ),
            record_view(result) == Archetype::Enum(*self).decoded(
                old(row).cells(),
                old(row).position(),
            ),
        decreases self,
    {
        let found = match scan_members(&self.members, row) {
            Err(error) => {
                return Err(error);
            },
            Ok(found) => found,
        };
        let names = name_members(&self.members);
        let ghost seen = found_data(found@, found@.len());
        proof {
            lemma_found_data(found@, found@.len());
        }
        let mut k: usize = 0;
        let mut fitting = false;
        while k < self.variants.len() && !fitting
            invariant
                k <= self.variants.len(),
                names@.len() == found@.len(),
                seen == found_data(found@, found@.len()),
                fitting ==> k < self.variants.len() && fits(
                    self.variants@[k as int],
                    texts(names@),
                    seen,
                ),
                first_fit(self.variants@, texts(names@), seen, 0) == first_fit(
                    self.variants@,
                    texts(names@),
                    seen,
                    k as nat,
                ),
            decreases self.variants.len() - k + if fitting { 0int } else { 1int },
        {
            if variant_fits(&self.variants[k], &names, &found) {
                fitting = true;
            } else {
                k += 1;
            }
        }
        if !fitting {
            return Err(DecodeError::UnknownVariant(self.typename.clone()));
        }
        let variant = &self.variants[k];
        let mut values: Vec<Record> = Vec::new();
        let mut i: usize = 0;
        while i < variant.fields.len()
            invariant
                i <= variant.fields.len(),
                values@.len() == i,
                names@.len() == found@.len(),
                seen == found_data(found@, found@.len()),
                seen.len() == found@.len(),
                forall|j: int|
                    0 <= j < found@.len() ==> (#[trigger] seen[j]) == found_view(found@[j]),
                fits(*variant, texts(names@), seen),
                data(values@, i as nat) == taken(
                    texts(variant.fields@),
                    texts(names@),
                    seen,
                    i as nat,
                ),
            decreases variant.fields.len() - i,
        {
            let at = find(&names, &variant.fields[i]);
            proof {
                // The field is a member, so it is found among the names;
                // and the member found there is a field of the variant,
                // so it was read.
                lemma_first_index(texts(names@), variant.fields@[i as int]@);
                assert(texts(names@).contains(texts(variant.fields@)[i as int]));
                let witness = choose|w: int|
                    0 <= w < texts(names@).len() && texts(names@)[w] == texts(
                        variant.fields@,
                    )[i as int];
                assert(at <= witness);
                assert(texts(variant.fields@).contains(texts(names@)[at as int]));
                assert(seen[at as int] is Some);
            }
            let value = match &found[at] {
                Some(record) => record.copy(),
                None => vstd::pervasive::unreached(),
            };
            proof {
                lemma_data_push(values@, value, i as nat);
            }
            values.push(value);
            i += 1;
        }
        Ok(Record::Enum { variant: variant.ident.clone(), fields: values })
    }
}

impl Archetype {
    /// Reads the archetype from the row. As many cells are read as the
    /// archetype has columns, whether the reading succeeds or not.
    pub fn component_deserializer(&self, row: &mut OffsetRow) -> (result: Result<
        Record,
        DecodeError,
    >)
        ensures
            final(row).cells() == old(row).cells(),
            final(row).position() == old(row).position() + self.width(),
            record_view(result) == self.decoded(old(row).cells(), old(row).position()),
        decreases self,
    {
        match self {
            Archetype::Component(component) => match component.field_deserializer(row) {
                Ok(value) => Ok(Record::Component(value)),
                Err(error) => Err(error),
            },
            Archetype::Optional(inner) => match inner.component_deserializer(row) {
                Ok(value) => Ok(Record::Optional(Some(Box::new(value)))),
                Err(DecodeError::ColumnNotFound(_)) => Ok(Record::Optional(None)),
                Err(error) => Err(error),
            },
            Archetype::Struct(record) => match record.component_deserializer(row) {
                Ok(fields) => Ok(Record::Struct(fields)),
                Err(error) => Err(error),
            },
            Archetype::Enum(choice) => choice.component_deserializer(row),
        }
    }
}

} // verus!
