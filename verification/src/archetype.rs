//! Archetypes: records assembled from the components of one entity.

pub mod accept;
pub mod decode;
pub mod parse;
pub mod round_trip;
pub mod serialize;
pub mod write;

use vstd::prelude::*;
use crate::component::{Component, ComponentData, ComponentValue};
use crate::cte::{expressions, lemma_expressions_push, CommonTableExpression, TableExpression};
use crate::driver::Database;
use crate::text::{texts};

verus! {

/// A named part of an archetype.
#[derive(Debug)]
pub struct Member {
    pub name: String,
    pub archetype: Archetype,
}

/// An archetype that holds all of its members.
#[derive(Debug)]
pub struct StructArchetype {
    pub typename: String,
    pub fields: Vec<Member>,
}

/// One variant of an [`EnumArchetype`]: its fields are named members of
/// the archetype.
#[derive(Debug)]
pub struct Variant {
    pub ident: String,
    pub fields: Vec<String>,
}

/// An archetype that is one of several variants, told apart by which of
/// the members an entity has. A member that several variants share is
/// held once.
#[derive(Debug)]
pub struct EnumArchetype {
    pub typename: String,
    pub members: Vec<Member>,
    pub variants: Vec<Variant>,
}

/// What can be fetched for an entity: a component, something that may be
/// absent, or a record of either kind.
#[derive(Debug)]
pub enum Archetype {
    Component(Component),
    Optional(Box<Archetype>),
    Struct(StructArchetype),
    Enum(EnumArchetype),
}

/// Why an archetype cannot be removed.
#[derive(Debug, Clone, Copy, PartialEq, Eq, Structural)]
pub enum RemoveError {
    /// The archetype is, or holds, a choice between variants: which rows
    /// belong to it cannot be told.
    EnumArchetype,
}

/// A value of an archetype.
#[derive(Debug)]
pub enum Record {
    Component(ComponentValue),
    Optional(Option<Box<Record>>),
    Struct(Vec<Record>),
    Enum { variant: String, fields: Vec<Record> },
}

/// What a [`Record`] holds.
pub enum Data {
    Component(ComponentData),
    Optional(Option<Box<Data>>),
    Struct(Seq<Data>),
    Enum { variant: Seq<char>, fields: Seq<Data> },
}

/// What the first `count` records hold.
pub open spec fn data(records: Seq<Record>, count: nat) -> Seq<Data>
    decreases records, count,
{
    if count == 0 || count > records.len() {
        Seq::empty()
    } else {
        data(records, (count - 1) as nat).push(records[count - 1].held())
    }
}

impl Record {
    /// What the record holds.
    pub open spec fn held(&self) -> Data
        decreases self,
    {
        match self {
            Record::Component(value) => Data::Component(value@),
            Record::Optional(None) => Data::Optional(None),
            Record::Optional(Some(inner)) => Data::Optional(Some(Box::new(inner.held()))),
            Record::Struct(fields) => Data::Struct(data(fields@, fields@.len())),
            Record::Enum { variant, fields } => Data::Enum {
                variant: variant@,
                fields: data(fields@, fields@.len()),
            },
        }
    }
}

impl View for Record {
    type V = Data;

    open spec fn view(&self) -> Data {
        self.held()
    }
}

/// The names of the members, in order.
pub open spec fn member_names(members: Seq<Member>) -> Seq<Seq<char>> {
    Seq::new(members.len(), |i: int| members[i].name@)
}

impl Archetype {
    /// The number of columns that the archetype takes in a row.
    pub open spec fn width(&self) -> nat
        decreases self,
    {
        match self {
            Archetype::Component(component) => component.width(),
            Archetype::Optional(inner) => inner.width(),
            Archetype::Struct(record) => Self::members_width(record.fields@, record.fields@.len()),
            Archetype::Enum(choice) => Self::members_width(
                choice.members@,
                choice.members@.len(),
            ),
        }
    }

    /// The number of columns that the first `count` members take
    /// together.
    pub open spec fn members_width(members: Seq<Member>, count: nat) -> nat
        decreases members, count,
    {
        if count == 0 || count > members.len() {
            0
        } else {
            Self::members_width(members, (count - 1) as nat) + members[count - 1].archetype.width()
        }
    }

    /// The table expression that fetches the archetype: a component's
    /// own, and for a record the merge of its members' expressions in the
    /// members' order.
    pub open spec fn spec_cte(&self) -> TableExpression
        decreases self,
    {
        match self {
            Archetype::Component(component) => component.spec_cte(),
            Archetype::Optional(inner) => inner.spec_cte(),
            Archetype::Struct(record) => TableExpression::Merge {
                tables: Self::members_cte(record.fields@, record.fields@.len()),
            },
            Archetype::Enum(choice) => TableExpression::Merge {
                tables: Self::members_cte(choice.members@, choice.members@.len()),
            },
        }
    }

    /// The table expressions that fetch the first `count` members.
    pub open spec fn members_cte(members: Seq<Member>, count: nat) -> Seq<TableExpression>
        decreases members, count,
    {
        if count == 0 || count > members.len() {
            Seq::empty()
        } else {
            Self::members_cte(members, (count - 1) as nat).push(
                members[count - 1].archetype.spec_cte(),
            )
        }
    }

    /// Whether the archetype can be fetched: a record has at least one
    /// member.
    pub open spec fn well_formed(&self) -> bool
        decreases self,
    {
        match self {
            Archetype::Component(_) => true,
            Archetype::Optional(inner) => inner.well_formed(),
            Archetype::Struct(record) => record.fields@.len() > 0 && Self::members_well_formed(
                record.fields@,
                record.fields@.len(),
            ),
            Archetype::Enum(choice) => choice.members@.len() > 0 && Self::members_well_formed(
                choice.members@,
                choice.members@.len(),
            ),
        }
    }

    /// Whether the first `count` members can be fetched.
    pub open spec fn members_well_formed(members: Seq<Member>, count: nat) -> bool
        decreases members, count,
    {
        if count == 0 || count > members.len() {
            true
        } else {
            Self::members_well_formed(members, (count - 1) as nat) && members[count
                - 1].archetype.well_formed()
        }
    }
}

pub(crate) proof fn lemma_data(records: Seq<Record>, count: nat)
    requires
        count <= records.len(),
    ensures
        data(records, count).len() == count,
        forall|i: int| 0 <= i < count ==> (#[trigger] data(records, count)[i]) == records[i]@,
    decreases count,
{
    if count > 0 {
        lemma_data(records, (count - 1) as nat);
    }
}

pub(crate) proof fn lemma_data_push(records: Seq<Record>, last: Record, count: nat)
    requires
        count <= records.len(),
    ensures
        data(records.push(last), count) == data(records, count),
        count == records.len() ==> data(records.push(last), count + 1) == data(
            records,
            count,
        ).push(last@),
    decreases count,
{
    if count > 0 {
        lemma_data_push(records, last, (count - 1) as nat);
    }
}

impl Record {
    /// A copy of the record.
    pub fn copy(&self) -> (copy: Record)
        ensures
            copy@ == self@,
        decreases self,
    {
        match self {
            Record::Component(value) => Record::Component(value.clone()),
            Record::Optional(None) => Record::Optional(None),
            Record::Optional(Some(inner)) => Record::Optional(Some(Box::new(inner.copy()))),
            Record::Struct(fields) => Record::Struct(copy_records(fields)),
            Record::Enum { variant, fields } => Record::Enum {
                variant: variant.clone(),
                fields: copy_records(fields),
            },
        }
    }
}

/// Copies the records.
pub fn copy_records(records: &Vec<Record>) -> (copies: Vec<Record>)
    ensures
        data(copies@, copies@.len()) == data(records@, records@.len()),
        copies@.len() == records@.len(),
    decreases records,
{
    let mut copies: Vec<Record> = Vec::new();
    let mut i: usize = 0;
    while i < records.len()
        invariant
            i <= records.len(),
            copies@.len() == i,
            data(copies@, i as nat) == data(records@, i as nat),
        decreases records.len() - i,
    {
        let copy = records[i].copy();
        proof {
            lemma_data_push(copies@, copy, i as nat);
        }
        copies.push(copy);
        i += 1;
    }
    copies
}

impl Record {
    /// Tests whether two records hold the same.
    pub fn same(&self, other: &Record) -> (same: bool)
        ensures
            same == (self@ == other@),
        decreases self,
    {
        match self {
            Record::Component(value) => match other {
                Record::Component(others) => *value == *others,
                _ => false,
            },
            Record::Optional(None) => match other {
                Record::Optional(None) => true,
                _ => false,
            },
            Record::Optional(Some(inner)) => match other {
                Record::Optional(Some(others)) => inner.same(others),
                _ => false,
            },
            Record::Struct(fields) => match other {
                Record::Struct(others) => same_records(fields, others),
                _ => false,
            },
            Record::Enum { variant, fields } => match other {
                Record::Enum { variant: name, fields: others } => *variant == *name
                    && same_records(fields, others),
                _ => false,
            },
        }
    }
}

/// Tests whether two lists of records hold the same.
pub fn same_records(a: &Vec<Record>, b: &Vec<Record>) -> (same: bool)
    ensures
        same == (data(a@, a@.len()) == data(b@, b@.len())),
    decreases a,
{
    proof {
        lemma_data(a@, a@.len());
        lemma_data(b@, b@.len());
    }
    if a.len() != b.len() {
        return false;
    }
    let mut i: usize = 0;
    while i < a.len()
        invariant
            i <= a.len(),
            a.len() == b.len(),
            data(a@, a@.len()).len() == a@.len(),
            data(b@, b@.len()).len() == b@.len(),
            forall|k: int| 0 <= k < a@.len() ==> (#[trigger] data(a@, a@.len())[k]) == a@[k]@,
            forall|k: int| 0 <= k < b@.len() ==> (#[trigger] data(b@, b@.len())[k]) == b@[k]@,
            forall|k: int| 0 <= k < i ==> a@[k]@ == b@[k]@,
        decreases a.len() - i,
    {
        if !a[i].same(&b[i]) {
            assert(data(a@, a@.len())[i as int] != data(b@, b@.len())[i as int]);
            return false;
        }
        i += 1;
    }
    assert(data(a@, a@.len()) =~= data(b@, b@.len()));
    true
}

impl PartialEq for Record {
    fn eq(&self, other: &Record) -> (equal: bool) {
        self.same(other)
    }
}

impl vstd::std_specs::cmp::PartialEqSpecImpl for Record {
    open spec fn obeys_eq_spec() -> bool {
        true
    }

    open spec fn eq_spec(&self, other: &Record) -> bool {
        self@ == other@
    }
}

impl Clone for Record {
    fn clone(&self) -> (copy: Record)
        ensures
            copy@ == self@,
    {
        self.copy()
    }
}

/// Writes the names of the members.
pub fn name_members(members: &Vec<Member>) -> (names: Vec<String>)
    ensures
        texts(names@) == member_names(members@),
{
    let mut names: Vec<String> = Vec::new();
    let mut i: usize = 0;
    while i < members.len()
        invariant
            i <= members.len(),
            texts(names@) == member_names(members@).take(i as int),
        decreases members.len() - i,
    {
        let name = members[i].name.clone();
        proof {
            assert(member_names(members@).take(i as int).push(name@) =~= member_names(
                members@,
            ).take(i as int + 1));
        }
        names.push(name);
        i += 1;
    }
    names
}

pub(crate) proof fn lemma_members_cte(members: Seq<Member>, count: nat)
    requires
        count <= members.len(),
    ensures
        Archetype::members_cte(members, count).len() == count,
        forall|i: int|
            0 <= i < count ==> (#[trigger] Archetype::members_cte(members, count)[i])
                == members[i].archetype.spec_cte(),
    decreases count,
{
    if count > 0 {
        lemma_members_cte(members, (count - 1) as nat);
    }
}

/// The table expression of an archetype yields as many columns as the
/// archetype takes in a row, and can be lowered if every record in the
/// archetype has a member.
pub proof fn archetype_column_count(archetype: Archetype)
    ensures
        archetype.spec_cte().width() == archetype.width(),
        archetype.well_formed() ==> archetype.spec_cte().well_formed(),
    decreases archetype,
{
    match archetype {
        Archetype::Component(component) => {},
        Archetype::Optional(inner) => {
            archetype_column_count(*inner);
        },
        Archetype::Struct(record) => {
            lemma_members_width(record.fields@, record.fields@.len());
            lemma_members_cte(record.fields@, record.fields@.len());
        },
        Archetype::Enum(choice) => {
            lemma_members_width(choice.members@, choice.members@.len());
            lemma_members_cte(choice.members@, choice.members@.len());
        },
    }
}

pub(crate) proof fn lemma_members_width(members: Seq<Member>, count: nat)
    requires
        count <= members.len(),
    ensures
        TableExpression::merged_width(Archetype::members_cte(members, count), count)
            == Archetype::members_width(members, count),
        Archetype::members_well_formed(members, count) ==> forall|i: int|
            0 <= i < count ==> (#[trigger] Archetype::members_cte(members, count)[i]).well_formed(),
    decreases members, count,
{
    if count > 0 {
        lemma_members_width(members, (count - 1) as nat);
        archetype_column_count(members[count - 1].archetype);
        lemma_members_cte(members, (count - 1) as nat);
        crate::cte::lemma_merged_push(
            Archetype::members_cte(members, (count - 1) as nat),
            members[count - 1].archetype.spec_cte(),
            (count - 1) as nat,
        );
    }
}

/// Builds the table expressions that fetch the members.
fn fetch_members(members: &Vec<Member>) -> (tables: Vec<CommonTableExpression>)
    ensures
        expressions(tables@, tables@.len()) == Archetype::members_cte(members@, members@.len()),
    decreases members,
{
    let mut tables: Vec<CommonTableExpression> = Vec::new();
    let mut i: usize = 0;
    while i < members.len()
        invariant
            i <= members.len(),
            tables@.len() == i,
            expressions(tables@, i as nat) == Archetype::members_cte(members@, i as nat),
        decreases members.len() - i,
    {
        let table = members[i].archetype.cte();
        proof {
            lemma_expressions_push(tables@, table, i as nat);
        }
        tables.push(table);
        i += 1;
    }
    tables
}

impl Archetype {
    /// The table expression that fetches the archetype.
    pub fn cte(&self) -> (cte: CommonTableExpression)
        ensures
            cte@ == self.spec_cte(),
        decreases self,
    {
        match self {
            Archetype::Component(component) => component.cte(),
            Archetype::Optional(inner) => inner.cte(),
            Archetype::Struct(group) => CommonTableExpression::Merge {
                tables: fetch_members(&group.fields),
            },
            Archetype::Enum(choice) => CommonTableExpression::Merge {
                tables: fetch_members(&choice.members),
            },
        }
    }
}

/// What an archetype is for one database: the table expression that
/// fetches it, and whether it can be removed.
#[derive(Debug)]
pub struct ArchetypeImplementation {
    pub database: Database,
    pub cte: CommonTableExpression,
    pub removable: bool,
}

impl StructArchetype {
    /// What the archetype is for one database.
    pub fn implementation(&self, database: Database) -> (implementation: ArchetypeImplementation)
        ensures
            implementation.database == database,
            implementation.cte@ == (TableExpression::Merge {
                tables: Archetype::members_cte(self.fields@, self.fields@.len()),
            }),
            implementation.removable == Archetype::members_removable(
                self.fields@,
                self.fields@.len(),
            ),
    {
        ArchetypeImplementation {
            database,
            cte: CommonTableExpression::Merge { tables: fetch_members(&self.fields) },
            removable: crate::archetype::write::members_are_removable(&self.fields),
        }
    }
}

impl EnumArchetype {
    /// What the archetype is for one database.
    pub fn implementation(&self, database: Database) -> (implementation: ArchetypeImplementation)
        ensures
            implementation.database == database,
            implementation.cte@ == (TableExpression::Merge {
                tables: Archetype::members_cte(self.members@, self.members@.len()),
            }),
            !implementation.removable,
    {
        ArchetypeImplementation {
            database,
            cte: CommonTableExpression::Merge { tables: fetch_members(&self.members) },
            removable: false,
        }
    }
}

impl Archetype {
    /// What the archetype is for one database.
    pub fn implementation(&self, database: Database) -> (implementation: ArchetypeImplementation)
        ensures
            implementation.database == database,
            implementation.cte@ == self.spec_cte(),
            implementation.removable == self.removable(),
    {
        match self {
            Archetype::Struct(group) => group.implementation(database),
            Archetype::Enum(choice) => choice.implementation(database),
            _ => ArchetypeImplementation {
                database,
                cte: self.cte(),
                removable: self.is_removable(),
            },
        }
    }

    /// Tests whether the archetype can be fetched.
    pub fn is_well_formed(&self) -> (well_formed: bool)
        ensures
            well_formed == self.well_formed(),
        decreases self,
    {
        match self {
            Archetype::Component(_) => true,
            Archetype::Optional(inner) => inner.is_well_formed(),
            Archetype::Struct(group) => group.fields.len() > 0 && members_are_well_formed(
                &group.fields,
            ),
            Archetype::Enum(choice) => choice.members.len() > 0 && members_are_well_formed(
                &choice.members,
            ),
        }
    }
}

/// Tests whether the members can be fetched.
fn members_are_well_formed(members: &Vec<Member>) -> (well_formed: bool)
    ensures
        well_formed == Archetype::members_well_formed(members@, members@.len()),
    decreases members,
{
    let mut i: usize = 0;
    while i < members.len()
        invariant
            i <= members.len(),
            Archetype::members_well_formed(members@, i as nat),
        decreases members.len() - i,
    {
        if !members[i].archetype.is_well_formed() {
            proof {
                lemma_members_not_well_formed(members@, members@.len(), i as int);
            }
            return false;
        }
        i += 1;
    }
    true
}

pub(crate) proof fn lemma_members_not_well_formed(members: Seq<Member>, count: nat, index: int)
    requires
        count <= members.len(),
        0 <= index < count,
        !members[index].archetype.well_formed(),
    ensures
        !Archetype::members_well_formed(members, count),
    decreases count,
{
    if index < count - 1 {
        lemma_members_not_well_formed(members, (count - 1) as nat, index);
    }
}


/// Each member of a record is fetched under the columns from which it is
/// read: the columns that the record's table expression yields, from the
/// place where the member's cells start in a row and as far as they go,
/// are the columns of the member's own table expression.
pub proof fn member_columns(members: Seq<Member>, index: int)
    requires
        0 <= index < members.len(),
    ensures
        Archetype::members_width(members, index as nat) + members[index].archetype.width()
            == Archetype::members_width(members, (index + 1) as nat),
        Archetype::members_width(members, (index + 1) as nat) <= TableExpression::merged_columns(
            Archetype::members_cte(members, members.len()),
            members.len(),
        ).len(),
        TableExpression::merged_columns(
            Archetype::members_cte(members, members.len()),
            members.len(),
        ).subrange(
            Archetype::members_width(members, index as nat) as int,
            Archetype::members_width(members, (index + 1) as nat) as int,
        ) == members[index].archetype.spec_cte().columns(),
{
    lemma_members_cte(members, members.len());
    lemma_merged_prefix(members, (index + 1) as nat, members.len());
    archetype_column_count(members[index].archetype);
    crate::cte::column_count(members[index].archetype.spec_cte());
    let tables = Archetype::members_cte(members, members.len());
    let upto = TableExpression::merged_columns(tables, index as nat);
    let own = members[index].archetype.spec_cte().columns();
    let next = TableExpression::merged_columns(tables, (index + 1) as nat);
    assert(next.subrange(upto.len() as int, next.len() as int) =~= own);
}

proof fn lemma_merged_prefix(members: Seq<Member>, fewer: nat, count: nat)
    requires
        fewer <= count <= members.len(),
    ensures
        TableExpression::merged_columns(Archetype::members_cte(members, members.len()), fewer).len()
            == Archetype::members_width(members, fewer),
        TableExpression::merged_columns(
            Archetype::members_cte(members, members.len()),
            fewer,
        ).len() <= TableExpression::merged_columns(
            Archetype::members_cte(members, members.len()),
            count,
        ).len(),
        TableExpression::merged_columns(
            Archetype::members_cte(members, members.len()),
            count,
        ).subrange(
            0,
            TableExpression::merged_columns(
                Archetype::members_cte(members, members.len()),
                fewer,
            ).len() as int,
        ) == TableExpression::merged_columns(
            Archetype::members_cte(members, members.len()),
            fewer,
        ),
    decreases count,
{
    lemma_members_cte(members, members.len());
    lemma_prefix_width(members, fewer);
    if fewer < count {
        lemma_merged_prefix(members, fewer, (count - 1) as nat);
    }
}

proof fn lemma_prefix_width(members: Seq<Member>, count: nat)
    requires
        count <= members.len(),
    ensures
        TableExpression::merged_columns(Archetype::members_cte(members, members.len()), count).len()
            == Archetype::members_width(members, count),
    decreases count,
{
    lemma_members_cte(members, members.len());
    if count > 0 {
        lemma_prefix_width(members, (count - 1) as nat);
        archetype_column_count(members[count - 1].archetype);
        crate::cte::column_count(members[count - 1].archetype.spec_cte());
    }
}

} // verus!
