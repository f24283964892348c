//! Components that are one of several variants, told apart by a tag.

use vstd::prelude::*;
use crate::component::struct_component::{column_names, name_columns};
use crate::component::{
    delete_sql,
    insert_sql,
    update_sql,
    write_statements,
    ColumnDefinition,
    Statements,
};
use crate::cte::{CommonTableExpression, TableExpression};
use crate::driver::{sql_type, Database, TypeInfo};
use crate::entity::{EntityPrefixedQuery, Query, Statement};
use crate::component::attribute::{declared_table, table_name_of};
use crate::component::Implementation;
use crate::declaration::{Body, DeriveInput, ParseError, ParseFailure, VariantDeclaration};
use crate::field::{
    all_stored,
    are_stored,
    declared_fields,
    parse_fields,
    Field,
};
use crate::row::{read_optional, DecodeError, DecodeFailure, OffsetRow};
use crate::cte::holds;
use crate::text::{
    concat,
    distinct,
    find,
    first_index,
    first_occurrences,
    lemma_first_occurrences,
    lemma_concat_push,
    lemma_first_index,
    lemma_first_index_is,
    texts,
    trim_matches,
    trimmed,
};
use crate::value::{cells, lemma_cells_push, Cell, Kind, Value};

verus! {

/// One variant of a component: its name is the tag that is stored.
#[derive(Debug)]
pub struct Variant {
    pub name: String,
    pub fields: Vec<Field>,
}

/// A component that is one of several variants. Its table has a column for
/// the tag and a nullable column for every field of every variant.
#[derive(Debug)]
pub struct EnumComponent {
    pub typename: String,
    pub table_name: String,
    pub variants: Vec<Variant>,
}

/// A value of an [`EnumComponent`]: the variant's name and its fields'
/// values.
#[derive(Debug)]
pub struct Tagged {
    pub variant: String,
    pub fields: Vec<Value>,
}

/// What a [`Tagged`] holds.
pub struct TaggedCells {
    pub variant: Seq<char>,
    pub fields: Seq<Cell>,
}

impl View for Tagged {
    type V = TaggedCells;

    open spec fn view(&self) -> TaggedCells {
        TaggedCells { variant: self.variant@, fields: cells(self.fields@) }
    }
}

/// The name of the column that holds the tag.
pub open spec fn tag_column() -> Seq<char> {
    "__erm_tag"@
}

/// The names of the variants, in order.
pub open spec fn variant_names(variants: Seq<Variant>) -> Seq<Seq<char>> {
    Seq::new(variants.len(), |i: int| variants[i].name@)
}

/// The fields of the first `count` variants, variant by variant.
pub open spec fn flattened(variants: Seq<Variant>, count: nat) -> Seq<Field>
    decreases count,
{
    if count == 0 || count > variants.len() {
        Seq::empty()
    } else {
        flattened(variants, (count - 1) as nat) + variants[count - 1].fields@
    }
}

/// The fields without those whose column an earlier field names: of
/// several fields of one column the first stands for the column.
pub open spec fn unique_fields(fields: Seq<Field>) -> Seq<Field> {
    let names = column_names(fields);
    let kept = first_occurrences(names, names.len());
    Seq::new(kept.len(), |j: int| fields[first_index(names, kept[j])])
}

/// Whether fields that share a column are of one kind.
pub open spec fn consistent(fields: Seq<Field>) -> bool {
    forall|i: int, j: int|
        0 <= i < fields.len() && 0 <= j < fields.len() && (
        #[trigger] fields[i]).spec_column_name() == (#[trigger] fields[j]).spec_column_name()
            ==> fields[i].spec_kind() == fields[j].spec_kind()
}

/// The lines that define the variants' columns in a table definition:
/// every one of them takes null.
pub open spec fn nullable_lines(fields: Seq<Field>, database: Database) -> Seq<Seq<char>> {
    Seq::new(
        fields.len(),
        |i: int|
            ",\n  "@ + fields[i].spec_column_name() + " "@ + sql_type(
                database,
                fields[i].spec_kind(),
            ) + " null"@,
    )
}

/// What is bound to the column of the given name when a variant with the
/// given fields is written: the value of the variant's field of that name,
/// or null if it has none.
pub open spec fn slot(fields: Seq<Field>, value: Seq<Cell>, column: Seq<char>) -> Cell {
    let index = first_index(column_names(fields), column);
    if index < fields.len() && index < value.len() {
        value[index]
    } else {
        Cell::Null
    }
}

/// What is bound to the columns of the given names, in order.
pub open spec fn slots(fields: Seq<Field>, value: Seq<Cell>, columns: Seq<Seq<char>>) -> Seq<
    Cell,
> {
    Seq::new(columns.len(), |j: int| slot(fields, value, columns[j]))
}

/// What reading the first `count` fields as optional values gives, the
/// first of them at the given position: what each cell holds, or the
/// failure of the first cell that cannot be read.
pub open spec fn scanned(fields: Seq<Field>, row: Seq<Cell>, position: nat, count: nat)
    -> Result<Seq<Option<Cell>>, DecodeFailure>
    decreases count,
{
    if count == 0 || count > fields.len() {
        Ok(Seq::empty())
    } else {
        match scanned(fields, row, position, (count - 1) as nat) {
            Err(failure) => Err(failure),
            Ok(found) => match read_optional(
                row,
                (position + count - 1) as nat,
                fields[count - 1].spec_ident(),
                fields[count - 1].spec_kind(),
            ) {
                Err(failure) => Err(failure),
                Ok(cell) => Ok(found.push(cell)),
            },
        }
    }
}

/// What was scanned of the column of the given name, if there is such a
/// column and it holds a value.
pub open spec fn scanned_of(
    columns: Seq<Seq<char>>,
    found: Seq<Option<Cell>>,
    column: Seq<char>,
) -> Option<Cell> {
    let index = first_index(columns, column);
    if 0 <= index < found.len() {
        found[index]
    } else {
        None
    }
}

/// The values of a variant's first `count` fields, each taken from what
/// was scanned of its column. A field whose column holds no value is null
/// if it is nullable, and missing if not.
pub open spec fn picked(
    fields: Seq<Field>,
    columns: Seq<Seq<char>>,
    found: Seq<Option<Cell>>,
    count: nat,
) -> Result<Seq<Cell>, DecodeFailure>
    decreases count,
{
    if count == 0 || count > fields.len() {
        Ok(Seq::empty())
    } else {
        match picked(fields, columns, found, (count - 1) as nat) {
            Err(failure) => Err(failure),
            Ok(values) => match scanned_of(columns, found, fields[count - 1].spec_column_name()) {
                Some(cell) => Ok(values.push(cell)),
                None => if fields[count - 1].spec_nullable() {
                    Ok(values.push(Cell::Null))
                } else {
                    Err(DecodeFailure::ColumnNotFound(fields[count - 1].spec_ident()))
                },
            },
        }
    }
}

/// What a result of decoding a tagged value holds.
pub open spec fn tagged_view(result: Result<Tagged, DecodeError>) -> Result<
    TaggedCells,
    DecodeFailure,
> {
    match result {
        Ok(tagged) => Ok(tagged@),
        Err(error) => Err(error@),
    }
}

pub(crate) proof fn lemma_flattened_len(variants: Seq<Variant>, index: nat, count: nat)
    requires
        index <= count <= variants.len(),
    ensures
        flattened(variants, index).len() <= flattened(variants, count).len(),
        index < count ==> flattened(variants, index).len() + variants[index as int].fields@.len()
            <= flattened(variants, count).len(),
        forall|i: int|
            0 <= i < flattened(variants, index).len() ==> flattened(variants, count)[i]
                == flattened(variants, index)[i],
        index < count ==> forall|i: int|
            0 <= i < variants[index as int].fields@.len() ==> flattened(
                variants,
                count,
            )[flattened(variants, index).len() + i] == variants[index as int].fields@[i],
    decreases count,
{
    if index < count {
        lemma_flattened_len(variants, index, (count - 1) as nat);
    }
}

proof fn lemma_picked_failure(
    fields: Seq<Field>,
    columns: Seq<Seq<char>>,
    found: Seq<Option<Cell>>,
    failed: nat,
    count: nat,
)
    requires
        failed <= count <= fields.len(),
        picked(fields, columns, found, failed) is Err,
    ensures
        picked(fields, columns, found, count) == picked(fields, columns, found, failed),
    decreases count,
{
    if failed < count {
        lemma_picked_failure(fields, columns, found, failed, (count - 1) as nat);
    }
}

/// The columns of the fields that stand for their columns are the columns
/// of all fields, each once, in the order in which they first occur.
pub(crate) proof fn lemma_unique_fields(fields: Seq<Field>)
    ensures
        column_names(unique_fields(fields)) == first_occurrences(
            column_names(fields),
            fields.len(),
        ),
        distinct(column_names(unique_fields(fields))),
        forall|i: int|
            0 <= i < fields.len() ==> column_names(unique_fields(fields)).contains(
                #[trigger] column_names(fields)[i],
            ),
{
    let names = column_names(fields);
    let kept = first_occurrences(names, names.len());
    lemma_first_occurrences(names, names.len());
    assert forall|j: int| 0 <= j < kept.len() implies column_names(unique_fields(fields))[j]
        == kept[j] by {
        assert(kept.contains(kept[j]));
        lemma_first_index(names, kept[j]);
    }
}

impl PartialEq for Tagged {
    fn eq(&self, other: &Tagged) -> (equal: bool) {
        self.variant == other.variant && crate::value::same_values(&self.fields, &other.fields)
    }
}

impl vstd::std_specs::cmp::PartialEqSpecImpl for Tagged {
    open spec fn obeys_eq_spec() -> bool {
        true
    }

    open spec fn eq_spec(&self, other: &Tagged) -> bool {
        self@ == other@
    }
}

impl Clone for Tagged {
    fn clone(&self) -> (copy: Tagged)
        ensures
            copy@ == self@,
    {
        Tagged { variant: self.variant.clone(), fields: crate::value::clone_values(&self.fields) }
    }
}

/// Writes the names of the variants.
pub fn name_variants(variants: &Vec<Variant>) -> (names: Vec<String>)
    ensures
        texts(names@) == variant_names(variants@),
{
    let mut names: Vec<String> = Vec::new();
    let mut i: usize = 0;
    while i < variants.len()
        invariant
            i <= variants.len(),
            texts(names@) == variant_names(variants@).take(i as int),
        decreases variants.len() - i,
    {
        let name = variants[i].name.clone();
        proof {
            assert(variant_names(variants@).take(i as int).push(name@) =~= variant_names(
                variants@,
            ).take(i as int + 1));
        }
        names.push(name);
        i += 1;
    }
    names
}

/// Appends the lines that define the variants' columns.
fn append_nullable_lines(sql: &mut String, fields: &Vec<Field>, database: Database)
    requires
        all_stored(fields@, database),
    ensures
        final(sql)@ == old(sql)@ + concat(nullable_lines(fields@, database)),
{
    let ghost lines = nullable_lines(fields@, database);
    let mut i: usize = 0;
    while i < fields.len()
        invariant
            i <= fields.len(),
            all_stored(fields@, database),
            lines == nullable_lines(fields@, database),
            sql@ == old(sql)@ + concat(lines.take(i as int)),
        decreases fields.len() - i,
    {
        sql.append(",\n  ");
        sql.append(fields[i].column_name().as_str());
        sql.append(" ");
        sql.append((TypeInfo { database, kind: fields[i].kind() }).name().as_str());
        sql.append(" null");
        proof {
            assert(lines.take(i as int + 1) =~= lines.take(i as int).push(lines[i as int]));
            lemma_concat_push(lines.take(i as int), lines[i as int]);
        }
        i += 1;
    }
    proof {
        assert(lines.take(fields.len() as int) =~= lines);
    }
}

/// Reads the fields as optional values from consecutive cells of the row.
/// Every field's cell is read, whether an earlier one failed or not.
fn scan_fields(fields: &Vec<Field>, row: &mut OffsetRow) -> (result: Result<
    Vec<Option<Value>>,
    DecodeError,
>)
    ensures
        final(row).cells() == old(row).cells(),
        final(row).position() == old(row).position() + fields@.len(),
        match result {
            Ok(found) => scanned(fields@, old(row).cells(), old(row).position(), fields@.len())
                == Ok::<Seq<Option<Cell>>, DecodeFailure>(options(found@)),
            Err(error) => scanned(fields@, old(row).cells(), old(row).position(), fields@.len())
                == Err::<Seq<Option<Cell>>, DecodeFailure>(error@),
        },
{
    let mut found: Vec<Option<Value>> = Vec::new();
    let mut failure: Option<DecodeError> = None;
    let mut i: usize = 0;
    assert(options(found@) =~= Seq::<Option<Cell>>::empty());
    while i < fields.len()
        invariant
            i <= fields.len(),
            row.cells() == old(row).cells(),
            row.position() == old(row).position() + i,
            match failure {
                Some(error) => scanned(fields@, old(row).cells(), old(row).position(), i as nat)
                    == Err::<Seq<Option<Cell>>, DecodeFailure>(error@),
                None => scanned(fields@, old(row).cells(), old(row).position(), i as nat) == Ok::<
                    Seq<Option<Cell>>,
                    DecodeFailure,
                >(options(found@)),
            },
        decreases fields.len() - i,
    {
        let ident = fields[i].ident();
        let read = row.try_get_optional(ident.as_str(), fields[i].kind());
        if failure.is_none() {
            match read {
                Ok(cell) => {
                    proof {
                        assert(options(found@.push(cell)) =~= options(found@).push(
                            option_view(cell),
                        ));
                    }
                    found.push(cell);
                },
                Err(error) => {
                    failure = Some(error);
                },
            }
        }
        i += 1;
    }
    match failure {
        Some(error) => Err(error),
        None => Ok(found),
    }
}

/// What an optional value holds.
pub open spec fn option_view(value: Option<Value>) -> Option<Cell> {
    match value {
        Some(value) => Some(value@),
        None => None,
    }
}

/// What a sequence of optional values holds.
pub open spec fn options(values: Seq<Option<Value>>) -> Seq<Option<Cell>> {
    Seq::new(values.len(), |i: int| option_view(values[i]))
}

/// Takes a variant's values from what was scanned of the columns.
fn pick_fields(fields: &Vec<Field>, columns: &Vec<String>, found: &Vec<Option<Value>>) -> (result:
    Result<Vec<Value>, DecodeError>)
    ensures
        match result {
            Ok(values) => picked(fields@, texts(columns@), options(found@), fields@.len()) == Ok::<
                Seq<Cell>,
                DecodeFailure,
            >(cells(values@)),
            Err(error) => picked(fields@, texts(columns@), options(found@), fields@.len())
                == Err::<Seq<Cell>, DecodeFailure>(error@),
        },
{
    let mut values: Vec<Value> = Vec::new();
    let mut i: usize = 0;
    assert(cells(values@) =~= Seq::<Cell>::empty());
    while i < fields.len()
        invariant
            i <= fields.len(),
            picked(fields@, texts(columns@), options(found@), i as nat) == Ok::<
                Seq<Cell>,
                DecodeFailure,
            >(cells(values@)),
        decreases fields.len() - i,
    {
        let column = fields[i].column_name();
        let at = find(columns, &column);
        let cell: Option<Value> = if at < found.len() {
            match &found[at] {
                Some(value) => Some(value.clone()),
                None => None,
            }
        } else {
            None
        };
        proof {
            assert(option_view(cell) == scanned_of(
                texts(columns@),
                options(found@),
                fields@[i as int].spec_column_name(),
            ));
        }
        match cell {
            Some(value) => {
                proof {
                    lemma_cells_push(values@, value);
                }
                values.push(value);
            },
            None => {
                if fields[i].nullable() {
                    proof {
                        lemma_cells_push(values@, Value::Null);
                    }
                    values.push(Value::Null);
                } else {
                    proof {
                        lemma_picked_failure(
                            fields@,
                            texts(columns@),
                            options(found@),
                            (i + 1) as nat,
                            fields@.len(),
                        );
                    }
                    return Err(DecodeError::ColumnNotFound(fields[i].ident()));
                }
            },
        }
        i += 1;
    }
    Ok(values)
}

/// Keeps of the fields those that stand for their columns.
fn unique(fields: &Vec<Field>) -> (kept: Vec<Field>)
    ensures
        kept@ == unique_fields(fields@),
{
    let names = name_columns(fields);
    let ghost all = column_names(fields@);
    let mut kept: Vec<Field> = Vec::new();
    let mut known: Vec<String> = Vec::new();
    let mut i: usize = 0;
    assert(texts(names@).len() == names@.len());
    while i < fields.len()
        invariant
            i <= fields.len(),
            names@.len() == fields@.len(),
            texts(names@) == all,
            all == column_names(fields@),
            kept@.len() == known@.len(),
            texts(known@) == first_occurrences(all, i as nat),
            forall|j: int|
                0 <= j < kept@.len() ==> (#[trigger] kept@[j]) == fields@[first_index(
                    all,
                    texts(known@)[j],
                )],
        decreases fields.len() - i,
    {
        proof {
            lemma_first_occurrences(all, i as nat);
        }
        if !holds(&known, &names[i]) {
            proof {
                lemma_first_index_is(all, all[i as int], i as int);
            }
            known.push(names[i].clone());
            kept.push(fields[i].clone());
        }
        i += 1;
    }
    kept
}

impl EnumComponent {
    /// The name of the component's table: the declared name without the
    /// quotes around it.
    pub open spec fn spec_table(&self) -> Seq<char> {
        trimmed(self.table_name@, '"')
    }

    /// The fields of all variants, variant by variant.
    pub open spec fn all_fields(&self) -> Seq<Field> {
        flattened(self.variants@, self.variants@.len())
    }

    /// The fields that stand for the columns: of the fields of all
    /// variants, the first of each column. Variants that have a field of
    /// one name share its column.
    pub open spec fn spec_fields(&self) -> Seq<Field> {
        unique_fields(self.all_fields())
    }

    /// The columns of the component's table after the entity: the tag,
    /// then the columns of the fields of all variants, each once.
    pub open spec fn spec_columns(&self) -> Seq<Seq<char>> {
        seq![tag_column()] + column_names(self.spec_fields())
    }

    /// The table expression that fetches the component: the tag and the
    /// columns of all variants, from its table.
    pub open spec fn spec_cte(&self) -> TableExpression {
        TableExpression::Extract { table: self.spec_table(), columns: self.spec_columns() }
    }

    /// No two variants have the same name, no two fields of one variant
    /// the same column, and fields that share a column are of one kind.
    pub open spec fn well_formed(&self) -> bool {
        &&& distinct(variant_names(self.variants@))
        &&& forall|k: int|
            0 <= k < self.variants@.len() ==> distinct(
                column_names((#[trigger] self.variants@[k]).fields@),
            )
        &&& consistent(self.all_fields())
    }

    /// Whether the database has a column type for each column of the
    /// variants' fields.
    pub open spec fn stored_in(&self, database: Database) -> bool {
        all_stored(self.spec_fields(), database)
    }

    /// The statement that creates the component's table, unless it exists:
    /// the entity as the primary key, the tag, then one nullable column
    /// for each column of the variants' fields.
    pub open spec fn spec_table_creator(&self, database: Database, entity: Kind) -> Seq<char> {
        "create table if not exists "@ + self.spec_table() + "(\n  entity "@ + sql_type(
            database,
            entity,
        ) + " primary key"@ + "\n,  __erm_tag text not null"@ + concat(
            nullable_lines(self.spec_fields(), database),
        ) + "\n);"@
    }

    /// The number of the first variant of the given name, or the number of
    /// variants if there is none.
    pub open spec fn variant_index(&self, variant: Seq<char>) -> int {
        first_index(variant_names(self.variants@), variant)
    }

    /// The fields of the first variant of the given name; none if there is
    /// no such variant.
    pub open spec fn variant_fields(&self, variant: Seq<char>) -> Seq<Field> {
        if self.variant_index(variant) < self.variants@.len() {
            self.variants@[self.variant_index(variant)].fields@
        } else {
            Seq::empty()
        }
    }

    /// Whether the value is one of a variant of the component.
    pub open spec fn admits(&self, value: TaggedCells) -> bool {
        &&& self.variant_index(value.variant) < self.variants@.len()
        &&& crate::component::struct_component::admitted(
            self.variant_fields(value.variant),
            value.fields,
        )
    }

    /// What writing a value binds: the tag, then for every column of every
    /// variant the value of the written variant's field of that name, or
    /// null.
    pub open spec fn encoded(&self, value: TaggedCells) -> Seq<Cell> {
        seq![Cell::Text(value.variant)] + slots(
            self.variant_fields(value.variant),
            value.fields,
            column_names(self.spec_fields()),
        )
    }

    /// What reading the component from a row gives, its tag at the given
    /// position. In this order: the tag must be there; every cell after
    /// it must be readable; the tag must name a variant; and every field
    /// of that variant that is not nullable must have a value.
    pub open spec fn decoded(&self, row: Seq<Cell>, position: nat) -> Result<
        TaggedCells,
        DecodeFailure,
    > {
        match read_optional(row, position, tag_column(), Kind::Text) {
            Err(failure) => Err(failure),
            Ok(None) => Err(DecodeFailure::ColumnNotFound(tag_column())),
            Ok(Some(tag)) => match scanned(
                self.spec_fields(),
                row,
                position + 1,
                self.spec_fields().len(),
            ) {
                Err(failure) => Err(failure),
                Ok(found) => if self.variant_index(tag->Text_0) < self.variants@.len() {
                    match picked(
                        self.variant_fields(tag->Text_0),
                        column_names(self.spec_fields()),
                        found,
                        self.variant_fields(tag->Text_0).len(),
                    ) {
                        Err(failure) => Err(failure),
                        Ok(values) => Ok(TaggedCells { variant: tag->Text_0, fields: values }),
                    }
                } else {
                    Err(DecodeFailure::UnknownVariant(tag->Text_0))
                },
            },
        }
    }

    /// The name of the component's table.
    pub fn table(&self) -> (table: String)
        ensures
            table@ == self.spec_table(),
    {
        trim_matches(self.table_name.as_str(), '"')
    }

    /// Tests whether the variants are told apart by their names, the
    /// fields of each variant by their columns, and whether fields that
    /// share a column are of one kind.
    pub fn is_well_formed(&self) -> (well_formed: bool)
        ensures
            well_formed == self.well_formed(),
    {
        let variants = name_variants(&self.variants);
        if !crate::text::all_distinct(&variants) {
            return false;
        }
        let mut k: usize = 0;
        while k < self.variants.len()
            invariant
                k <= self.variants.len(),
                forall|j: int|
                    0 <= j < k ==> distinct(column_names((#[trigger] self.variants@[j]).fields@)),
            decreases self.variants.len() - k,
        {
            let names = name_columns(&self.variants[k].fields);
            if !crate::text::all_distinct(&names) {
                return false;
            }
            k += 1;
        }
        is_consistent(&self.flatten())
    }

    /// The fields that stand for the columns: of the fields of all
    /// variants, the first of each column.
    pub fn fields(&self) -> (fields: Vec<Field>)
        ensures
            fields@ == self.spec_fields(),
    {
        unique(&self.flatten())
    }

    /// The fields of all variants, variant by variant.
    fn flatten(&self) -> (fields: Vec<Field>)
        ensures
            fields@ == self.all_fields(),
    {
        let mut fields: Vec<Field> = Vec::new();
        let mut k: usize = 0;
        while k < self.variants.len()
            invariant
                k <= self.variants.len(),
                fields@ == flattened(self.variants@, k as nat),
            decreases self.variants.len() - k,
        {
            let variant = &self.variants[k];
            let mut i: usize = 0;
            while i < variant.fields.len()
                invariant
                    i <= variant.fields.len(),
                    k < self.variants.len(),
                    variant == &self.variants@[k as int],
                    fields@ == flattened(self.variants@, k as nat) + variant.fields@.take(
                        i as int,
                    ),
                decreases variant.fields.len() - i,
            {
                fields.push(variant.fields[i].clone());
                i += 1;
            }
            k += 1;
        }
        fields
    }

    /// The names of the table's columns after the entity.
    fn column_list(&self) -> (names: Vec<String>)
        ensures
            texts(names@) == self.spec_columns(),
    {
        let fields = self.fields();
        let mut names: Vec<String> = Vec::new();
        names.push(String::from_str("__erm_tag"));
        let mut more = name_columns(&fields);
        names.append(&mut more);
        names
    }

    /// The statements that insert, update and delete an entity's row.
    pub fn statements(&self, placeholder_char: char) -> (statements: Statements)
        ensures
            statements.are_for(self.spec_table(), self.spec_columns(), placeholder_char),
    {
        let table = self.table();
        let names = self.column_list();
        write_statements(table.as_str(), &names, placeholder_char)
    }

    /// Tests whether the database has a column type for each column of
    /// the variants' fields.
    pub fn is_stored_in(&self, database: Database) -> (stored: bool)
        ensures
            stored == self.stored_in(database),
    {
        are_stored(&self.fields(), database)
    }

    /// The statement that creates the component's table for entities of
    /// the given kind. The database has a column type for the entity
    /// and for each column.
    pub fn table_creator(&self, database: Database, entity: Kind) -> (sql: String)
        requires
            database.stores(entity),
            self.stored_in(database),
        ensures
            sql@ == self.spec_table_creator(database, entity),
    {
        let fields = self.fields();
        let mut sql = String::from_str("create table if not exists ");
        sql.append(self.table().as_str());
        sql.append("(\n  entity ");
        sql.append((TypeInfo { database, kind: entity }).name().as_str());
        sql.append(" primary key");
        sql.append("\n,  __erm_tag text not null");
        append_nullable_lines(&mut sql, &fields, database);
        sql.append("\n);");
        sql
    }

    /// The columns of the variants' fields, in order.
    pub fn columns(&self, database: Database) -> (columns: Vec<ColumnDefinition>)
        ensures
            columns@.len() == self.spec_fields().len(),
            forall|i: int|
                0 <= i < columns@.len() ==> {
                    &&& (#[trigger] columns@[i]).name@ == self.spec_fields()[i].spec_column_name()
                    &&& columns@[i].type_info == (TypeInfo {
                        database,
                        kind: self.spec_fields()[i].spec_kind(),
                    })
                },
    {
        let fields = self.fields();
        let mut columns: Vec<ColumnDefinition> = Vec::new();
        let mut i: usize = 0;
        while i < fields.len()
            invariant
                i <= fields.len(),
                fields@ == self.spec_fields(),
                columns@.len() == i,
                forall|k: int|
                    0 <= k < i ==> {
                        &&& (#[trigger] columns@[k]).name@ == fields@[k].spec_column_name()
                        &&& columns@[k].type_info == (TypeInfo {
                            database,
                            kind: fields@[k].spec_kind(),
                        })
                    },
            decreases fields.len() - i,
        {
            columns.push(fields[i].column_definition(database));
            i += 1;
        }
        columns
    }

    /// The table expression that fetches the component.
    pub fn cte(&self) -> (cte: CommonTableExpression)
        ensures
            cte@ == self.spec_cte(),
    {
        CommonTableExpression::Extract { table: self.table(), columns: self.column_list() }
    }

    /// Tests whether the value is one of a variant of the component.
    pub fn accepts(&self, value: &Tagged) -> (accepted: bool)
        ensures
            accepted == self.admits(value@),
    {
        let names = name_variants(&self.variants);
        let index = find(&names, &value.variant);
        index < self.variants.len() && crate::component::struct_component::accept_fields(
            &self.variants[index].fields,
            &value.fields,
        )
    }

    /// Binds the tag, then for every column of the variants the value of
    /// the written variant's field of that name, or null: as many values
    /// whichever variant is written. The value is one of a variant of
    /// the component: [`EnumComponent::accepts`] tests that.
    pub fn field_serializer(&self, value: &Tagged, query: Query) -> (bound: Query)
        requires
            self.admits(value@),
        ensures
            bound@.sql == query@.sql,
            bound@.bound == query@.bound + self.encoded(value@),
    {
        let names = name_variants(&self.variants);
        let index = find(&names, &value.variant);
        let columns = name_columns(&self.fields());
        let mut bound = query.bind(Value::Text(value.variant.clone()));
        let own: Vec<String> = if index < self.variants.len() {
            name_columns(&self.variants[index].fields)
        } else {
            Vec::new()
        };
        let ghost fields = self.variant_fields(value@.variant);
        proof {
            assert(texts(own@).len() == own@.len());
        }
        let ghost all = slots(fields, value@.fields, texts(columns@));
        let mut j: usize = 0;
        while j < columns.len()
            invariant
                j <= columns.len(),
                texts(columns@) == column_names(self.spec_fields()),
                texts(own@) == column_names(fields),
                own@.len() == fields.len(),
                fields == self.variant_fields(value@.variant),
                all == slots(fields, value@.fields, texts(columns@)),
                bound@.sql == query@.sql,
                bound@.bound == query@.bound + seq![Cell::Text(value@.variant)] + all.take(
                    j as int,
                ),
            decreases columns.len() - j,
        {
            let at = find(&own, &columns[j]);
            if at < own.len() && at < value.fields.len() {
                bound = bound.bind(value.fields[at].clone());
            } else {
                bound = bound.bind(Value::Null);
            }
            j += 1;
        }
        bound
    }

    /// Reads the tag, then every field of every variant as an optional
    /// value, and takes the fields of the variant that the tag names.
    /// Every cell is read, whether an earlier one failed or not.
    pub fn field_deserializer(&self, row: &mut OffsetRow) -> (result: Result<Tagged, DecodeError>)
        ensures
            final(row).cells() == old(row).cells(),
            final(row).position() == old(row).position() + 1 + self.spec_fields().len(),
            tagged_view(result) == self.decoded(old(row).cells(), old(row).position()),
    {
        let fields = self.fields();
        let tag = row.try_get_optional("__erm_tag", Kind::Text);
        let scan = scan_fields(&fields, row);
        let tag = match tag {
            Err(error) => {
                return Err(error);
            },
            Ok(None) => {
                return Err(DecodeError::ColumnNotFound(String::from_str("__erm_tag")));
            },
            Ok(Some(Value::Text(tag))) => tag,
            Ok(Some(_)) => vstd::pervasive::unreached(),
        };
        let found = match scan {
            Err(error) => {
                return Err(error);
            },
            Ok(found) => found,
        };
        let names = name_variants(&self.variants);
        let index = find(&names, &tag);
        if index >= self.variants.len() {
            return Err(DecodeError::UnknownVariant(tag));
        }
        let columns = name_columns(&fields);
        match pick_fields(&self.variants[index].fields, &columns, &found) {
            Err(error) => Err(error),
            Ok(values) => Ok(Tagged { variant: tag, fields: values }),
        }
    }

    /// Adds the statement that stores the value as the entity's row.
    pub fn insert(&self, value: &Tagged, placeholder_char: char, query: &mut EntityPrefixedQuery)
        requires
            self.admits(value@),
        ensures
            final(query).entity() == old(query).entity(),
            final(query).queries() == old(query).queries().push(
                Statement {
                    sql: insert_sql(self.spec_table(), self.spec_columns(), placeholder_char),
                    bound: seq![old(query).entity()] + self.encoded(value@),
                },
            ),
    {
        let statements = self.statements(placeholder_char);
        let binder = |started: Query| -> (finished: Query)
            requires
                self.admits(value@),
            ensures
                finished@.sql == started@.sql,
                finished@.bound == started@.bound + self.encoded(value@),
            {
                self.field_serializer(value, started)
            };
        query.query(statements.insert.as_str(), binder);
    }

    /// Adds the statement that replaces the entity's row by the value.
    pub fn update(&self, value: &Tagged, placeholder_char: char, query: &mut EntityPrefixedQuery)
        requires
            self.admits(value@),
        ensures
            final(query).entity() == old(query).entity(),
            final(query).queries() == old(query).queries().push(
                Statement {
                    sql: update_sql(self.spec_table(), self.spec_columns(), placeholder_char),
                    bound: seq![old(query).entity()] + self.encoded(value@),
                },
            ),
    {
        let statements = self.statements(placeholder_char);
        let binder = |started: Query| -> (finished: Query)
            requires
                self.admits(value@),
            ensures
                finished@.sql == started@.sql,
                finished@.bound == started@.bound + self.encoded(value@),
            {
                self.field_serializer(value, started)
            };
        query.query(statements.update.as_str(), binder);
    }

    /// Adds the statement that deletes the entity's row.
    pub fn remove(&self, placeholder_char: char, query: &mut EntityPrefixedQuery)
        ensures
            final(query).entity() == old(query).entity(),
            final(query).queries() == old(query).queries().push(
                Statement {
                    sql: delete_sql(self.spec_table(), placeholder_char),
                    bound: seq![old(query).entity()],
                },
            ),
    {
        let statements = self.statements(placeholder_char);
        let binder = |started: Query| -> (finished: Query)
            ensures
                finished@ == started@,
            {
                started
            };
        query.query(statements.delete.as_str(), binder);
    }
}

/// What scanning finds in a cell.
pub open spec fn seen(cell: Cell) -> Option<Cell> {
    if cell is Null {
        None
    } else {
        Some(cell)
    }
}

proof fn lemma_scanned_cells(
    fields: Seq<Field>,
    row: Seq<Cell>,
    position: nat,
    count: nat,
)
    requires
        count <= fields.len(),
        position + count <= row.len(),
        forall|j: int|
            0 <= j < count ==> row[position + j] is Null || (#[trigger] fields[j]).spec_kind().admits(
                row[position + j],
            ),
    ensures
        scanned(fields, row, position, count) == Ok::<Seq<Option<Cell>>, DecodeFailure>(
            Seq::new(count, |j: int| seen(row[position + j])),
        ),
    decreases count,
{
    let all = Seq::new(count, |j: int| seen(row[position + j]));
    if count == 0 {
        assert(all =~= Seq::<Option<Cell>>::empty());
    } else {
        lemma_scanned_cells(fields, row, position, (count - 1) as nat);
        let fewer = Seq::new((count - 1) as nat, |j: int| seen(row[position + j]));
        assert(all =~= fewer.push(seen(row[position + count - 1])));
    }
}

proof fn lemma_picked_cells(
    fields: Seq<Field>,
    columns: Seq<Seq<char>>,
    found: Seq<Option<Cell>>,
    value: Seq<Cell>,
    count: nat,
)
    requires
        count <= fields.len(),
        crate::component::struct_component::admitted(fields, value),
        forall|i: int|
            0 <= i < fields.len() ==> scanned_of(
                columns,
                found,
                (#[trigger] fields[i]).spec_column_name(),
            ) == seen(value[i]),
    ensures
        picked(fields, columns, found, count) == Ok::<Seq<Cell>, DecodeFailure>(
            value.take(count as int),
        ),
    decreases count,
{
    if count == 0 {
        assert(value.take(0) =~= Seq::<Cell>::empty());
    } else {
        lemma_picked_cells(fields, columns, found, value, (count - 1) as nat);
        assert(value.take(count as int) =~= value.take(count - 1).push(value[count - 1]));
    }
}

/// Writing a value of a well-formed component and reading it back gives
/// the value: whatever stands before and after its cells in the row.
pub proof fn enum_round_trip(
    component: EnumComponent,
    value: TaggedCells,
    before: Seq<Cell>,
    after: Seq<Cell>,
)
    requires
        component.well_formed(),
        component.admits(value),
    ensures
        component.decoded(before + component.encoded(value) + after, before.len()) == Ok::<
            TaggedCells,
            DecodeFailure,
        >(value),
{
    let variants = component.variants@;
    let k = component.variant_index(value.variant);
    let own = component.variant_fields(value.variant);
    let flat = component.all_fields();
    let names = column_names(flat);
    let all = component.spec_fields();
    let columns = column_names(all);
    let bound = slots(own, value.fields, columns);
    let row = before + component.encoded(value) + after;
    let position = before.len();
    let offset = flattened(variants, k as nat).len();
    lemma_first_index(variant_names(variants), value.variant);
    lemma_flattened_len(variants, k as nat, variants.len());
    lemma_unique_fields(flat);
    lemma_first_occurrences(names, names.len());
    assert(own == variants[k].fields@);
    assert(distinct(column_names(own)));

    // What is bound to a column is null, or of the kind of the column.
    assert forall|j: int| 0 <= j < all.len() implies row[position + 1 + j] is Null || (
    #[trigger] all[j]).spec_kind().admits(row[position + 1 + j]) by {
        assert(row[position + 1 + j] == bound[j]);
        let at = first_index(column_names(own), columns[j]);
        lemma_first_index(column_names(own), columns[j]);
        if at < own.len() && at < value.fields.len() {
            assert(own[at].admits(value.fields[at]));
            assert(own[at] == flat[offset + at]);
            assert(names[offset + at] == columns[j]);
            assert(all[j] == flat[first_index(names, columns[j])]);
            // The two fields share the column, so they are of one kind.
            assert(all[j].spec_kind() == own[at].spec_kind());
        }
    }
    lemma_scanned_cells(all, row, (position + 1) as nat, all.len());
    let found = Seq::new(all.len(), |j: int| seen(row[position + 1 + j]));

    // What was scanned of the column of a field of the variant is the
    // field's value.
    assert forall|i: int| 0 <= i < own.len() implies scanned_of(
        columns,
        found,
        (#[trigger] own[i]).spec_column_name(),
    ) == seen(value.fields[i]) by {
        let column = own[i].spec_column_name();
        assert(own[i] == flat[offset + i]);
        assert(column == names[offset + i]);
        assert(columns.contains(column));
        lemma_first_index(columns, column);
        let at = first_index(columns, column);
        assert(row[position + 1 + at] == bound[at]);
        assert forall|e: int| 0 <= e < i implies column_names(own)[e] != column by {
            assert(column_names(own)[e] != column_names(own)[i]);
        }
        lemma_first_index_is(column_names(own), column, i);
    }
    lemma_picked_cells(own, columns, found, value.fields, own.len());
    assert(value.fields.take(own.len() as int) =~= value.fields);
}

/// Tests whether fields that share a column are of one kind.
fn is_consistent(fields: &Vec<Field>) -> (agreed: bool)
    ensures
        agreed == consistent(fields@),
{
    let names = name_columns(fields);
    proof {
        assert(texts(names@).len() == names@.len());
    }
    let mut i: usize = 0;
    while i < fields.len()
        invariant
            i <= fields.len(),
            names@.len() == fields@.len(),
            texts(names@) == column_names(fields@),
            forall|a: int, b: int|
                0 <= a < i && 0 <= b < i && (#[trigger] fields@[a]).spec_column_name() == (
                #[trigger] fields@[b]).spec_column_name() ==> fields@[a].spec_kind()
                    == fields@[b].spec_kind(),
        decreases fields.len() - i,
    {
        let first = find(&names, &names[i]);
        proof {
            let column = fields@[i as int].spec_column_name();
            assert(column_names(fields@)[i as int] == column);
            lemma_first_index(column_names(fields@), column);
            assert(first <= i);
            assert(column_names(fields@)[first as int] == fields@[first as int].spec_column_name());
        }
        if fields[first].kind() != fields[i].kind() {
            return false;
        }
        proof {
            assert forall|a: int| 0 <= a < i && (#[trigger] fields@[a]).spec_column_name()
                == fields@[i as int].spec_column_name() implies fields@[a].spec_kind()
                == fields@[i as int].spec_kind() by {
                assert(column_names(fields@)[a] == fields@[a].spec_column_name());
                assert(first < i);
                assert(fields@[a].spec_kind() == fields@[first as int].spec_kind());
            }
        }
        i += 1;
    }
    true
}

/// Whether the variants are those that the declarations declare, one
/// each: named as declared, with the declared fields.
pub open spec fn declared_variants(
    variants: Seq<Variant>,
    declarations: Seq<VariantDeclaration>,
) -> bool {
    &&& variants.len() == declarations.len()
    &&& forall|k: int|
        0 <= k < variants.len() ==> (#[trigger] variants[k]).name@ == declarations[k].ident@
            && declared_fields(variants[k].fields@, declarations[k].fields@)
}

impl EnumComponent {
    /// Why a declaration of variants declares no component, if it
    /// declares none: its attributes cannot be read. Fields of any type
    /// are read.
    pub open spec fn refused(derive: DeriveInput) -> Option<ParseFailure> {
        match declared_table(derive) {
            Err(failure) => Some(failure),
            Ok(_) => None,
        }
    }

    /// Reads the component that a declaration of variants declares:
    /// named as its type, stored in the table that its attributes ask
    /// for, or else in one named as its type, with the declared variants
    /// and their fields in the declared order.
    pub fn parse(derive: &DeriveInput) -> (result: Result<EnumComponent, ParseError>)
        requires
            derive.body is Enum,
        ensures
            match result {
                Ok(component) => {
                    &&& Self::refused(*derive) is None
                    &&& component.typename@ == derive.ident@
                    &&& declared_table(*derive) == Ok::<Seq<char>, ParseFailure>(
                        component.table_name@,
                    )
                    &&& declared_variants(component.variants@, derive.body->Enum_0@)
                },
                Err(error) => Self::refused(*derive) == Some(error@),
            },
    {
        let table_name = match table_name_of(derive) {
            Err(error) => {
                return Err(error);
            },
            Ok(name) => name,
        };
        match &derive.body {
            Body::Enum(declarations) => {
                let mut variants: Vec<Variant> = Vec::new();
                let mut k: usize = 0;
                while k < declarations.len()
                    invariant
                        k <= declarations.len(),
                        variants@.len() == k,
                        forall|i: int|
                            0 <= i < k ==> (#[trigger] variants@[i]).name@
                                == declarations@[i].ident@ && declared_fields(
                                variants@[i].fields@,
                                declarations@[i].fields@,
                            ),
                    decreases declarations.len() - k,
                {
                    variants.push(
                        Variant {
                            name: declarations[k].ident.clone(),
                            fields: parse_fields(&declarations[k].fields),
                        },
                    );
                    k += 1;
                }
                Ok(EnumComponent { typename: derive.ident.clone(), table_name, variants })
            },
            _ => vstd::pervasive::unreached(),
        }
    }

    /// What the component is for one database.
    pub fn implementation(&self, database: Database, placeholder_char: char) -> (implementation:
        Implementation)
        ensures
            implementation.database == database,
            implementation.table@ == self.spec_table(),
            implementation.statements.are_for(
                self.spec_table(),
                self.spec_columns(),
                placeholder_char,
            ),
            implementation.columns@.len() == self.spec_fields().len(),
            forall|i: int|
                0 <= i < self.spec_fields().len() ==> {
                    &&& (#[trigger] implementation.columns@[i]).name@
                        == self.spec_fields()[i].spec_column_name()
                    &&& implementation.columns@[i].type_info == (TypeInfo {
                        database,
                        kind: self.spec_fields()[i].spec_kind(),
                    })
                },
            implementation.cte@ == self.spec_cte(),
    {
        Implementation {
            database,
            table: self.table(),
            columns: self.columns(database),
            statements: self.statements(placeholder_char),
            cte: self.cte(),
        }
    }
}

} // verus!
