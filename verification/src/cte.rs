//! Table expressions: which columns of which tables a record needs, joined
//! how, and the one `select` statement that fetches them.

use vstd::prelude::*;
use crate::text::{concat, decimal, decimal_string, lemma_concat_push, texts};

verus! {

/// A tree of tables and joins. Every node yields one row per entity, with
/// the entity first and the node's columns after it.
#[derive(Debug)]
pub enum CommonTableExpression {
    /// The named columns of one table.
    Extract { table: String, columns: Vec<String> },
    /// The tables side by side, joined on the entity: every entity that
    /// one of the tables holds is kept, and a table that lacks it gives
    /// nulls.
    Merge { tables: Vec<CommonTableExpression> },
    /// Both sides joined on the key: only what both sides hold is kept.
    InnerJoin {
        left: Box<CommonTableExpression>,
        right: Box<CommonTableExpression>,
        join_key: String,
    },
}

/// What a [`CommonTableExpression`] holds.
pub enum TableExpression {
    Extract { table: Seq<char>, columns: Seq<Seq<char>> },
    Merge { tables: Seq<TableExpression> },
    InnerJoin { left: Box<TableExpression>, right: Box<TableExpression>, join_key: Seq<char> },
}

/// A lowered table expression: its `select` and the columns it yields after
/// the entity, in order.
#[derive(Debug)]
pub struct Lowered {
    pub sql: String,
    pub columns: Vec<String>,
}

/// The name under which a table's column leaves its `select`.
pub open spec fn alias(table: Seq<char>, column: Seq<char>) -> Seq<char> {
    "__cte_"@ + table + "__"@ + column
}

/// The names under which a table's columns leave its `select`.
pub open spec fn aliases(table: Seq<char>, columns: Seq<Seq<char>>) -> Seq<Seq<char>> {
    Seq::new(columns.len(), |i: int| alias(table, columns[i]))
}

/// The items that an `Extract` adds to its `select` list after the entity.
pub open spec fn extract_items(table: Seq<char>, columns: Seq<Seq<char>>) -> Seq<Seq<char>> {
    Seq::new(columns.len(), |i: int| ", "@ + columns[i] + " as "@ + alias(table, columns[i]))
}

/// The name that a join gives to its operand with the given number.
pub open spec fn operand(number: nat) -> Seq<char> {
    "__t"@ + decimal(number)
}

/// The items that hand an operand's columns on, under their own names.
pub open spec fn projection(qualifier: Seq<char>, columns: Seq<Seq<char>>) -> Seq<Seq<char>> {
    Seq::new(columns.len(), |i: int| ", "@ + qualifier + "."@ + columns[i] + " as "@ + columns[i])
}

/// The clause that joins an operand to the entities on the entity.
pub open spec fn left_join(sql: Seq<char>, number: nat) -> Seq<char> {
    " left join ("@ + sql + ") as "@ + operand(number) + " on __e.entity = "@ + operand(number)
        + ".entity"@
}

/// The `select` that yields the entities of an operand.
pub open spec fn entities_of(sql: Seq<char>, number: nat) -> Seq<char> {
    "select entity from ("@ + sql + ") as __u"@ + decimal(number)
}

/// The items of a `select` list that name the given columns after the
/// entity.
pub open spec fn listed(columns: Seq<Seq<char>>) -> Seq<Seq<char>> {
    Seq::new(columns.len(), |i: int| ", "@ + columns[i])
}

impl TableExpression {
    /// A `Merge` has at least one table, and the key of an `InnerJoin` is
    /// the entity or a column that both sides yield.
    pub open spec fn well_formed(self) -> bool
        decreases self,
    {
        match self {
            TableExpression::Extract { .. } => true,
            TableExpression::Merge { tables } => tables.len() > 0 && forall|i: int|
                0 <= i < tables.len() ==> (#[trigger] tables[i]).well_formed(),
            TableExpression::InnerJoin { left, right, join_key } => {
                &&& left.well_formed()
                &&& right.well_formed()
                &&& (join_key == "entity"@ || (left.columns().contains(join_key)
                    && right.columns().contains(join_key)))
            },
        }
    }

    /// The number of columns that the tree yields after the entity: the sum
    /// over its `Extract` leaves.
    pub open spec fn width(self) -> nat
        decreases self,
    {
        match self {
            TableExpression::Extract { columns, .. } => columns.len(),
            TableExpression::Merge { tables } => Self::merged_width(tables, tables.len()),
            TableExpression::InnerJoin { left, right, .. } => left.width() + right.width(),
        }
    }

    /// The width of the first `count` tables together.
    pub open spec fn merged_width(tables: Seq<TableExpression>, count: nat) -> nat
        decreases tables, count,
    {
        if count == 0 || count > tables.len() {
            0
        } else {
            Self::merged_width(tables, (count - 1) as nat) + tables[count - 1].width()
        }
    }

    /// The columns that the tree yields after the entity: those of an
    /// `Extract` in the order given, each under its alias; those of a
    /// `Merge` table by table; those of an `InnerJoin` left before right.
    pub open spec fn columns(self) -> Seq<Seq<char>>
        decreases self,
    {
        match self {
            TableExpression::Extract { table, columns } => aliases(table, columns),
            TableExpression::Merge { tables } => Self::merged_columns(tables, tables.len()),
            TableExpression::InnerJoin { left, right, .. } => left.columns() + right.columns(),
        }
    }

    /// The columns of the first `count` tables, table by table.
    pub open spec fn merged_columns(tables: Seq<TableExpression>, count: nat) -> Seq<Seq<char>>
        decreases tables, count,
    {
        if count == 0 || count > tables.len() {
            Seq::empty()
        } else {
            Self::merged_columns(tables, (count - 1) as nat) + tables[count - 1].columns()
        }
    }

    /// The `select` that the tree lowers to.
    pub open spec fn sql(self) -> Seq<char>
        decreases self,
    {
        match self {
            TableExpression::Extract { table, columns } => "select entity"@ + concat(
                extract_items(table, columns),
            ) + " from "@ + table,
            TableExpression::Merge { tables } => "select __e.entity as entity"@
                + Self::merged_items(tables, tables.len()) + " from ("@ + Self::merged_entities(
                tables,
                tables.len(),
            ) + ") as __e"@ + Self::merged_joins(tables, tables.len()),
            TableExpression::InnerJoin { left, right, join_key } => "select __l.entity as entity"@
                + concat(projection("__l"@, left.columns())) + concat(
                projection("__r"@, right.columns()),
            ) + " from ("@ + left.sql() + ") as __l inner join ("@ + right.sql()
                + ") as __r on __l."@ + join_key + " = __r."@ + join_key,
        }
    }

    /// The `select` items that hand on the columns of the first `count`
    /// tables of a `Merge`.
    pub open spec fn merged_items(tables: Seq<TableExpression>, count: nat) -> Seq<char>
        decreases tables, count,
    {
        if count == 0 || count > tables.len() {
            Seq::empty()
        } else {
            Self::merged_items(tables, (count - 1) as nat) + concat(
                projection(operand((count - 1) as nat), tables[count - 1].columns()),
            )
        }
    }

    /// The entities of a `Merge` up to the given count of its tables: the
    /// union of the entities that each of them holds.
    pub open spec fn merged_entities(tables: Seq<TableExpression>, count: nat) -> Seq<char>
        decreases tables, count,
    {
        if count == 0 || count > tables.len() {
            Seq::empty()
        } else if count == 1 {
            entities_of(tables[0].sql(), 0)
        } else {
            Self::merged_entities(tables, (count - 1) as nat) + " union "@ + entities_of(
                tables[count - 1].sql(),
                (count - 1) as nat,
            )
        }
    }

    /// The operands of a `Merge` up to the given count, each joined to
    /// the entities on the entity.
    pub open spec fn merged_joins(tables: Seq<TableExpression>, count: nat) -> Seq<char>
        decreases tables, count,
    {
        if count == 0 || count > tables.len() {
            Seq::empty()
        } else {
            Self::merged_joins(tables, (count - 1) as nat) + left_join(
                tables[count - 1].sql(),
                (count - 1) as nat,
            )
        }
    }

    /// The whole statement: the entity and the tree's columns, in order,
    /// selected from the lowered tree.
    pub open spec fn serialized(self) -> Seq<char> {
        "select entity"@ + concat(listed(self.columns())) + " from ("@ + self.sql()
            + ") as __cte"@
    }

    /// The statement that fetches the tree's row for one entity, which is
    /// given as the text of a parameter. The entity is taken from the
    /// parameter and the lowered tree is joined to it from the left, so
    /// that there is a row for the entity whatever the tables hold: the
    /// columns are null where the tree has no row for it.
    pub open spec fn fetched(self, entity: Seq<char>) -> Seq<char> {
        "select entity"@ + concat(listed(self.columns())) + " from (select "@ + entity
            + " as entity) as __k left join ("@ + self.sql() + ") as __cte using (entity)"@
    }
}

/// What the first `count` expressions hold.
pub open spec fn expressions(tables: Seq<CommonTableExpression>, count: nat) -> Seq<
    TableExpression,
>
    decreases tables, count,
{
    if count == 0 || count > tables.len() {
        Seq::empty()
    } else {
        expressions(tables, (count - 1) as nat).push(tables[count - 1].held())
    }
}

impl CommonTableExpression {
    /// What the expression holds.
    pub open spec fn held(&self) -> TableExpression
        decreases self,
    {
        match self {
            CommonTableExpression::Extract { table, columns } => TableExpression::Extract {
                table: table@,
                columns: texts(columns@),
            },
            CommonTableExpression::Merge { tables } => TableExpression::Merge {
                tables: expressions(tables@, tables@.len()),
            },
            CommonTableExpression::InnerJoin { left, right, join_key } => {
                TableExpression::InnerJoin {
                    left: Box::new(left.held()),
                    right: Box::new(right.held()),
                    join_key: join_key@,
                }
            },
        }
    }
}

impl View for CommonTableExpression {
    type V = TableExpression;

    open spec fn view(&self) -> TableExpression {
        self.held()
    }
}

pub(crate) proof fn lemma_expressions(tables: Seq<CommonTableExpression>, count: nat)
    requires
        count <= tables.len(),
    ensures
        expressions(tables, count).len() == count,
        forall|i: int| 0 <= i < count ==> (#[trigger] expressions(tables, count)[i]) == tables[i]@,
    decreases count,
{
    if count > 0 {
        lemma_expressions(tables, (count - 1) as nat);
    }
}

pub(crate) proof fn lemma_expressions_push(
    tables: Seq<CommonTableExpression>,
    last: CommonTableExpression,
    count: nat,
)
    requires
        count <= tables.len(),
    ensures
        expressions(tables.push(last), count) == expressions(tables, count),
        count == tables.len() ==> expressions(tables.push(last), count + 1) == expressions(
            tables,
            count,
        ).push(last@),
    decreases count,
{
    if count > 0 {
        lemma_expressions_push(tables, last, (count - 1) as nat);
    }
}

pub(crate) proof fn lemma_merged_push(
    tables: Seq<TableExpression>,
    last: TableExpression,
    count: nat,
)
    requires
        count <= tables.len(),
    ensures
        TableExpression::merged_width(tables.push(last), count) == TableExpression::merged_width(
            tables,
            count,
        ),
        TableExpression::merged_columns(tables.push(last), count)
            == TableExpression::merged_columns(tables, count),
    decreases count,
{
    if count > 0 {
        lemma_merged_push(tables, last, (count - 1) as nat);
    }
}

/// A lowered tree yields as many columns as its leaves name.
pub proof fn column_count(cte: TableExpression)
    ensures
        cte.columns().len() == cte.width(),
    decreases cte,
{
    match cte {
        TableExpression::Extract { table, columns } => {},
        TableExpression::Merge { tables } => {
            lemma_merged_column_count(tables, tables.len());
        },
        TableExpression::InnerJoin { left, right, .. } => {
            column_count(*left);
            column_count(*right);
        },
    }
}

pub(crate) proof fn lemma_merged_column_count(tables: Seq<TableExpression>, count: nat)
    requires
        count <= tables.len(),
    ensures
        TableExpression::merged_columns(tables, count).len() == TableExpression::merged_width(
            tables,
            count,
        ),
    decreases tables, count,
{
    if count > 0 {
        lemma_merged_column_count(tables, (count - 1) as nat);
        column_count(tables[count - 1]);
    }
}

/// Writes the name under which a table's column leaves its `select`.
pub fn alias_of(table: &str, column: &str) -> (name: String)
    ensures
        name@ == alias(table@, column@),
{
    let mut name = String::from_str("__cte_");
    name.append(table);
    name.append("__");
    name.append(column);
    name
}

/// Writes the name that a join gives to its operand with the given number.
fn operand_name(number: usize) -> (name: String)
    ensures
        name@ == operand(number as nat),
{
    let digits = decimal_string(number as u128);
    String::from_str("__t").concat(digits.as_str())
}

/// Appends the items that hand an operand's columns on.
fn append_projection(sql: &mut String, qualifier: &str, columns: &Vec<String>)
    ensures
        final(sql)@ == old(sql)@ + concat(projection(qualifier@, texts(columns@))),
{
    let ghost items = projection(qualifier@, texts(columns@));
    let mut i: usize = 0;
    while i < columns.len()
        invariant
            i <= columns.len(),
            items == projection(qualifier@, texts(columns@)),
            sql@ == old(sql)@ + concat(items.take(i as int)),
        decreases columns.len() - i,
    {
        sql.append(", ");
        sql.append(qualifier);
        sql.append(".");
        sql.append(columns[i].as_str());
        sql.append(" as ");
        sql.append(columns[i].as_str());
        proof {
            assert(items.take(i as int + 1) =~= items.take(i as int).push(items[i as int]));
            lemma_concat_push(items.take(i as int), items[i as int]);
        }
        i += 1;
    }
    proof {
        assert(items.take(columns.len() as int) =~= items);
    }
}

/// Copies the strings.
pub fn clone_strings(strings: &Vec<String>) -> (copy: Vec<String>)
    ensures
        copy@ == strings@,
{
    let mut copy: Vec<String> = Vec::new();
    let mut i: usize = 0;
    while i < strings.len()
        invariant
            i <= strings.len(),
            copy@ == strings@.take(i as int),
        decreases strings.len() - i,
    {
        copy.push(strings[i].clone());
        i += 1;
    }
    copy
}

/// Tests whether the list holds the text.
pub fn holds(list: &Vec<String>, text: &String) -> (found: bool)
    ensures
        found == texts(list@).contains(text@),
{
    let mut i: usize = 0;
    while i < list.len()
        invariant
            i <= list.len(),
            forall|k: int| 0 <= k < i ==> texts(list@)[k] != text@,
        decreases list.len() - i,
    {
        if list[i] == *text {
            assert(texts(list@)[i as int] == text@);
            return true;
        }
        i += 1;
    }
    false
}

impl CommonTableExpression {
    /// The columns that the tree yields after the entity, in order.
    pub fn columns(&self) -> (columns: Vec<String>)
        ensures
            texts(columns@) == self@.columns(),
        decreases self,
    {
        match self {
            CommonTableExpression::Extract { table, columns } => {
                let mut names: Vec<String> = Vec::new();
                let mut i: usize = 0;
                while i < columns.len()
                    invariant
                        i <= columns.len(),
                        texts(names@) == aliases(table@, texts(columns@)).take(i as int),
                    decreases columns.len() - i,
                {
                    let name = alias_of(table.as_str(), columns[i].as_str());
                    proof {
                        assert(aliases(table@, texts(columns@)).take(i as int).push(name@)
                            =~= aliases(table@, texts(columns@)).take(i as int + 1));
                    }
                    names.push(name);
                    i += 1;
                }
                names
            },
            CommonTableExpression::Merge { tables } => {
                let mut names: Vec<String> = Vec::new();
                let mut j: usize = 0;
                let ghost held = expressions(tables@, tables@.len());
                proof {
                    lemma_expressions(tables@, tables@.len());
                }
                while j < tables.len()
                    invariant
                        j <= tables.len(),
                        *self matches CommonTableExpression::Merge { tables: own } && own == tables,
                        held.len() == tables@.len(),
                        forall|i: int|
                            0 <= i < tables@.len() ==> (#[trigger] held[i]) == tables@[i]@,
                        texts(names@) == TableExpression::merged_columns(held, j as nat),
                    decreases tables.len() - j,
                {
                    let mut more = tables[j].columns();
                    names.append(&mut more);
                    j += 1;
                }
                names
            },
            CommonTableExpression::InnerJoin { left, right, .. } => {
                let mut names = left.columns();
                let mut more = right.columns();
                names.append(&mut more);
                names
            },
        }
    }

    /// Tests whether the tree can be lowered.
    pub fn is_well_formed(&self) -> (well_formed: bool)
        ensures
            well_formed == self@.well_formed(),
        decreases self,
    {
        match self {
            CommonTableExpression::Extract { .. } => true,
            CommonTableExpression::Merge { tables } => {
                let ghost held = expressions(tables@, tables@.len());
                proof {
                    lemma_expressions(tables@, tables@.len());
                }
                if tables.len() == 0 {
                    return false;
                }
                let mut j: usize = 0;
                while j < tables.len()
                    invariant
                        j <= tables.len(),
                        *self matches CommonTableExpression::Merge { tables: own } && own == tables,
                        held.len() == tables@.len(),
                        self@ == (TableExpression::Merge { tables: held }),
                        forall|i: int|
                            0 <= i < tables@.len() ==> (#[trigger] held[i]) == tables@[i]@,
                        forall|i: int| 0 <= i < j ==> (#[trigger] held[i]).well_formed(),
                    decreases tables.len() - j,
                {
                    if !tables[j].is_well_formed() {
                        assert(!held[j as int].well_formed());
                        return false;
                    }
                    j += 1;
                }
                true
            },
            CommonTableExpression::InnerJoin { left, right, join_key } => {
                if !left.is_well_formed() || !right.is_well_formed() {
                    return false;
                }
                let entity = String::from_str("entity");
                if *join_key == entity {
                    return true;
                }
                let on_left = left.columns();
                let on_right = right.columns();
                holds(&on_left, join_key) && holds(&on_right, join_key)
            },
        }
    }

    /// Lowers the tree to its `select` and the columns that it yields.
    pub fn lower(&self) -> (lowered: Lowered)
        requires
            self@.well_formed(),
        ensures
            lowered.sql@ == self@.sql(),
            texts(lowered.columns@) == self@.columns(),
        decreases self,
    {
        match self {
            CommonTableExpression::Extract { table, columns } => {
                let ghost items = extract_items(table@, texts(columns@));
                let mut sql = String::from_str("select entity");
                let mut i: usize = 0;
                while i < columns.len()
                    invariant
                        i <= columns.len(),
                        items == extract_items(table@, texts(columns@)),
                        sql@ == "select entity"@ + concat(items.take(i as int)),
                    decreases columns.len() - i,
                {
                    let name = alias_of(table.as_str(), columns[i].as_str());
                    sql.append(", ");
                    sql.append(columns[i].as_str());
                    sql.append(" as ");
                    sql.append(name.as_str());
                    proof {
                        assert(items.take(i as int + 1) =~= items.take(i as int).push(
                            items[i as int],
                        ));
                        lemma_concat_push(items.take(i as int), items[i as int]);
                    }
                    i += 1;
                }
                proof {
                    assert(items.take(columns.len() as int) =~= items);
                }
                sql.append(" from ");
                sql.append(table.as_str());
                Lowered { sql, columns: self.columns() }
            },
            CommonTableExpression::Merge { tables } => {
                let mut items = String::new();
                let mut entities = String::new();
                let mut joins = String::new();
                let mut names: Vec<String> = Vec::new();
                let mut j: usize = 0;
                let ghost held = expressions(tables@, tables@.len());
                proof {
                    lemma_expressions(tables@, tables@.len());
                }
                while j < tables.len()
                    invariant
                        j <= tables.len(),
                        *self matches CommonTableExpression::Merge { tables: own } && own == tables,
                        held.len() == tables@.len(),
                        forall|i: int|
                            0 <= i < tables@.len() ==> (#[trigger] held[i]) == tables@[i]@,
                        forall|i: int|
                            0 <= i < tables@.len() ==> (#[trigger] held[i]).well_formed(),
                        items@ == TableExpression::merged_items(held, j as nat),
                        entities@ == TableExpression::merged_entities(held, j as nat),
                        joins@ == TableExpression::merged_joins(held, j as nat),
                        texts(names@) == TableExpression::merged_columns(held, j as nat),
                    decreases tables.len() - j,
                {
                    assert(held[j as int].well_formed());
                    let child = tables[j].lower();
                    let qualifier = operand_name(j);
                    append_projection(&mut items, qualifier.as_str(), &child.columns);
                    let ghost unioned = entities@;
                    let ghost joined = joins@;
                    if j > 0 {
                        entities.append(" union ");
                    }
                    entities.append("select entity from (");
                    entities.append(child.sql.as_str());
                    entities.append(") as __u");
                    entities.append(decimal_string(j as u128).as_str());
                    joins.append(" left join (");
                    joins.append(child.sql.as_str());
                    joins.append(") as ");
                    joins.append(qualifier.as_str());
                    joins.append(" on __e.entity = ");
                    joins.append(qualifier.as_str());
                    joins.append(".entity");
                    proof {
                        assert(joins@ =~= joined + left_join(child.sql@, j as nat));
                        if j > 0 {
                            assert(entities@ =~= unioned + " union "@ + entities_of(
                                child.sql@,
                                j as nat,
                            ));
                        } else {
                            assert(entities@ =~= entities_of(child.sql@, 0));
                        }
                    }
                    let mut more = child.columns;
                    names.append(&mut more);
                    j += 1;
                }
                let mut sql = String::from_str("select __e.entity as entity");
                sql.append(items.as_str());
                sql.append(" from (");
                sql.append(entities.as_str());
                sql.append(") as __e");
                sql.append(joins.as_str());
                Lowered { sql, columns: names }
            },
            CommonTableExpression::InnerJoin { left, right, join_key } => {
                let lowered_left = left.lower();
                let lowered_right = right.lower();
                let mut sql = String::from_str("select __l.entity as entity");
                append_projection(&mut sql, "__l", &lowered_left.columns);
                append_projection(&mut sql, "__r", &lowered_right.columns);
                sql.append(" from (");
                sql.append(lowered_left.sql.as_str());
                sql.append(") as __l inner join (");
                sql.append(lowered_right.sql.as_str());
                sql.append(") as __r on __l.");
                sql.append(join_key.as_str());
                sql.append(" = __r.");
                sql.append(join_key.as_str());
                let mut names = lowered_left.columns;
                let mut more = lowered_right.columns;
                names.append(&mut more);
                Lowered { sql, columns: names }
            },
        }
    }
}

/// Writes the start of a statement that selects the entity and then the
/// columns, in order.
fn select_entity_and(columns: &Vec<String>) -> (sql: String)
    ensures
        sql@ == "select entity"@ + concat(listed(texts(columns@))),
{
    let ghost items = listed(texts(columns@));
    let mut sql = String::from_str("select entity");
    let mut i: usize = 0;
    while i < columns.len()
        invariant
            i <= columns.len(),
            items == listed(texts(columns@)),
            sql@ == "select entity"@ + concat(items.take(i as int)),
        decreases columns.len() - i,
    {
        sql.append(", ");
        sql.append(columns[i].as_str());
        proof {
            assert(items.take(i as int + 1) =~= items.take(i as int).push(items[i as int]));
            lemma_concat_push(items.take(i as int), items[i as int]);
        }
        i += 1;
    }
    proof {
        assert(items.take(columns.len() as int) =~= items);
    }
    sql
}

/// Writes the one statement that fetches a tree's rows: the entity first,
/// then the tree's columns in order.
pub fn serialize(cte: &CommonTableExpression) -> (sql: String)
    requires
        cte@.well_formed(),
    ensures
        sql@ == cte@.serialized(),
{
    let lowered = cte.lower();
    let mut sql = select_entity_and(&lowered.columns);
    sql.append(" from (");
    sql.append(lowered.sql.as_str());
    sql.append(") as __cte");
    sql
}

/// Writes the one statement that fetches a tree's row for one entity,
/// which is given as the text of a parameter: the entity first, then the
/// tree's columns in order.
pub fn serialize_one(cte: &CommonTableExpression, entity: &str) -> (sql: String)
    requires
        cte@.well_formed(),
    ensures
        sql@ == cte@.fetched(entity@),
{
    let lowered = cte.lower();
    let mut sql = select_entity_and(&lowered.columns);
    sql.append(" from (select ");
    sql.append(entity);
    sql.append(" as entity) as __k left join (");
    sql.append(lowered.sql.as_str());
    sql.append(") as __cte using (entity)");
    sql
}

} // verus!
