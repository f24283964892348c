//! The columns that a statement projects, read off its text.

use vstd::prelude::*;
use crate::cte::{alias, aliases, listed, TableExpression};
use crate::text::concat;

verus! {

/// Whether a name holds neither a space nor a comma.
pub open spec fn plain(name: Seq<char>) -> bool {
    forall|i: int| 0 <= i < name.len() ==> name[i] != ' ' && name[i] != ','
}

/// Whether all of the names are plain.
pub open spec fn all_plain(names: Seq<Seq<char>>) -> bool {
    forall|i: int| 0 <= i < names.len() ==> plain(#[trigger] names[i])
}

/// Where the item that starts at a position of a text ends: at the next
/// space or comma, or at the end of the text.
pub open spec fn item_end(text: Seq<char>, from: nat) -> nat
    decreases text.len() - from,
{
    if from >= text.len() || text[from as int] == ',' || text[from as int] == ' ' {
        from
    } else {
        item_end(text, from + 1)
    }
}

/// The items of a list that starts at a position of a text: each runs up
/// to the next space or comma, and the list goes on as long as a comma
/// and a space follow an item.
pub open spec fn items_from(text: Seq<char>, from: nat) -> Seq<Seq<char>>
    decreases text.len() - from,
{
    let end = item_end(text, from);
    if from <= end && end + 1 < text.len() && text[end as int] == ',' && text[end as int + 1]
        == ' ' {
        seq![text.subrange(from as int, end as int)] + items_from(text, end + 2)
    } else {
        seq![text.subrange(from as int, end as int)]
    }
}

/// The columns that a statement projects: the items of the list that
/// follows its `select`. A text that does not start with `select` projects
/// none.
pub open spec fn select_list(statement: Seq<char>) -> Seq<Seq<char>> {
    if statement.len() >= 7 && statement.subrange(0, 7) == "select "@ {
        items_from(statement, 7)
    } else {
        Seq::empty()
    }
}

impl TableExpression {
    /// Whether the names of all tables and columns in the tree are plain.
    pub open spec fn plainly_named(self) -> bool
        decreases self,
    {
        match self {
            TableExpression::Extract { table, columns } => plain(table) && all_plain(columns),
            TableExpression::Merge { tables } => forall|i: int|
                0 <= i < tables.len() ==> (#[trigger] tables[i]).plainly_named(),
            TableExpression::InnerJoin { left, right, .. } => left.plainly_named()
                && right.plainly_named(),
        }
    }
}

proof fn lemma_item_end(text: Seq<char>, from: nat, length: nat)
    requires
        from + length <= text.len(),
        forall|i: int| from <= i < from + length ==> text[i] != ' ' && text[i] != ',',
        from + length < text.len() ==> text[from as int + length] == ' ' || text[from as int
            + length] == ',',
    ensures
        item_end(text, from) == from + length,
    decreases length,
{
    if length > 0 {
        lemma_item_end(text, from + 1, (length - 1) as nat);
    }
}

proof fn lemma_concat_front(parts: Seq<Seq<char>>)
    requires
        parts.len() > 0,
    ensures
        concat(parts) == parts[0] + concat(parts.skip(1)),
    decreases parts.len(),
{
    if parts.len() == 1 {
        assert(parts.drop_last() =~= Seq::<Seq<char>>::empty());
        assert(parts.skip(1) =~= Seq::<Seq<char>>::empty());
    } else {
        lemma_concat_front(parts.drop_last());
        assert(parts.skip(1).drop_last() =~= parts.drop_last().skip(1));
    }
}

proof fn lemma_items(
    before: Seq<char>,
    first: Seq<char>,
    rest: Seq<Seq<char>>,
    after: Seq<char>,
)
    requires
        plain(first),
        all_plain(rest),
        after.len() > 0,
        after[0] == ' ',
    ensures
        items_from(before + first + concat(listed(rest)) + after, before.len()) == seq![first]
            + rest,
    decreases rest.len(),
{
    reveal_strlit(", ");
    let text = before + first + concat(listed(rest)) + after;
    let from = before.len();
    let end = from + first.len();
    assert(text.subrange(from as int, end as int) =~= first);
    if rest.len() == 0 {
        lemma_item_end(text, from, first.len());
    } else {
        lemma_concat_front(listed(rest));
        assert(listed(rest).skip(1) =~= listed(rest.skip(1)));
        lemma_item_end(text, from, first.len());
        lemma_items(before + first + ", "@, rest[0], rest.skip(1), after);
        assert(text =~= (before + first + ", "@) + rest[0] + concat(listed(rest.skip(1)))
            + after);
    }
}

proof fn lemma_plain_alias(table: Seq<char>, column: Seq<char>)
    requires
        plain(table),
        plain(column),
    ensures
        plain(alias(table, column)),
{
    reveal_strlit("__cte_");
    reveal_strlit("__");
}

/// The columns that a plainly named tree yields are plain.
pub(crate) proof fn lemma_plain_columns(cte: TableExpression)
    requires
        cte.plainly_named(),
    ensures
        all_plain(cte.columns()),
    decreases cte,
{
    match cte {
        TableExpression::Extract { table, columns } => {
            assert forall|i: int| 0 <= i < aliases(table, columns).len() implies plain(
                #[trigger] aliases(table, columns)[i],
            ) by {
                lemma_plain_alias(table, columns[i]);
            }
        },
        TableExpression::Merge { tables } => {
            lemma_plain_merged(tables, tables.len());
        },
        TableExpression::InnerJoin { left, right, .. } => {
            lemma_plain_columns(*left);
            lemma_plain_columns(*right);
        },
    }
}

proof fn lemma_plain_merged(tables: Seq<TableExpression>, count: nat)
    requires
        count <= tables.len(),
        forall|i: int| 0 <= i < tables.len() ==> (#[trigger] tables[i]).plainly_named(),
    ensures
        all_plain(TableExpression::merged_columns(tables, count)),
    decreases tables, count,
{
    if count > 0 {
        lemma_plain_merged(tables, (count - 1) as nat);
        lemma_plain_columns(tables[count - 1]);
    }
}

/// The statement that fetches a plainly named tree projects the entity
/// and then the columns that lowering declares, in order: as many
/// columns as the tree is wide, and one for the entity.
pub proof fn projected_columns(cte: TableExpression)
    requires
        cte.plainly_named(),
    ensures
        select_list(cte.serialized()) == seq!["entity"@] + cte.columns(),
        select_list(cte.serialized()).len() == cte.width() + 1,
{
    reveal_strlit("select entity");
    reveal_strlit("select ");
    reveal_strlit("entity");
    reveal_strlit(" from (");
    let after = " from ("@ + cte.sql() + ") as __cte"@;
    let statement = cte.serialized();
    assert(statement =~= "select "@ + "entity"@ + concat(listed(cte.columns())) + after);
    assert(statement.subrange(0, 7) =~= "select "@);
    lemma_plain_columns(cte);
    lemma_items("select "@, "entity"@, cte.columns(), after);
    crate::cte::column_count(cte);
}

/// The statement that fetches a plainly named tree for one entity projects
/// the entity and then the columns that lowering declares, in order.
pub proof fn fetched_columns(cte: TableExpression, entity: Seq<char>)
    requires
        cte.plainly_named(),
    ensures
        select_list(cte.fetched(entity)) == seq!["entity"@] + cte.columns(),
        select_list(cte.fetched(entity)).len() == cte.width() + 1,
{
    reveal_strlit("select entity");
    reveal_strlit("select ");
    reveal_strlit("entity");
    reveal_strlit(" from (select ");
    let after = " from (select "@ + entity + " as entity) as __k left join ("@ + cte.sql()
        + ") as __cte using (entity)"@;
    let statement = cte.fetched(entity);
    assert(statement =~= "select "@ + "entity"@ + concat(listed(cte.columns())) + after);
    assert(statement.subrange(0, 7) =~= "select "@);
    lemma_plain_columns(cte);
    lemma_items("select "@, "entity"@, cte.columns(), after);
    crate::cte::column_count(cte);
}

} // verus!
