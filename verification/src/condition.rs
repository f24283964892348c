//! Conditions on the columns that a table expression yields.

use vstd::prelude::*;
use crate::component::{numbered, placeholder};
use crate::cte::holds;
use crate::text::texts;
use crate::value::{cells, Cell, Value};

verus! {

/// How a column is compared with a value.
#[derive(Debug, Clone, Copy, PartialEq, Eq, Structural)]
pub enum Operator {
    Equal,
    LessThan,
    LessThanOrEqual,
    GreaterThan,
    GreaterThanOrEqual,
}

impl Operator {
    /// The operator as a statement writes it.
    pub open spec fn spec_symbol(self) -> Seq<char> {
        match self {
            Operator::Equal => "="@,
            Operator::LessThan => "<"@,
            Operator::LessThanOrEqual => "<="@,
            Operator::GreaterThan => ">"@,
            Operator::GreaterThanOrEqual => ">="@,
        }
    }

    /// The operator as a statement writes it.
    pub fn symbol(self) -> (symbol: &'static str)
        ensures
            symbol@ == self.spec_symbol(),
    {
        match self {
            Operator::Equal => "=",
            Operator::LessThan => "<",
            Operator::LessThanOrEqual => "<=",
            Operator::GreaterThan => ">",
            Operator::GreaterThanOrEqual => ">=",
        }
    }
}

/// A condition that the rows of a listing must meet.
#[derive(Debug)]
pub enum Condition {
    /// Every row meets it.
    All,
    /// The column compares to the value as the operator says.
    Compare { column: String, operator: Operator, value: Value },
    /// All of the conditions are met.
    And(Vec<Condition>),
}

/// A compiled condition: the text that follows the `select`, and the
/// values bound to its parameters, in order.
#[derive(Debug)]
pub struct Compiled {
    pub clause: String,
    pub arguments: Vec<Value>,
}

/// Two predicates joined by `and`; an empty one is left out.
pub open spec fn both(first: Seq<char>, second: Seq<char>) -> Seq<char> {
    if first.len() == 0 {
        second
    } else if second.len() == 0 {
        first
    } else {
        first + " and "@ + second
    }
}

impl Condition {
    /// The values that the condition binds, in the order in which its
    /// comparisons stand.
    pub open spec fn bound(&self) -> Seq<Cell>
        decreases self,
    {
        match self {
            Condition::All => Seq::empty(),
            Condition::Compare { value, .. } => seq![value@],
            Condition::And(conditions) => Self::all_bound(conditions@, conditions@.len()),
        }
    }

    /// The values that the first `count` conditions bind.
    pub open spec fn all_bound(conditions: Seq<Condition>, count: nat) -> Seq<Cell>
        decreases conditions, count,
    {
        if count == 0 || count > conditions.len() {
            Seq::empty()
        } else {
            Self::all_bound(conditions, (count - 1) as nat) + conditions[count - 1].bound()
        }
    }

    /// The predicate that the condition compiles to, its first parameter
    /// numbered as given. A condition that every row meets compiles to
    /// nothing.
    pub open spec fn predicate(&self, character: char, first: nat) -> Seq<char>
        decreases self,
    {
        match self {
            Condition::All => Seq::empty(),
            Condition::Compare { column, operator, .. } => column@ + " "@ + operator.spec_symbol()
                + " "@ + placeholder(character, first),
            Condition::And(conditions) => Self::all_predicates(
                conditions@,
                character,
                first,
                conditions@.len(),
            ),
        }
    }

    /// The predicates of the first `count` conditions, joined by `and`,
    /// their parameters numbered on from the given number.
    pub open spec fn all_predicates(
        conditions: Seq<Condition>,
        character: char,
        first: nat,
        count: nat,
    ) -> Seq<char>
        decreases conditions, count,
    {
        if count == 0 || count > conditions.len() {
            Seq::empty()
        } else {
            both(
                Self::all_predicates(conditions, character, first, (count - 1) as nat),
                conditions[count - 1].predicate(
                    character,
                    first + Self::all_bound(conditions, (count - 1) as nat).len(),
                ),
            )
        }
    }

    /// The clause that the condition adds to a statement: nothing if
    /// every row meets it, `where` and its predicate otherwise.
    pub open spec fn clause(&self, character: char, first: nat) -> Seq<char> {
        if self.predicate(character, first).len() == 0 {
            Seq::empty()
        } else {
            " where "@ + self.predicate(character, first)
        }
    }

    /// Whether every column that the condition compares is one of the
    /// given columns.
    pub open spec fn names_only(&self, columns: Seq<Seq<char>>) -> bool
        decreases self,
    {
        match self {
            Condition::All => true,
            Condition::Compare { column, .. } => columns.contains(column@),
            Condition::And(conditions) => Self::all_name_only(
                conditions@,
                columns,
                conditions@.len(),
            ),
        }
    }

    /// Whether the first `count` conditions compare the given columns
    /// only.
    pub open spec fn all_name_only(
        conditions: Seq<Condition>,
        columns: Seq<Seq<char>>,
        count: nat,
    ) -> bool
        decreases conditions, count,
    {
        if count == 0 || count > conditions.len() {
            true
        } else {
            Self::all_name_only(conditions, columns, (count - 1) as nat) && conditions[count
                - 1].names_only(columns)
        }
    }
}

pub(crate) proof fn lemma_not_named(
    conditions: Seq<Condition>,
    columns: Seq<Seq<char>>,
    count: nat,
    index: int,
)
    requires
        count <= conditions.len(),
        0 <= index < count,
        !conditions[index].names_only(columns),
    ensures
        !Condition::all_name_only(conditions, columns, count),
    decreases count,
{
    if index < count - 1 {
        lemma_not_named(conditions, columns, (count - 1) as nat, index);
    }
}

/// Appends a predicate to another, with `and` between them if neither is
/// empty.
fn conjoin(predicate: &mut String, more: &str)
    ensures
        final(predicate)@ == both(old(predicate)@, more@),
{
    if predicate.as_str().is_empty() {
        predicate.append(more);
    } else if !more.is_empty() {
        predicate.append(" and ");
        predicate.append(more);
    }
}

impl Condition {
    /// A condition that compares a column with a value.
    pub fn compare(column: &str, operator: Operator, value: Value) -> (condition: Condition)
        ensures
            condition matches Condition::Compare { column: c, operator: o, value: v } && c@
                == column@ && o == operator && v == value,
    {
        Condition::Compare { column: String::from_str(column), operator, value }
    }

    /// The condition that this one and another are both met.
    pub fn and(self, other: Condition) -> (condition: Condition)
        ensures
            condition matches Condition::And(conditions) && conditions@ == seq![self, other],
    {
        let mut conditions: Vec<Condition> = Vec::new();
        conditions.push(self);
        conditions.push(other);
        Condition::And(conditions)
    }

    /// Tests whether the condition compares the given columns only.
    pub fn names_columns(&self, columns: &Vec<String>) -> (named: bool)
        ensures
            named == self.names_only(texts(columns@)),
        decreases self,
    {
        match self {
            Condition::All => true,
            Condition::Compare { column, .. } => holds(columns, column),
            Condition::And(conditions) => {
                let mut i: usize = 0;
                while i < conditions.len()
                    invariant
                        i <= conditions.len(),
                        *self matches Condition::And(own) && own == conditions,
                        Self::all_name_only(conditions@, texts(columns@), i as nat),
                    decreases conditions.len() - i,
                {
                    if !conditions[i].names_columns(columns) {
                        proof {
                            lemma_not_named(
                                conditions@,
                                texts(columns@),
                                conditions@.len(),
                                i as int,
                            );
                        }
                        return false;
                    }
                    i += 1;
                }
                true
            },
        }
    }

    /// Appends the condition's predicate to the text and its values to
    /// the arguments. The first parameter gets the number after the
    /// number of arguments there are already.
    fn append(&self, character: char, predicate: &mut String, arguments: &mut Vec<Value>)
        ensures
            final(predicate)@ == both(
                old(predicate)@,
                self.predicate(character, old(arguments)@.len() + 1),
            ),
            cells(final(arguments)@) == cells(old(arguments)@) + self.bound(),
            final(arguments)@.len() == old(arguments)@.len() + self.bound().len(),
        decreases self,
    {
        match self {
            Condition::All => {},
            Condition::Compare { column, operator, value } => {
                let parameter = numbered(character, arguments.len() as u128 + 1);
                let mut own = column.clone();
                own.append(" ");
                own.append(operator.symbol());
                own.append(" ");
                own.append(parameter.as_str());
                conjoin(predicate, own.as_str());
                arguments.push(value.clone());
            },
            Condition::And(conditions) => {
                let mut own = String::new();
                let ghost start = arguments@.len();
                let mut i: usize = 0;
                while i < conditions.len()
                    invariant
                        i <= conditions.len(),
                        *self matches Condition::And(inner) && inner == conditions,
                        start == old(arguments)@.len(),
                        own@ == Self::all_predicates(
                            conditions@,
                            character,
                            start + 1,
                            i as nat,
                        ),
                        cells(arguments@) == cells(old(arguments)@) + Self::all_bound(
                            conditions@,
                            i as nat,
                        ),
                        arguments@.len() == start + Self::all_bound(conditions@, i as nat).len(),
                    decreases conditions.len() - i,
                {
                    conditions[i].append(character, &mut own, arguments);
                    i += 1;
                }
                conjoin(predicate, own.as_str());
            },
        }
    }

    /// Compiles the condition: its clause, with the parameters numbered
    /// from 1 on, and the values bound to them in that order.
    pub fn compile(&self, character: char) -> (compiled: Compiled)
        ensures
            compiled.clause@ == self.clause(character, 1),
            cells(compiled.arguments@) == self.bound(),
    {
        let mut predicate = String::new();
        let mut arguments: Vec<Value> = Vec::new();
        self.append(character, &mut predicate, &mut arguments);
        if predicate.as_str().is_empty() {
            Compiled { clause: predicate, arguments }
        } else {
            let mut clause = String::from_str(" where ");
            clause.append(predicate.as_str());
            Compiled { clause, arguments }
        }
    }
}

} // verus!
