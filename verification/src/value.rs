//! Scalar values as the driver stores them, and the kinds a field can have.

use vstd::prelude::*;

verus! {

/// The scalar type of a stored field.
#[derive(Debug, Clone, Copy, PartialEq, Eq, Structural)]
pub enum Kind {
    /// A signed 8-bit integer, stored as an integer.
    I8,
    /// A signed 16-bit integer, stored as an integer.
    I16,
    /// A signed 32-bit integer, stored as an integer.
    I32,
    /// A signed 64-bit integer.
    I64,
    /// An unsigned 8-bit integer, stored as an integer.
    U8,
    /// An unsigned 16-bit integer, stored as an integer.
    U16,
    /// An unsigned 32-bit integer, stored as an integer.
    U32,
    /// A truth value, stored as 0 or 1.
    Bool,
    /// A string.
    Text,
    /// Any other type: no value of it is held, and no database has a
    /// column type for it.
    Other,
}

/// One cell of a row, or one bound parameter of a statement.
#[derive(Debug)]
pub enum Value {
    Null,
    Integer(i64),
    Text(String),
}

/// What a [`Value`] holds.
pub enum Cell {
    Null,
    Integer(i64),
    Text(Seq<char>),
}

impl View for Value {
    type V = Cell;

    open spec fn view(&self) -> Cell {
        match self {
            Value::Null => Cell::Null,
            Value::Integer(v) => Cell::Integer(*v),
            Value::Text(s) => Cell::Text(s@),
        }
    }
}

impl Clone for Value {
    fn clone(&self) -> (copy: Value)
        ensures
            copy == *self,
    {
        match self {
            Value::Null => Value::Null,
            Value::Integer(v) => Value::Integer(*v),
            Value::Text(s) => Value::Text(s.clone()),
        }
    }
}

impl PartialEq for Value {
    fn eq(&self, other: &Value) -> (equal: bool) {
        match self {
            Value::Null => match other {
                Value::Null => true,
                _ => false,
            },
            Value::Integer(a) => match other {
                Value::Integer(b) => *a == *b,
                _ => false,
            },
            Value::Text(a) => match other {
                Value::Text(b) => *a == *b,
                _ => false,
            },
        }
    }
}

impl vstd::std_specs::cmp::PartialEqSpecImpl for Value {
    open spec fn obeys_eq_spec() -> bool {
        true
    }

    open spec fn eq_spec(&self, other: &Value) -> bool {
        self@ == other@
    }
}

/// What a sequence of values holds.
pub open spec fn cells(values: Seq<Value>) -> Seq<Cell> {
    Seq::new(values.len(), |i: int| values[i]@)
}

/// As many null cells as asked for.
pub open spec fn nulls(count: nat) -> Seq<Cell> {
    Seq::new(count, |i: int| Cell::Null)
}

pub(crate) proof fn lemma_cells_push(values: Seq<Value>, last: Value)
    ensures
        cells(values.push(last)) == cells(values).push(last@),
{
}

impl Kind {
    /// Whether a cell holds a value of this kind: an integer in the
    /// kind's range, or a text. No kind admits null, and the kind of the
    /// other types admits nothing.
    pub open spec fn admits(self, cell: Cell) -> bool {
        match self {
            Kind::I8 => cell matches Cell::Integer(v) && i8::MIN <= v <= i8::MAX,
            Kind::I16 => cell matches Cell::Integer(v) && i16::MIN <= v <= i16::MAX,
            Kind::I32 => cell matches Cell::Integer(v) && i32::MIN <= v <= i32::MAX,
            Kind::I64 => cell is Integer,
            Kind::U8 => cell matches Cell::Integer(v) && 0 <= v <= u8::MAX,
            Kind::U16 => cell matches Cell::Integer(v) && 0 <= v <= u16::MAX,
            Kind::U32 => cell matches Cell::Integer(v) && 0 <= v <= u32::MAX,
            Kind::Bool => cell matches Cell::Integer(v) && 0 <= v <= 1,
            Kind::Text => cell is Text,
            Kind::Other => false,
        }
    }

    /// Tests whether the value is of this kind.
    pub fn accepts(&self, value: &Value) -> (accepted: bool)
        ensures
            accepted == self.admits(value@),
    {
        match value {
            Value::Null => false,
            Value::Text(_) => match self {
                Kind::Text => true,
                _ => false,
            },
            Value::Integer(v) => match self {
                Kind::I8 => -0x80 <= *v && *v <= 0x7f,
                Kind::I16 => -0x8000 <= *v && *v <= 0x7fff,
                Kind::I32 => -0x8000_0000 <= *v && *v <= 0x7fff_ffff,
                Kind::I64 => true,
                Kind::U8 => 0 <= *v && *v <= 0xff,
                Kind::U16 => 0 <= *v && *v <= 0xffff,
                Kind::U32 => 0 <= *v && *v <= 0xffff_ffff,
                Kind::Bool => 0 <= *v && *v <= 1,
                Kind::Text => false,
                Kind::Other => false,
            },
        }
    }
}

/// Copies the values.
pub fn clone_values(values: &Vec<Value>) -> (copy: Vec<Value>)
    ensures
        copy@ == values@,
{
    let mut copy: Vec<Value> = Vec::new();
    let mut i: usize = 0;
    while i < values.len()
        invariant
            i <= values.len(),
            copy@ == values@.take(i as int),
        decreases values.len() - i,
    {
        copy.push(values[i].clone());
        i += 1;
    }
    copy
}

/// Tests whether two lists hold the same values.
pub fn same_values(a: &Vec<Value>, b: &Vec<Value>) -> (same: bool)
    ensures
        same == (cells(a@) == cells(b@)),
{
    if a.len() != b.len() {
        assert(cells(a@).len() != cells(b@).len());
        return false;
    }
    let mut i: usize = 0;
    while i < a.len()
        invariant
            i <= a.len(),
            a.len() == b.len(),
            forall|k: int| 0 <= k < i ==> cells(a@)[k] == cells(b@)[k],
        decreases a.len() - i,
    {
        if a[i] != b[i] {
            assert(cells(a@)[i as int] != cells(b@)[i as int]);
            return false;
        }
        i += 1;
    }
    assert(cells(a@) =~= cells(b@));
    true
}

} // verus!
