//! The cursor that reads one row cell by cell.

use vstd::prelude::*;
use crate::value::{cells, Cell, Kind, Value};

verus! {

/// Why a row could not be decoded.
#[derive(Debug)]
pub enum DecodeError {
    /// The named column could not be resolved: the row ended before it, or
    /// its cell is null where a value is needed.
    ColumnNotFound(String),
    /// The named column's cell is there but is not of the kind asked for.
    ColumnDecodeError(String),
    /// The tag that was read names no variant.
    UnknownVariant(String),
}

/// What a [`DecodeError`] holds.
pub enum DecodeFailure {
    ColumnNotFound(Seq<char>),
    ColumnDecodeError(Seq<char>),
    UnknownVariant(Seq<char>),
}

impl View for DecodeError {
    type V = DecodeFailure;

    open spec fn view(&self) -> DecodeFailure {
        match self {
            DecodeError::ColumnNotFound(column) => DecodeFailure::ColumnNotFound(column@),
            DecodeError::ColumnDecodeError(column) => DecodeFailure::ColumnDecodeError(column@),
            DecodeError::UnknownVariant(tag) => DecodeFailure::UnknownVariant(tag@),
        }
    }
}

impl PartialEq for DecodeError {
    fn eq(&self, other: &DecodeError) -> (equal: bool) {
        match self {
            DecodeError::ColumnNotFound(a) => match other {
                DecodeError::ColumnNotFound(b) => *a == *b,
                _ => false,
            },
            DecodeError::ColumnDecodeError(a) => match other {
                DecodeError::ColumnDecodeError(b) => *a == *b,
                _ => false,
            },
            DecodeError::UnknownVariant(a) => match other {
                DecodeError::UnknownVariant(b) => *a == *b,
                _ => false,
            },
        }
    }
}

impl vstd::std_specs::cmp::PartialEqSpecImpl for DecodeError {
    open spec fn obeys_eq_spec() -> bool {
        true
    }

    open spec fn eq_spec(&self, other: &DecodeError) -> bool {
        self@ == other@
    }
}

impl DecodeError {
    /// The error in words.
    pub fn message(&self) -> (text: String)
        ensures
            text@ == match self@ {
                DecodeFailure::ColumnNotFound(column) => "no column found for name: "@ + column,
                DecodeFailure::ColumnDecodeError(column) => "error occurred while decoding column "@
                    + column,
                DecodeFailure::UnknownVariant(tag) => "unknown variant: "@ + tag,
            },
    {
        match self {
            DecodeError::ColumnNotFound(column) => String::from_str(
                "no column found for name: ",
            ).concat(column.as_str()),
            DecodeError::ColumnDecodeError(column) => String::from_str(
                "error occurred while decoding column ",
            ).concat(column.as_str()),
            DecodeError::UnknownVariant(tag) => String::from_str("unknown variant: ").concat(
                tag.as_str(),
            ),
        }
    }
}

/// What a read result holds.
pub open spec fn read_view(result: Result<Value, DecodeError>) -> Result<Cell, DecodeFailure> {
    match result {
        Ok(value) => Ok(value@),
        Err(error) => Err(error@),
    }
}

/// What the result of reading an optional value holds.
pub open spec fn optional_view(result: Result<Option<Value>, DecodeError>) -> Result<
    Option<Cell>,
    DecodeFailure,
> {
    match result {
        Ok(Some(value)) => Ok(Some(value@)),
        Ok(None) => Ok(None),
        Err(error) => Err(error@),
    }
}

/// Reading a value of a kind at a position of a row: the cell there, if the
/// row reaches that far and the cell is of the kind.
pub open spec fn read(row: Seq<Cell>, position: nat, column: Seq<char>, kind: Kind) -> Result<
    Cell,
    DecodeFailure,
> {
    if position >= row.len() {
        Err(DecodeFailure::ColumnNotFound(column))
    } else if kind.admits(row[position as int]) {
        Ok(row[position as int])
    } else {
        Err(DecodeFailure::ColumnDecodeError(column))
    }
}

/// Reading a value that may be absent: a null cell is no value, and no failure.
pub open spec fn read_optional(
    row: Seq<Cell>,
    position: nat,
    column: Seq<char>,
    kind: Kind,
) -> Result<Option<Cell>, DecodeFailure> {
    if position >= row.len() {
        Err(DecodeFailure::ColumnNotFound(column))
    } else if row[position as int] is Null {
        Ok(None)
    } else if kind.admits(row[position as int]) {
        Ok(Some(row[position as int]))
    } else {
        Err(DecodeFailure::ColumnDecodeError(column))
    }
}

/// One row and the position of the next cell to read.
///
/// Decoders that share the cursor read consecutive cells without knowing how
/// many cells the others take.
pub struct OffsetRow {
    row: Vec<Value>,
    offset: usize,
    beyond: Ghost<nat>,
}

impl OffsetRow {
    #[verifier::type_invariant]
    spec fn well_formed(&self) -> bool {
        &&& self.offset <= self.row.len()
        &&& self.beyond@ > 0 ==> self.offset == self.row.len()
    }

    /// The cells of the row.
    pub closed spec fn cells(&self) -> Seq<Cell> {
        cells(self.row@)
    }

    /// How many reads were made so far, those past the end of the row included.
    pub closed spec fn position(&self) -> nat {
        self.offset as nat + self.beyond@
    }

    /// A cursor at the first cell of a row.
    pub fn new(row: Vec<Value>) -> (cursor: OffsetRow)
        ensures
            cursor.cells() == cells(row@),
            cursor.position() == 0,
    {
        OffsetRow { row, offset: 0, beyond: Ghost(0) }
    }

    /// The number of cells in the row.
    pub fn len(&self) -> (count: usize)
        ensures
            count == self.cells().len(),
    {
        self.row.len()
    }

    /// The number of cells not read yet.
    pub fn remaining(&self) -> (count: usize)
        ensures
            count == if self.position() <= self.cells().len() {
                self.cells().len() - self.position()
            } else {
                0
            },
    {
        proof {
            use_type_invariant(self);
        }
        self.row.len() - self.offset
    }

    /// Steps over the next cell without reading it.
    pub fn skip(&mut self)
        ensures
            final(self).cells() == old(self).cells(),
            final(self).position() == old(self).position() + 1,
    {
        proof {
            use_type_invariant(&*self);
        }
        if self.offset < self.row.len() {
            self.offset = self.offset + 1;
        } else {
            proof {
                self.beyond@ = self.beyond@ + 1;
            }
        }
    }

    /// Reads the next cell as a value of the given kind, and moves on by one
    /// cell whether that succeeds or not. The column's name is used to name
    /// the failure.
    pub fn try_get(&mut self, column: &str, kind: Kind) -> (result: Result<Value, DecodeError>)
        ensures
            final(self).cells() == old(self).cells(),
            final(self).position() == old(self).position() + 1,
            read_view(result) == read(old(self).cells(), old(self).position(), column@, kind),
    {
        proof {
            use_type_invariant(&*self);
        }
        if self.offset < self.row.len() {
            let value = self.row[self.offset].clone();
            self.offset = self.offset + 1;
            if kind.accepts(&value) {
                Ok(value)
            } else {
                Err(DecodeError::ColumnDecodeError(String::from_str(column)))
            }
        } else {
            proof {
                self.beyond@ = self.beyond@ + 1;
            }
            Err(DecodeError::ColumnNotFound(String::from_str(column)))
        }
    }

    /// Reads the next cell as a value that may be absent, and moves on by one
    /// cell whether that succeeds or not.
    pub fn try_get_optional(&mut self, column: &str, kind: Kind) -> (result: Result<
        Option<Value>,
        DecodeError,
    >)
        ensures
            final(self).cells() == old(self).cells(),
            final(self).position() == old(self).position() + 1,
            optional_view(result) == read_optional(
                old(self).cells(),
                old(self).position(),
                column@,
                kind,
            ),
    {
        proof {
            use_type_invariant(&*self);
        }
        if self.offset < self.row.len() {
            let value = self.row[self.offset].clone();
            self.offset = self.offset + 1;
            match value {
                Value::Null => Ok(None),
                _ => {
                    if kind.accepts(&value) {
                        Ok(Some(value))
                    } else {
                        Err(DecodeError::ColumnDecodeError(String::from_str(column)))
                    }
                },
            }
        } else {
            proof {
                self.beyond@ = self.beyond@ + 1;
            }
            Err(DecodeError::ColumnNotFound(String::from_str(column)))
        }
    }
}

} // verus!
