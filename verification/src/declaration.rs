//! Type declarations as the derives read them.

use vstd::prelude::*;
use crate::value::Kind;

verus! {

/// One token of an attribute's arguments.
#[derive(Debug)]
pub enum Token {
    Ident(String),
    Punct(char),
    Literal(String),
    /// Tokens between brackets, as they are written.
    Group(String),
}

/// An attribute on a declaration: its path, and the tokens between its
/// parentheses if it has any.
#[derive(Debug)]
pub struct Attribute {
    pub path: String,
    pub tokens: Option<Vec<Token>>,
}

/// A field of a declaration: its name, if it has one, its type as it is
/// written, without spaces, and the type that it is stored as, where
/// that is another.
#[derive(Debug)]
pub struct FieldDeclaration {
    pub ident: Option<String>,
    pub ty: String,
    pub store_as: Option<String>,
}

impl FieldDeclaration {
    /// The type that the field's column holds: the one that the field is
    /// stored as, or else its own.
    pub open spec fn spec_stored_type(&self) -> Seq<char> {
        match self.store_as {
            Some(ty) => ty@,
            None => self.ty@,
        }
    }

    /// The type that the field's column holds.
    pub fn stored_type(&self) -> (ty: &String)
        ensures
            ty@ == self.spec_stored_type(),
    {
        match &self.store_as {
            Some(ty) => ty,
            None => &self.ty,
        }
    }
}

/// A variant of an enum declaration.
#[derive(Debug)]
pub struct VariantDeclaration {
    pub ident: String,
    pub discriminant: bool,
    pub fields: Vec<FieldDeclaration>,
}

/// What a declaration declares.
#[derive(Debug)]
pub enum Body {
    Struct(Vec<FieldDeclaration>),
    Enum(Vec<VariantDeclaration>),
    Union,
}

/// A declaration that a derive is applied to.
#[derive(Debug)]
pub struct DeriveInput {
    pub ident: String,
    pub attrs: Vec<Attribute>,
    pub body: Body,
}

/// Why a declaration could not be read.
#[derive(Debug)]
pub enum ParseError {
    /// An identifier was expected.
    ExpectedIdent,
    /// `=` was expected.
    ExpectedEquals,
    /// A literal was expected.
    ExpectedLiteral,
    /// The attribute has no arguments in parentheses.
    ExpectedList,
    /// The attribute's argument is not known.
    UnexpectedAttribute(String),
}

/// What a [`ParseError`] holds.
pub enum ParseFailure {
    ExpectedIdent,
    ExpectedEquals,
    ExpectedLiteral,
    ExpectedList,
    UnexpectedAttribute(Seq<char>),
}

impl View for ParseError {
    type V = ParseFailure;

    open spec fn view(&self) -> ParseFailure {
        match self {
            ParseError::ExpectedIdent => ParseFailure::ExpectedIdent,
            ParseError::ExpectedEquals => ParseFailure::ExpectedEquals,
            ParseError::ExpectedLiteral => ParseFailure::ExpectedLiteral,
            ParseError::ExpectedList => ParseFailure::ExpectedList,
            ParseError::UnexpectedAttribute(name) => ParseFailure::UnexpectedAttribute(name@),
        }
    }
}

impl PartialEq for ParseError {
    fn eq(&self, other: &ParseError) -> (equal: bool) {
        match self {
            ParseError::ExpectedIdent => match other {
                ParseError::ExpectedIdent => true,
                _ => false,
            },
            ParseError::ExpectedEquals => match other {
                ParseError::ExpectedEquals => true,
                _ => false,
            },
            ParseError::ExpectedLiteral => match other {
                ParseError::ExpectedLiteral => true,
                _ => false,
            },
            ParseError::ExpectedList => match other {
                ParseError::ExpectedList => true,
                _ => false,
            },
            ParseError::UnexpectedAttribute(a) => match other {
                ParseError::UnexpectedAttribute(b) => *a == *b,
                _ => false,
            },
        }
    }
}

impl vstd::std_specs::cmp::PartialEqSpecImpl for ParseError {
    open spec fn obeys_eq_spec() -> bool {
        true
    }

    open spec fn eq_spec(&self, other: &ParseError) -> bool {
        self@ == other@
    }
}

impl ParseError {
    /// The error in words.
    pub fn message(&self) -> (text: String)
        ensures
            text@ == match self@ {
                ParseFailure::ExpectedIdent => "expected identifier"@,
                ParseFailure::ExpectedEquals => "expected `=`"@,
                ParseFailure::ExpectedLiteral => "expected literal"@,
                ParseFailure::ExpectedList => "expected attribute arguments in parentheses"@,
                ParseFailure::UnexpectedAttribute(_) => "unexpected Component attribute"@,
            },
    {
        match self {
            ParseError::ExpectedIdent => String::from_str("expected identifier"),
            ParseError::ExpectedEquals => String::from_str("expected `=`"),
            ParseError::ExpectedLiteral => String::from_str("expected literal"),
            ParseError::ExpectedList => String::from_str(
                "expected attribute arguments in parentheses",
            ),
            ParseError::UnexpectedAttribute(_) => String::from_str(
                "unexpected Component attribute",
            ),
        }
    }
}

/// The kind that a type's name stands for: one of the scalar kinds, or
/// that of the other types.
pub open spec fn scalar(name: Seq<char>) -> Kind {
    if name == "i8"@ {
        Kind::I8
    } else if name == "i16"@ {
        Kind::I16
    } else if name == "i32"@ {
        Kind::I32
    } else if name == "i64"@ {
        Kind::I64
    } else if name == "u8"@ {
        Kind::U8
    } else if name == "u16"@ {
        Kind::U16
    } else if name == "u32"@ {
        Kind::U32
    } else if name == "bool"@ {
        Kind::Bool
    } else if name == "String"@ {
        Kind::Text
    } else {
        Kind::Other
    }
}

/// Whether a type is written as an `Option` of another.
pub open spec fn is_option(ty: Seq<char>) -> bool {
    ty.len() >= 8 && ty.subrange(0, 7) == "Option<"@ && ty[ty.len() - 1] == '>'
}

/// The kind that a type stands for, and whether it takes no value: an
/// `Option` stands for the kind of what it holds, and takes no value.
pub open spec fn stored_as(ty: Seq<char>) -> (Kind, bool) {
    if is_option(ty) {
        (scalar(ty.subrange(7, ty.len() - 1)), true)
    } else {
        (scalar(ty), false)
    }
}

/// Tests two texts for equality.
pub fn same_text(a: &str, b: &str) -> (same: bool)
    ensures
        same == (a@ == b@),
{
    let a = String::from_str(a);
    let b = String::from_str(b);
    a == b
}

/// Finds the kind that a type's name stands for.
pub fn scalar_kind(name: &str) -> (kind: Kind)
    ensures
        kind == scalar(name@),
{
    if same_text(name, "i8") {
        Kind::I8
    } else if same_text(name, "i16") {
        Kind::I16
    } else if same_text(name, "i32") {
        Kind::I32
    } else if same_text(name, "i64") {
        Kind::I64
    } else if same_text(name, "u8") {
        Kind::U8
    } else if same_text(name, "u16") {
        Kind::U16
    } else if same_text(name, "u32") {
        Kind::U32
    } else if same_text(name, "bool") {
        Kind::Bool
    } else if same_text(name, "String") {
        Kind::Text
    } else {
        Kind::Other
    }
}

/// Finds the kind that a type stands for, and whether it takes no value.
pub fn storage(ty: &str) -> (stored: (Kind, bool))
    ensures
        stored == stored_as(ty@),
{
    let length = ty.unicode_len();
    if length >= 8 && same_text(ty.substring_char(0, 7), "Option<") && ty.get_char(length - 1)
        == '>' {
        (scalar_kind(ty.substring_char(7, length - 1)), true)
    } else {
        (scalar_kind(ty), false)
    }
}

} // verus!
