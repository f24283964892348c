//! The arguments of the `erm` attribute on a component's declaration.

use vstd::prelude::*;
use crate::declaration::{same_text, Attribute, DeriveInput, ParseError, ParseFailure, Token};
use crate::text::{texts};

verus! {

/// One argument of the attribute.
#[derive(Debug)]
pub enum ComponentAttribute {
    /// Changes the name of the component's table.
    Table { name: String },
}

/// The arguments of one attribute, in order.
#[derive(Debug)]
pub struct ComponentAttributeList(pub Vec<ComponentAttribute>);

/// The table names that the arguments give, in order.
pub open spec fn tables(attributes: Seq<ComponentAttribute>) -> Seq<Seq<char>> {
    Seq::new(attributes.len(), |i: int| attributes[i]->name@)
}

/// Whether a token is the given punctuation character.
pub open spec fn is_punct(token: Token, character: char) -> bool {
    token matches Token::Punct(c) && c == character
}

/// The argument that starts at a position of the tokens: `table`, `=` and
/// a literal, which is the table's name.
pub open spec fn attribute_at(
    tokens: Seq<Token>,
    position: nat,
) -> Result<Seq<char>, ParseFailure> {
    if position >= tokens.len() {
        Err(ParseFailure::ExpectedIdent)
    } else {
        match tokens[position as int] {
            Token::Ident(ident) => if ident@ != "table"@ {
                Err(ParseFailure::UnexpectedAttribute(ident@))
            } else if position + 1 >= tokens.len() || !is_punct(tokens[position as int + 1], '=') {
                Err(ParseFailure::ExpectedEquals)
            } else if position + 2 >= tokens.len() {
                Err(ParseFailure::ExpectedLiteral)
            } else {
                match tokens[position as int + 2] {
                    Token::Literal(name) => Ok(name@),
                    _ => Err(ParseFailure::ExpectedLiteral),
                }
            },
            _ => Err(ParseFailure::ExpectedIdent),
        }
    }
}

/// Where the next argument starts after the one at a position: after its
/// three tokens, and after the comma that may follow them.
pub open spec fn after_attribute(tokens: Seq<Token>, position: nat) -> nat {
    if position + 3 < tokens.len() && is_punct(tokens[position as int + 3], ',') {
        position + 4
    } else {
        position + 3
    }
}

/// The table names that the arguments from a position on give: every
/// argument is read, up to the end of the tokens or the first that cannot
/// be read.
pub open spec fn attributes_from(tokens: Seq<Token>, position: nat) -> Result<
    Seq<Seq<char>>,
    ParseFailure,
>
    decreases tokens.len() - position,
{
    if position >= tokens.len() {
        Ok(Seq::empty())
    } else {
        match attribute_at(tokens, position) {
            Err(failure) => Err(failure),
            Ok(name) => match attributes_from(tokens, after_attribute(tokens, position)) {
                Err(failure) => Err(failure),
                Ok(rest) => Ok(seq![name] + rest),
            },
        }
    }
}

/// The table names that the first `count` attributes give: those of every
/// `erm` attribute, in order, up to the first that cannot be read.
pub open spec fn declared_tables(attrs: Seq<Attribute>, count: nat) -> Result<
    Seq<Seq<char>>,
    ParseFailure,
>
    decreases count,
{
    if count == 0 || count > attrs.len() {
        Ok(Seq::empty())
    } else {
        match declared_tables(attrs, (count - 1) as nat) {
            Err(failure) => Err(failure),
            Ok(names) => if attrs[count - 1].path@ != "erm"@ {
                Ok(names)
            } else {
                match attrs[count - 1].tokens {
                    None => Err(ParseFailure::ExpectedList),
                    Some(tokens) => match attributes_from(tokens@, 0) {
                        Err(failure) => Err(failure),
                        Ok(more) => Ok(names + more),
                    },
                }
            },
        }
    }
}

/// The name of the table that a declaration asks for: the first that its
/// attributes give, or the name of its type if they give none.
pub open spec fn declared_table(derive: DeriveInput) -> Result<Seq<char>, ParseFailure> {
    match declared_tables(derive.attrs@, derive.attrs@.len()) {
        Err(failure) => Err(failure),
        Ok(names) => if names.len() > 0 {
            Ok(names[0])
        } else {
            Ok(derive.ident@)
        },
    }
}

impl ComponentAttribute {
    /// The table's name, if the argument sets it.
    pub fn table(&self) -> (name: Option<String>)
        ensures
            name matches Some(name) && name@ == self->name@,
    {
        match self {
            ComponentAttribute::Table { name } => Some(name.clone()),
        }
    }

    /// Reads the argument that starts at the position, and moves the
    /// position to its end.
    pub fn parse(tokens: &Vec<Token>, position: &mut usize) -> (result: Result<
        ComponentAttribute,
        ParseError,
    >)
        ensures
            match result {
                Ok(attribute) => attribute_at(tokens@, *old(position) as nat) == Ok::<
                    Seq<char>,
                    ParseFailure,
                >(attribute->name@) && *final(position) == *old(position) + 3,
                Err(error) => attribute_at(tokens@, *old(position) as nat) == Err::<
                    Seq<char>,
                    ParseFailure,
                >(error@) && *final(position) == *old(position),
            },
    {
        let at = *position;
        if at >= tokens.len() {
            return Err(ParseError::ExpectedIdent);
        }
        match &tokens[at] {
            Token::Ident(ident) => {
                if !same_text(ident.as_str(), "table") {
                    return Err(ParseError::UnexpectedAttribute(ident.clone()));
                }
            },
            _ => {
                return Err(ParseError::ExpectedIdent);
            },
        }
        if tokens.len() - at < 2 {
            return Err(ParseError::ExpectedEquals);
        }
        match &tokens[at + 1] {
            Token::Punct(c) => {
                if *c != '=' {
                    return Err(ParseError::ExpectedEquals);
                }
            },
            _ => {
                return Err(ParseError::ExpectedEquals);
            },
        }
        if tokens.len() - at < 3 {
            return Err(ParseError::ExpectedLiteral);
        }
        match &tokens[at + 2] {
            Token::Literal(name) => {
                *position = at + 3;
                Ok(ComponentAttribute::Table { name: name.clone() })
            },
            _ => Err(ParseError::ExpectedLiteral),
        }
    }
}

impl ComponentAttributeList {
    /// Reads the arguments of an attribute: one after the other, a comma
    /// between them or none.
    pub fn parse(tokens: &Vec<Token>) -> (result: Result<ComponentAttributeList, ParseError>)
        ensures
            match result {
                Ok(list) => attributes_from(tokens@, 0) == Ok::<Seq<Seq<char>>, ParseFailure>(
                    tables(list.0@),
                ),
                Err(error) => attributes_from(tokens@, 0) == Err::<Seq<Seq<char>>, ParseFailure>(
                    error@,
                ),
            },
    {
        let mut attributes: Vec<ComponentAttribute> = Vec::new();
        let mut position: usize = 0;
        while position < tokens.len()
            invariant
                position <= tokens.len(),
                match attributes_from(tokens@, position as nat) {
                    Err(failure) => attributes_from(tokens@, 0) == Err::<
                        Seq<Seq<char>>,
                        ParseFailure,
                    >(failure),
                    Ok(rest) => attributes_from(tokens@, 0) == Ok::<Seq<Seq<char>>, ParseFailure>(
                        tables(attributes@) + rest,
                    ),
                },
            decreases tokens.len() - position,
        {
            let ghost start = position as nat;
            match ComponentAttribute::parse(tokens, &mut position) {
                Err(error) => {
                    return Err(error);
                },
                Ok(attribute) => {
                    proof {
                        match attributes_from(tokens@, after_attribute(tokens@, start)) {
                            Ok(rest) => {
                                assert(tables(attributes@) + (seq![attribute->name@] + rest)
                                    =~= tables(attributes@.push(attribute)) + rest);
                            },
                            Err(_) => {},
                        }
                    }
                    attributes.push(attribute);
                },
            }
            if position < tokens.len() {
                match &tokens[position] {
                    Token::Punct(c) => {
                        if *c == ',' {
                            position = position + 1;
                        }
                    },
                    _ => {},
                }
            }
        }
        Ok(ComponentAttributeList(attributes))
    }
}

/// Finds the name of the table that a declaration asks for.
pub fn table_name_of(derive: &DeriveInput) -> (result: Result<String, ParseError>)
    ensures
        match result {
            Ok(name) => declared_table(*derive) == Ok::<Seq<char>, ParseFailure>(name@),
            Err(error) => declared_table(*derive) == Err::<Seq<char>, ParseFailure>(error@),
        },
{
    let mut names: Vec<String> = Vec::new();
    let mut i: usize = 0;
    assert(texts(names@) =~= Seq::<Seq<char>>::empty());
    while i < derive.attrs.len()
        invariant
            i <= derive.attrs.len(),
            declared_tables(derive.attrs@, i as nat) == Ok::<Seq<Seq<char>>, ParseFailure>(
                texts(names@),
            ),
        decreases derive.attrs.len() - i,
    {
        let attribute = &derive.attrs[i];
        if same_text(attribute.path.as_str(), "erm") {
            match &attribute.tokens {
                None => {
                    proof {
                        lemma_declared_failure(derive.attrs@, (i + 1) as nat, derive.attrs@.len());
                    }
                    return Err(ParseError::ExpectedList);
                },
                Some(tokens) => match ComponentAttributeList::parse(tokens) {
                    Err(error) => {
                        proof {
                            lemma_declared_failure(
                                derive.attrs@,
                                (i + 1) as nat,
                                derive.attrs@.len(),
                            );
                        }
                        return Err(error);
                    },
                    Ok(list) => {
                        let ghost before = texts(names@);
                        let mut k: usize = 0;
                        while k < list.0.len()
                            invariant
                                k <= list.0.len(),
                                texts(names@) == before + tables(list.0@).take(k as int),
                            decreases list.0.len() - k,
                        {
                            let name = match &list.0[k] {
                                ComponentAttribute::Table { name } => name.clone(),
                            };
                            proof {
                                assert((before + tables(list.0@).take(k as int)).push(name@)
                                    =~= before + tables(list.0@).take(k as int + 1));
                            }
                            names.push(name);
                            k += 1;
                        }
                        proof {
                            assert(tables(list.0@).take(list.0.len() as int) =~= tables(list.0@));
                        }
                    },
                },
            }
        }
        i += 1;
    }
    if names.len() > 0 {
        Ok(names[0].clone())
    } else {
        Ok(derive.ident.clone())
    }
}

proof fn lemma_declared_failure(attrs: Seq<Attribute>, failed: nat, count: nat)
    requires
        failed <= count <= attrs.len(),
        declared_tables(attrs, failed) is Err,
    ensures
        declared_tables(attrs, count) == declared_tables(attrs, failed),
    decreases count,
{
    if failed < count {
        lemma_declared_failure(attrs, failed, (count - 1) as nat);
    }
}

} // verus!
