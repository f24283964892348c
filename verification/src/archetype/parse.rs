//! Reading archetypes from their declarations.

use vstd::prelude::*;
use crate::archetype::{member_names, Archetype, EnumArchetype, Member, StructArchetype, Variant};
use crate::cte::holds;
use crate::declaration::{Body, DeriveInput, FieldDeclaration, VariantDeclaration};
use crate::text::{
    decimal,
    decimal_string,
    first_index,
    first_occurrences,
    lemma_first_index_is,
    lemma_first_occurrences,
    texts,
};

verus! {

/// The name of the member that a declaration declares in the given
/// place: the declared name, or the number of the place.
pub open spec fn declared_name(index: nat, declaration: FieldDeclaration) -> Seq<char> {
    match declaration.ident {
        Some(name) => name@,
        None => decimal(index),
    }
}

/// The names of the members that the declarations declare, in order.
pub open spec fn declared_names(declarations: Seq<FieldDeclaration>) -> Seq<Seq<char>> {
    Seq::new(declarations.len(), |i: int| declared_name(i as nat, declarations[i]))
}

/// The names of the members of the first `count` variants, variant by
/// variant.
pub open spec fn all_names(variants: Seq<VariantDeclaration>, count: nat) -> Seq<Seq<char>>
    decreases count,
{
    if count == 0 || count > variants.len() {
        Seq::empty()
    } else {
        all_names(variants, (count - 1) as nat) + declared_names(variants[count - 1].fields@)
    }
}

/// Writes the name of the member that a declaration declares.
fn name_declared(index: usize, declaration: &FieldDeclaration) -> (name: String)
    ensures
        name@ == declared_name(index as nat, *declaration),
{
    match &declaration.ident {
        Some(name) => name.clone(),
        None => decimal_string(index as u128),
    }
}

/// Writes the names of the members that the declarations declare.
fn names_declared(declarations: &Vec<FieldDeclaration>) -> (names: Vec<String>)
    ensures
        texts(names@) == declared_names(declarations@),
{
    let mut names: Vec<String> = Vec::new();
    let mut i: usize = 0;
    while i < declarations.len()
        invariant
            i <= declarations.len(),
            texts(names@) == declared_names(declarations@).take(i as int),
        decreases declarations.len() - i,
    {
        let name = name_declared(i, &declarations[i]);
        proof {
            assert(declared_names(declarations@).take(i as int).push(name@) =~= declared_names(
                declarations@,
            ).take(i as int + 1));
        }
        names.push(name);
        i += 1;
    }
    names
}

impl Variant {
    /// Reads the variant that a declaration declares: its name and the
    /// names of its fields.
    pub fn try_from(variant: &VariantDeclaration) -> (read: Variant)
        requires
            !variant.discriminant,
        ensures
            read.ident@ == variant.ident@,
            texts(read.fields@) == declared_names(variant.fields@),
    {
        Variant { ident: variant.ident.clone(), fields: names_declared(&variant.fields) }
    }
}

impl StructArchetype {
    /// Whether the archetype is the one that a declaration of fields
    /// declares, with the given archetypes for the fields' types: named
    /// as the type, with one member for each field, named as the field.
    pub open spec fn declared_by(&self, derive: DeriveInput, resolved: Seq<Archetype>) -> bool {
        &&& self.typename@ == derive.ident@
        &&& member_names(self.fields@) == declared_names(derive.body->Struct_0@)
        &&& self.fields@.len() == resolved.len()
        &&& forall|i: int|
            0 <= i < resolved.len() ==> (#[trigger] self.fields@[i]).archetype == resolved[i]
    }

    /// Reads the archetype that a declaration of fields declares. The
    /// archetypes of the fields' types are given, one for each field.
    pub fn parse(derive: &DeriveInput, resolved: Vec<Archetype>) -> (archetype: StructArchetype)
        requires
            derive.body is Struct,
            resolved@.len() == derive.body->Struct_0@.len(),
        ensures
            archetype.declared_by(*derive, resolved@),
    {
        match &derive.body {
            Body::Struct(declarations) => {
                let mut rest = resolved;
                let mut fields: Vec<Member> = Vec::new();
                let mut i: usize = 0;
                while i < declarations.len()
                    invariant
                        i <= declarations.len(),
                        declarations.len() == resolved@.len(),
                        rest@ == resolved@.skip(i as int),
                        fields@.len() == i,
                        member_names(fields@) == declared_names(declarations@).take(i as int),
                        forall|k: int|
                            0 <= k < i ==> (#[trigger] fields@[k]).archetype == resolved@[k],
                    decreases declarations.len() - i,
                {
                    let archetype = rest.remove(0);
                    let member = Member { name: name_declared(i, &declarations[i]), archetype };
                    fields.push(member);
                    i += 1;
                }
                proof {
                    assert(declared_names(declarations@).take(declarations.len() as int)
                        =~= declared_names(declarations@));
                }
                StructArchetype { typename: derive.ident.clone(), fields }
            },
            _ => vstd::pervasive::unreached(),
        }
    }
}

impl EnumArchetype {
    /// Whether the archetype is the one that a declaration of variants
    /// declares, with the given archetypes for the fields' types: named
    /// as the type, with the declared variants, and with one member for
    /// each name that a field has, which is the first field of that name.
    pub open spec fn declared_by(&self, derive: DeriveInput, resolved: Seq<Archetype>) -> bool {
        let declarations = derive.body->Enum_0@;
        let all = all_names(declarations, declarations.len());
        &&& self.typename@ == derive.ident@
        &&& self.variants@.len() == declarations.len()
        &&& forall|k: int|
            0 <= k < self.variants@.len() ==> (#[trigger] self.variants@[k]).ident@
                == declarations[k].ident@ && texts(self.variants@[k].fields@) == declared_names(
                declarations[k].fields@,
            )
        &&& member_names(self.members@) == first_occurrences(all, resolved.len())
        &&& forall|j: int|
            0 <= j < self.members@.len() ==> (#[trigger] self.members@[j]).archetype
                == resolved[first_index(all, self.members@[j].name@)]
    }

    /// Reads the archetype that a declaration of variants declares. The
    /// archetypes of the fields' types are given, one for each field of
    /// each variant; of several fields of one name the first is kept.
    pub fn parse(derive: &DeriveInput, resolved: Vec<Archetype>) -> (archetype: EnumArchetype)
        requires
            derive.body is Enum,
            forall|k: int|
                0 <= k < derive.body->Enum_0@.len() ==> !(
                #[trigger] derive.body->Enum_0@[k]).discriminant,
            resolved@.len() == all_names(derive.body->Enum_0@, derive.body->Enum_0@.len()).len(),
        ensures
            archetype.declared_by(*derive, resolved@),
    {
        match &derive.body {
            Body::Enum(declarations) => {
                let ghost all = all_names(declarations@, declarations@.len());
                let mut names: Vec<String> = Vec::new();
                let mut variants: Vec<Variant> = Vec::new();
                let mut k: usize = 0;
                while k < declarations.len()
                    invariant
                        k <= declarations.len(),
                        forall|i: int|
                            0 <= i < declarations@.len() ==> !(
                            #[trigger] declarations@[i]).discriminant,
                        variants@.len() == k,
                        texts(names@) == all_names(declarations@, k as nat),
                        forall|i: int|
                            0 <= i < k ==> (#[trigger] variants@[i]).ident@
                                == declarations@[i].ident@ && texts(variants@[i].fields@)
                                == declared_names(declarations@[i].fields@),
                    decreases declarations.len() - k,
                {
                    let variant = Variant::try_from(&declarations[k]);
                    let mut more = crate::cte::clone_strings(&variant.fields);
                    names.append(&mut more);
                    variants.push(variant);
                    k += 1;
                }
                let mut rest = resolved;
                let mut members: Vec<Member> = Vec::new();
                let mut known: Vec<String> = Vec::new();
                let mut i: usize = 0;
                while i < names.len()
                    invariant
                        i <= names.len(),
                        names@.len() == resolved@.len(),
                        texts(names@) == all,
                        rest@ == resolved@.skip(i as int),
                        members@.len() == known@.len(),
                        texts(known@) == member_names(members@),
                        texts(known@) == first_occurrences(all, i as nat),
                        forall|j: int|
                            0 <= j < members@.len() ==> 0 <= first_index(
                                all,
                                (#[trigger] members@[j]).name@,
                            ) < i && members@[j].archetype == resolved@[first_index(
                                all,
                                members@[j].name@,
                            )],
                    decreases names.len() - i,
                {
                    let archetype = rest.remove(0);
                    proof {
                        lemma_first_occurrences(all, i as nat);
                    }
                    if !holds(&known, &names[i]) {
                        let member = Member { name: names[i].clone(), archetype };
                        proof {
                            lemma_first_index_is(all, all[i as int], i as int);
                            assert(member_names(members@.push(member)) =~= member_names(
                                members@,
                            ).push(member.name@));
                        }
                        known.push(names[i].clone());
                        members.push(member);
                    }
                    i += 1;
                }
                EnumArchetype { typename: derive.ident.clone(), members, variants }
            },
            _ => vstd::pervasive::unreached(),
        }
    }
}

impl Archetype {
    /// Whether the archetype is the one that a declaration declares,
    /// with the given archetypes for the fields' types.
    pub open spec fn declared_by(&self, derive: DeriveInput, resolved: Seq<Archetype>) -> bool {
        match derive.body {
            Body::Struct(_) => *self matches Archetype::Struct(group) && group.declared_by(
                derive,
                resolved,
            ),
            Body::Enum(_) => *self matches Archetype::Enum(choice) && choice.declared_by(
                derive,
                resolved,
            ),
            Body::Union => false,
        }
    }

    /// Whether a declaration, with archetypes for its fields' types,
    /// declares an archetype: it is no union, none of its variants has a
    /// discriminant, and there is one archetype for each field.
    pub open spec fn declarable(derive: DeriveInput, resolved: Seq<Archetype>) -> bool {
        match derive.body {
            Body::Struct(fields) => resolved.len() == fields@.len(),
            Body::Enum(variants) => resolved.len() == all_names(variants@, variants@.len()).len()
                && forall|k: int|
                    0 <= k < variants@.len() ==> !(#[trigger] variants@[k]).discriminant,
            Body::Union => false,
        }
    }

    /// Reads the archetype that a declaration declares. The archetypes of
    /// the fields' types are given, one for each field.
    pub fn parse(derive: &DeriveInput, resolved: Vec<Archetype>) -> (archetype: Archetype)
        requires
            Self::declarable(*derive, resolved@),
        ensures
            archetype.declared_by(*derive, resolved@),
    {
        match &derive.body {
            Body::Struct(_) => Archetype::Struct(StructArchetype::parse(derive, resolved)),
            Body::Enum(_) => Archetype::Enum(EnumArchetype::parse(derive, resolved)),
            Body::Union => vstd::pervasive::unreached(),
        }
    }
}

} // verus!
