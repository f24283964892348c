use enorm::archetype::{Archetype, EnumArchetype, StructArchetype};
use enorm::component::attribute::{table_name_of, ComponentAttribute, ComponentAttributeList};
use enorm::component::enum_component::EnumComponent;
use enorm::component::struct_component::StructComponent;
use enorm::component::{implement_for, Component};
use enorm::declaration::{
    same_text, scalar_kind, storage, Attribute, Body, DeriveInput, FieldDeclaration, ParseError,
    Token, VariantDeclaration,
};
use enorm::derive::{derive_archetype, derive_component};
use enorm::driver::Database;
use enorm::field::{parse_fields, Field};
use enorm::value::{Kind, Value};

fn ident(name: &str) -> Token {
    Token::Ident(name.to_string())
}

fn literal(text: &str) -> Token {
    Token::Literal(text.to_string())
}

fn table(name: &str) -> Vec<Token> {
    vec![ident("table"), Token::Punct('='), literal(name)]
}

fn erm(tokens: Vec<Token>) -> Attribute {
    Attribute { path: "erm".to_string(), tokens: Some(tokens) }
}

fn field(name: Option<&str>, ty: &str) -> FieldDeclaration {
    FieldDeclaration { ident: name.map(|name| name.to_string()), ty: ty.to_string(), store_as: None }
}

fn variant(name: &str, fields: Vec<FieldDeclaration>) -> VariantDeclaration {
    VariantDeclaration { ident: name.to_string(), discriminant: false, fields }
}

fn position(attrs: Vec<Attribute>) -> DeriveInput {
    DeriveInput {
        ident: "Position".to_string(),
        attrs,
        body: Body::Struct(vec![field(Some("x"), "i64"), field(Some("y"), "Option<i64>")]),
    }
}

fn light_switch() -> DeriveInput {
    DeriveInput {
        ident: "LightSwitch".to_string(),
        attrs: vec![],
        body: Body::Enum(vec![
            variant("On", vec![field(Some("field_a"), "i64")]),
            variant("Off", vec![field(Some("field_b"), "i64"), field(Some("field_c"), "u32")]),
            variant("Whatever", vec![]),
        ]),
    }
}

fn component(typename: &str, kind: Kind) -> Archetype {
    Archetype::Component(Component::Struct(StructComponent {
        typename: typename.to_string(),
        table_name: typename.to_string(),
        fields: vec![Field::Numbered { index: 0, kind, nullable: false }],
    }))
}

#[test]
fn attribute_sets_the_table() {
    let mut position = 0;
    let attribute = ComponentAttribute::parse(&table("\"people\""), &mut position).unwrap();
    assert_eq!(position, 3);
    assert_eq!(attribute.table(), Some("\"people\"".to_string()));
}

#[test]
fn attribute_must_be_known() {
    let mut position = 0;
    let tokens = vec![ident("index"), Token::Punct('='), literal("1")];
    match ComponentAttribute::parse(&tokens, &mut position) {
        Err(error) => {
            assert_eq!(error, ParseError::UnexpectedAttribute("index".to_string()));
            assert_eq!(error.message(), "unexpected Component attribute");
        }
        Ok(_) => panic!("the attribute is not known"),
    }
    assert_eq!(position, 0);
}

#[test]
fn attribute_grammar_is_ident_equals_literal() {
    let failure = |tokens: Vec<Token>, position: usize| {
        let mut position = position;
        match ComponentAttribute::parse(&tokens, &mut position) {
            Err(error) => error,
            Ok(_) => panic!("the tokens are no attribute"),
        }
    };
    assert_eq!(failure(vec![], 0), ParseError::ExpectedIdent);
    assert_eq!(failure(table("x"), 3), ParseError::ExpectedIdent);
    assert_eq!(failure(vec![literal("table")], 0), ParseError::ExpectedIdent);
    assert_eq!(failure(vec![Token::Punct('=')], 0), ParseError::ExpectedIdent);
    assert_eq!(failure(vec![ident("table")], 0), ParseError::ExpectedEquals);
    assert_eq!(
        failure(vec![ident("table"), Token::Punct(','), literal("x")], 0),
        ParseError::ExpectedEquals
    );
    assert_eq!(
        failure(vec![ident("table"), literal("x"), literal("x")], 0),
        ParseError::ExpectedEquals
    );
    assert_eq!(failure(vec![ident("table"), Token::Punct('=')], 0), ParseError::ExpectedLiteral);
    assert_eq!(
        failure(vec![ident("table"), Token::Punct('='), ident("x")], 0),
        ParseError::ExpectedLiteral
    );
}

#[test]
fn attribute_list_takes_commas_or_none() {
    let names = |tokens: Vec<Token>| -> Vec<Option<String>> {
        ComponentAttributeList::parse(&tokens)
            .unwrap()
            .0
            .iter()
            .map(|attribute| attribute.table())
            .collect()
    };
    assert_eq!(names(vec![]), vec![]);
    assert_eq!(names(table("a")), vec![Some("a".to_string())]);
    let mut two = table("a");
    two.push(Token::Punct(','));
    two.extend(table("b"));
    assert_eq!(names(two), vec![Some("a".to_string()), Some("b".to_string())]);
    let mut adjacent = table("a");
    adjacent.extend(table("b"));
    adjacent.push(Token::Punct(','));
    assert_eq!(names(adjacent), vec![Some("a".to_string()), Some("b".to_string())]);
}

#[test]
fn attribute_list_fails_at_the_first_bad_attribute() {
    let failure = |tokens: Vec<Token>| match ComponentAttributeList::parse(&tokens) {
        Err(error) => error,
        Ok(_) => panic!("the tokens are no attribute list"),
    };
    let mut tokens = table("a");
    tokens.push(Token::Punct(','));
    tokens.push(ident("other"));
    assert_eq!(failure(tokens), ParseError::UnexpectedAttribute("other".to_string()));
    let mut tokens = table("a");
    tokens.push(Token::Punct(','));
    tokens.push(Token::Punct(','));
    assert_eq!(failure(tokens), ParseError::ExpectedIdent);
    assert_eq!(failure(vec![Token::Punct(',')]), ParseError::ExpectedIdent);
}

#[test]
fn table_is_named_by_the_first_attribute_or_the_type() {
    assert_eq!(table_name_of(&position(vec![])), Ok("Position".to_string()));
    assert_eq!(
        table_name_of(&position(vec![erm(table("\"a\"")), erm(table("\"b\""))])),
        Ok("\"a\"".to_string())
    );
    let other = Attribute { path: "derive".to_string(), tokens: None };
    assert_eq!(
        table_name_of(&position(vec![other, erm(vec![]), erm(table("c"))])),
        Ok("c".to_string())
    );
}

#[test]
fn erm_attribute_needs_arguments() {
    let bare = Attribute { path: "erm".to_string(), tokens: None };
    match table_name_of(&position(vec![erm(table("a")), bare])) {
        Err(error) => {
            assert_eq!(error, ParseError::ExpectedList);
            assert_eq!(error.message(), "expected attribute arguments in parentheses");
        }
        Ok(_) => panic!("the attribute has no arguments"),
    }
    assert_eq!(
        table_name_of(&position(vec![erm(vec![ident("table")]), erm(vec![ident("x")])])),
        Err(ParseError::ExpectedEquals)
    );
}

#[test]
fn types_stand_for_kinds() {
    assert_eq!(storage("i64"), (Kind::I64, false));
    assert_eq!(storage("u32"), (Kind::U32, false));
    assert_eq!(storage("String"), (Kind::Text, false));
    assert_eq!(storage("Option<i64>"), (Kind::I64, true));
    assert_eq!(storage("Option<u32>"), (Kind::U32, true));
    assert_eq!(storage("Option<String>"), (Kind::Text, true));
    assert_eq!(storage("i8"), (Kind::I8, false));
    assert_eq!(storage("i16"), (Kind::I16, false));
    assert_eq!(storage("i32"), (Kind::I32, false));
    assert_eq!(storage("u8"), (Kind::U8, false));
    assert_eq!(storage("u16"), (Kind::U16, false));
    assert_eq!(storage("bool"), (Kind::Bool, false));
    assert_eq!(storage("Option<i8>"), (Kind::I8, true));
    assert_eq!(storage("Option<i16>"), (Kind::I16, true));
    assert_eq!(storage("Option<i32>"), (Kind::I32, true));
    assert_eq!(storage("Option<u8>"), (Kind::U8, true));
    assert_eq!(storage("Option<u16>"), (Kind::U16, true));
    assert_eq!(storage("Option<bool>"), (Kind::Bool, true));
    assert_eq!(storage("u64"), (Kind::Other, false));
    assert_eq!(storage("f64"), (Kind::Other, false));
    assert_eq!(storage("Uuid"), (Kind::Other, false));
    assert_eq!(storage("Option<Uuid>"), (Kind::Other, true));
    assert_eq!(storage("Option<Option<i64>>"), (Kind::Other, true));
    assert_eq!(storage("Option<>"), (Kind::Other, true));
    assert_eq!(storage("Option<"), (Kind::Other, false));
    assert_eq!(storage("Option<i64"), (Kind::Other, false));
    assert_eq!(storage("option<i64>"), (Kind::Other, false));
    assert_eq!(storage("Vec<i64>"), (Kind::Other, false));
    assert_eq!(storage(""), (Kind::Other, false));
    for name in ["i8", "i16", "i32", "i64", "u8", "u16", "u32", "bool", "String"] {
        assert_ne!(scalar_kind(name), Kind::Other);
        assert_eq!(storage(name), (scalar_kind(name), false));
        assert_eq!(storage(&format!("Option<{name}>")), (scalar_kind(name), true));
    }
    assert_eq!(scalar_kind("Option<i64>"), Kind::Other);
    assert!(same_text("a", "a"));
    assert!(!same_text("a", "A"));
}

#[test]
fn fields_are_named_or_numbered() {
    match Field::parse(3, &field(None, "String")) {
        Field::Numbered { index, kind, nullable } => {
            assert_eq!((index, kind, nullable), (3, Kind::Text, false))
        }
        _ => panic!("the field has no name"),
    }
    match Field::parse(3, &field(Some("age"), "Option<u32>")) {
        Field::Named { ident, kind, nullable } => {
            assert_eq!((ident.as_str(), kind, nullable), ("age", Kind::U32, true))
        }
        _ => panic!("the field has a name"),
    }
    match Field::parse(0, &field(Some("x"), "f64")) {
        Field::Named { ident, kind, nullable } => {
            assert_eq!((ident.as_str(), kind, nullable), ("x", Kind::Other, false))
        }
        _ => panic!("the field has a name"),
    }
    let fields = parse_fields(&vec![field(None, "i64"), field(None, "u32")]);
    assert_eq!(fields[1].column_name(), "column1");
    let fields = parse_fields(&vec![field(None, "i64"), field(None, "f32"), field(None, "u64")]);
    assert_eq!(fields.len(), 3);
    assert_eq!(fields[0].kind(), Kind::I64);
    assert_eq!(fields[1].kind(), Kind::Other);
    assert_eq!(fields[2].kind(), Kind::Other);
    assert_eq!(fields[2].column_name(), "column2");
    assert_eq!(parse_fields(&vec![]).len(), 0);
}

#[test]
fn struct_component_is_read_from_its_declaration() {
    let component = StructComponent::parse(&position(vec![erm(table("\"places\""))])).unwrap();
    assert_eq!(component.typename, "Position");
    assert_eq!(component.table_name, "\"places\"");
    assert_eq!(component.table(), "places");
    assert_eq!(component.fields.len(), 2);
    assert_eq!(component.fields[0].column_name(), "x");
    assert!(!component.fields[0].nullable());
    assert!(component.fields[1].nullable());
    assert_eq!(
        component.statements('?').insert,
        "insert into places(entity, x, y) values(?1, ?2, ?3);"
    );
}

#[test]
fn attributes_are_read_before_the_fields() {
    let mut declaration = position(vec![erm(vec![ident("nope")])]);
    declaration.body = Body::Struct(vec![field(None, "f32")]);
    match StructComponent::parse(&declaration) {
        Err(error) => assert_eq!(error, ParseError::UnexpectedAttribute("nope".to_string())),
        Ok(_) => panic!("the attribute is not known"),
    }
    declaration.attrs = vec![];
    let component = StructComponent::parse(&declaration).unwrap();
    assert_eq!(component.fields.len(), 1);
    assert_eq!(component.fields[0].kind(), Kind::Other);
}

#[test]
fn fields_of_any_type_are_read() {
    let mut declaration = position(vec![]);
    declaration.body = Body::Struct(vec![field(None, "u64")]);
    let component = StructComponent::parse(&declaration).unwrap();
    assert_eq!(component.typename, "Position");
    assert_eq!(component.table_name, "Position");
    assert_eq!(component.fields.len(), 1);
    assert_eq!(component.fields[0].column_name(), "column0");
    assert_eq!(component.statements('?').insert, "insert into Position(entity, column0) values(?1, ?2);");
    for database in [Database::Sqlite, Database::MySql, Database::Postgres] {
        assert!(!component.is_stored_in(database));
    }
    assert!(!component.accepts(&vec![Value::Integer(1)]));
    assert!(!component.accepts(&vec![Value::Null]));
    let (derived, implementations) =
        derive_component(&declaration, &vec![Database::Sqlite]).unwrap();
    assert!(!derived.is_stored_in(Database::Sqlite));
    assert_eq!(implementations.implementations.len(), 1);
    declaration.body = Body::Struct(vec![field(Some("id"), "Option<Uuid>"), field(Some("n"), "u8")]);
    let component = StructComponent::parse(&declaration).unwrap();
    assert!(component.fields[0].nullable());
    assert_eq!(component.fields[1].kind(), Kind::U8);
    assert!(!component.is_stored_in(Database::MySql));
    assert!(component.accepts(&vec![Value::Null, Value::Integer(1)]));
    assert!(!component.accepts(&vec![Value::Text("x".to_string()), Value::Integer(1)]));
}

#[test]
fn enum_component_is_read_from_its_declaration() {
    let component = EnumComponent::parse(&light_switch()).unwrap();
    assert_eq!(component.typename, "LightSwitch");
    assert_eq!(component.table_name, "LightSwitch");
    assert_eq!(component.variants.len(), 3);
    assert_eq!(component.variants[1].name, "Off");
    assert_eq!(component.variants[1].fields.len(), 2);
    assert_eq!(component.variants[1].fields[1].kind(), Kind::U32);
    assert_eq!(
        component.statements('?').insert,
        "insert into LightSwitch(entity, __erm_tag, field_a, field_b, field_c) values(?1, ?2, ?3, ?4, ?5);"
    );
    let mut broken = light_switch();
    broken.body = Body::Enum(vec![
        variant("On", vec![field(None, "i64")]),
        variant("Off", vec![field(None, "i64"), field(None, "usize"), field(None, "char")]),
        variant("Odd", vec![field(None, "f64")]),
    ]);
    let component = EnumComponent::parse(&broken).unwrap();
    assert_eq!(component.variants.len(), 3);
    assert_eq!(component.variants[1].fields.len(), 3);
    assert_eq!(component.variants[1].fields[1].kind(), Kind::Other);
    assert_eq!(component.variants[2].name, "Odd");
    assert!(!component.is_well_formed());
    assert!(!component.is_stored_in(Database::Sqlite));
}

#[test]
fn numbered_fields_of_a_variant_count_from_zero() {
    let mut declaration = light_switch();
    declaration.body = Body::Enum(vec![
        variant("On", vec![field(None, "i64")]),
        variant("Off", vec![field(None, "i64"), field(None, "u32")]),
    ]);
    let component = EnumComponent::parse(&declaration).unwrap();
    let names: Vec<String> = component.fields().iter().map(|field| field.column_name()).collect();
    assert_eq!(names, vec!["column0".to_string(), "column1".to_string()]);
    assert!(component.is_well_formed());
    assert_eq!(component.variants[1].fields[0].column_name(), "column0");
}

#[test]
fn component_is_struct_or_enum() {
    assert!(matches!(Component::parse(&position(vec![])), Ok(Component::Struct(_))));
    assert!(matches!(Component::parse(&light_switch()), Ok(Component::Enum(_))));
}

#[test]
fn implement_for_calls_once_for_each_database() {
    let databases = vec![Database::Sqlite, Database::MySql, Database::Sqlite];
    let implementer = |database: Database, character: char| format!("{database:?}{character}");
    assert_eq!(
        implement_for(&databases, &implementer),
        vec!["Sqlite?".to_string(), "MySql?".to_string(), "Sqlite?".to_string()]
    );
    assert_eq!(implement_for(&vec![], &implementer), Vec::<String>::new());
}

#[test]
fn deriving_a_component_implements_it_for_each_database() {
    let databases = vec![Database::Sqlite, Database::MySql];
    let (component, derived) = derive_component(&position(vec![]), &databases).unwrap();
    assert_eq!(component.typename(), "Position");
    assert_eq!(derived.implementations.len(), 2);
    assert_eq!(derived.implementations[0].database, Database::Sqlite);
    assert_eq!(derived.implementations[1].database, Database::MySql);
    assert_eq!(derived.implementations[1].table, "Position");
    assert_eq!(
        derived.implementations[1].statements.delete,
        "delete from Position where entity = ?1"
    );
    let reflection = derived.reflection.unwrap();
    assert_eq!(reflection.name, "ReflectedPosition");
    assert_eq!(reflection.fields[1].column.name, "__cte_Position__y");

    let (component, derived) = derive_component(&light_switch(), &databases).unwrap();
    assert!(matches!(component, Component::Enum(_)));
    assert!(derived.reflection.is_none());
    assert_eq!(derived.implementations[0].columns.len(), 3);

    match derive_component(&position(vec![erm(vec![ident("x")])]), &databases) {
        Err(error) => assert_eq!(error, ParseError::UnexpectedAttribute("x".to_string())),
        Ok(_) => panic!("the attribute is not known"),
    }
}

#[test]
fn struct_archetype_takes_one_archetype_for_each_field() {
    let declaration = DeriveInput {
        ident: "Person".to_string(),
        attrs: vec![],
        body: Body::Struct(vec![field(Some("name"), "Name"), field(None, "Option<Age>")]),
    };
    let resolved = vec![
        component("Name", Kind::Text),
        Archetype::Optional(Box::new(component("Age", Kind::I64))),
    ];
    let archetype = StructArchetype::parse(&declaration, resolved);
    assert_eq!(archetype.typename, "Person");
    assert_eq!(archetype.fields.len(), 2);
    assert_eq!(archetype.fields[0].name, "name");
    assert_eq!(archetype.fields[1].name, "1");
    assert!(matches!(archetype.fields[1].archetype, Archetype::Optional(_)));
}

#[test]
fn enum_archetype_holds_a_shared_member_once() {
    let declaration = DeriveInput {
        ident: "LightSwitch".to_string(),
        attrs: vec![],
        body: Body::Enum(vec![
            variant("On", vec![field(Some("field_a"), "A"), field(Some("counter"), "Counter")]),
            variant("Off", vec![field(Some("counter"), "Other"), field(Some("field_b"), "B")]),
            variant("Broken", vec![]),
        ]),
    };
    let resolved = vec![
        component("A", Kind::I64),
        component("Counter", Kind::I64),
        component("Other", Kind::Text),
        component("B", Kind::I64),
    ];
    let archetype = EnumArchetype::parse(&declaration, resolved);
    assert_eq!(archetype.typename, "LightSwitch");
    let members: Vec<&str> = archetype.members.iter().map(|member| member.name.as_str()).collect();
    assert_eq!(members, vec!["field_a", "counter", "field_b"]);
    match &archetype.members[1].archetype {
        Archetype::Component(component) => assert_eq!(component.typename(), "Counter"),
        _ => panic!("the first field of the name is kept"),
    }
    assert_eq!(archetype.variants.len(), 3);
    assert_eq!(archetype.variants[1].ident, "Off");
    assert_eq!(archetype.variants[1].fields, vec!["counter".to_string(), "field_b".to_string()]);
    assert_eq!(archetype.variants[2].fields, Vec::<String>::new());
}

#[test]
fn variant_of_an_archetype_lists_its_fields() {
    let read = enorm::archetype::Variant::try_from(&variant(
        "On",
        vec![field(Some("counter"), "Counter"), field(None, "Name")],
    ));
    assert_eq!(read.ident, "On");
    assert_eq!(read.fields, vec!["counter".to_string(), "1".to_string()]);
}

#[test]
fn deriving_an_archetype_implements_it_for_each_database() {
    let declaration = DeriveInput {
        ident: "Person".to_string(),
        attrs: vec![],
        body: Body::Struct(vec![field(Some("name"), "Name")]),
    };
    let databases = vec![Database::MySql];
    let (archetype, implementations) =
        derive_archetype(&declaration, vec![component("Name", Kind::Text)], &databases);
    assert!(matches!(archetype, Archetype::Struct(_)));
    assert_eq!(implementations.len(), 1);
    assert_eq!(implementations[0].database, Database::MySql);
    assert!(implementations[0].removable);
    assert_eq!(implementations[0].cte.columns(), vec!["__cte_Name__column0".to_string()]);
    let parsed = Archetype::parse(&declaration, vec![component("Name", Kind::Text)]);
    assert!(parsed.is_well_formed());
}

#[test]
fn group_is_no_literal() {
    let tokens = vec![ident("table"), Token::Punct('='), Token::Group("(x)".to_string())];
    assert_eq!(ComponentAttributeList::parse(&tokens).err(), Some(ParseError::ExpectedLiteral));
    let tokens = vec![Token::Group("(table)".to_string())];
    assert_eq!(ComponentAttributeList::parse(&tokens).err(), Some(ParseError::ExpectedIdent));
}

#[test]
fn variants_may_share_a_field() {
    let declaration = DeriveInput {
        ident: "Switch".to_string(),
        attrs: vec![],
        body: Body::Enum(vec![
            variant("On", vec![field(Some("counter"), "i64")]),
            variant("Off", vec![field(Some("counter"), "i64")]),
        ]),
    };
    let component = EnumComponent::parse(&declaration).unwrap();
    assert!(component.is_well_formed());
    assert_eq!(
        component.table_creator(Database::Sqlite, Kind::I64),
        "create table if not exists Switch(\n  entity INTEGER primary key\n,  __erm_tag text not null,\n  counter INTEGER null\n);"
    );
}

#[test]
fn variants_that_share_a_column_agree_on_its_kind() {
    let mut shared = light_switch();
    shared.body = Body::Enum(vec![
        variant("On", vec![field(Some("level"), "i64"), field(Some("since"), "String")]),
        variant("Dim", vec![field(Some("since"), "Option<String>"), field(Some("level"), "i64")]),
    ]);
    let component = EnumComponent::parse(&shared).unwrap();
    assert!(component.is_well_formed());
    assert_eq!(component.fields().len(), 2);
    assert_eq!(component.fields()[0].column_name(), "level");
    assert_eq!(component.fields()[1].column_name(), "since");
    let mut broken = light_switch();
    broken.body = Body::Enum(vec![
        variant("On", vec![field(Some("level"), "i64"), field(Some("since"), "String")]),
        variant("Dim", vec![field(Some("other"), "u8"), field(Some("since"), "i64")]),
        variant("Off", vec![field(Some("level"), "bool")]),
    ]);
    let component = EnumComponent::parse(&broken).unwrap();
    assert_eq!(component.variants.len(), 3);
    assert!(!component.is_well_formed());
    assert!(!Component::parse(&broken).unwrap().is_well_formed());
    assert_eq!(component.fields().len(), 3);
    assert_eq!(component.fields()[1].kind(), Kind::Text);
    let mut numbered = light_switch();
    numbered.body = Body::Enum(vec![
        variant("On", vec![field(None, "i64")]),
        variant("Off", vec![field(None, "String")]),
    ]);
    assert!(!EnumComponent::parse(&numbered).unwrap().is_well_formed());
    numbered.body = Body::Enum(vec![
        variant("On", vec![field(None, "i64")]),
        variant("Off", vec![field(None, "Option<i64>")]),
    ]);
    assert!(EnumComponent::parse(&numbered).unwrap().is_well_formed());
}

#[test]
fn field_is_of_the_kind_that_it_is_stored_as() {
    let stored = |ty: &str, store_as: &str| FieldDeclaration {
        ident: Some("degrees".to_string()),
        ty: ty.to_string(),
        store_as: Some(store_as.to_string()),
    };
    assert_eq!(stored("Celsius", "i64").stored_type(), "i64");
    assert_eq!(field(Some("degrees"), "Celsius").stored_type(), "Celsius");
    match Field::parse(0, &stored("Celsius", "i64")) {
        Field::Named { ident, kind, nullable } => {
            assert_eq!((ident.as_str(), kind, nullable), ("degrees", Kind::I64, false))
        }
        _ => panic!("the field has a name"),
    }
    match Field::parse(0, &stored("i64", "Option<String>")) {
        Field::Named { kind, nullable, .. } => assert_eq!((kind, nullable), (Kind::Text, true)),
        _ => panic!("the field has a name"),
    }
    assert_eq!(Field::parse(0, &stored("i64", "Celsius")).kind(), Kind::Other);
    assert_eq!(Field::parse(0, &field(Some("degrees"), "Celsius")).kind(), Kind::Other);
    let mut shared = light_switch();
    shared.body = Body::Enum(vec![
        variant("Warm", vec![stored("Celsius", "i32")]),
        variant("Cold", vec![field(Some("degrees"), "i32")]),
    ]);
    assert_eq!(EnumComponent::parse(&shared).unwrap().fields().len(), 1);
    shared.body = Body::Enum(vec![
        variant("Warm", vec![stored("Celsius", "i32")]),
        variant("Cold", vec![stored("Celsius", "i16")]),
    ]);
    assert!(!EnumComponent::parse(&shared).unwrap().is_well_formed());
}
