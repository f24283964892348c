use enorm::archetype::Archetype;
use enorm::backend::Backend;
use enorm::component::enum_component::{EnumComponent, Tagged, Variant};
use enorm::component::struct_component::StructComponent;
use enorm::component::{placeholders, Component, ComponentValue};
use enorm::cte::CommonTableExpression;
use enorm::driver::{Database, TypeInfo};
use enorm::entity::{EntityPrefixedQuery, Query};
use enorm::field::Field;
use enorm::row::{DecodeError, OffsetRow};
use enorm::value::{Kind, Value};

fn named(ident: &str, kind: Kind) -> Field {
    Field::Named { ident: ident.to_string(), kind, nullable: false }
}

fn text(value: &str) -> Value {
    Value::Text(value.to_string())
}

fn position() -> StructComponent {
    StructComponent {
        typename: "Position".to_string(),
        table_name: "Position".to_string(),
        fields: vec![named("x", Kind::I64), named("y", Kind::I64)],
    }
}

fn name() -> StructComponent {
    StructComponent {
        typename: "Name".to_string(),
        table_name: "\"names\"".to_string(),
        fields: vec![Field::Numbered { index: 0, kind: Kind::Text, nullable: false }],
    }
}

fn light_switch() -> EnumComponent {
    EnumComponent {
        typename: "LightSwitch".to_string(),
        table_name: "LightSwitch".to_string(),
        variants: vec![
            Variant { name: "On".to_string(), fields: vec![named("a", Kind::I64)] },
            Variant {
                name: "Off".to_string(),
                fields: vec![named("b", Kind::I64), named("c", Kind::U32)],
            },
            Variant { name: "Whatever".to_string(), fields: vec![] },
        ],
    }
}

fn tagged(variant: &str, fields: Vec<Value>) -> Tagged {
    Tagged { variant: variant.to_string(), fields }
}

#[test]
fn placeholders_are_numbered_from_one() {
    assert_eq!(placeholders('?', 3), vec!["?1".to_string(), "?2".to_string(), "?3".to_string()]);
    assert_eq!(placeholders('$', 0), Vec::<String>::new());
    assert_eq!(placeholders('$', 11)[10], "$11".to_string());
}

#[test]
fn struct_statements_name_the_entity_first() {
    let statements = position().statements('?');
    assert_eq!(statements.insert, "insert into Position(entity, x, y) values(?1, ?2, ?3);");
    assert_eq!(statements.update, "update Position set x = ?2, y = ?3 where entity = ?1");
    assert_eq!(statements.delete, "delete from Position where entity = ?1");
}

#[test]
fn statements_follow_the_placeholder_character() {
    let statements = position().statements('$');
    assert_eq!(statements.insert, "insert into Position(entity, x, y) values($1, $2, $3);");
    assert_eq!(statements.update, "update Position set x = $2, y = $3 where entity = $1");
    assert_eq!(statements.delete, "delete from Position where entity = $1");
}

#[test]
fn quotes_around_the_table_name_are_dropped() {
    assert_eq!(name().table(), "names");
    assert_eq!(name().statements('?').insert, "insert into names(entity, column0) values(?1, ?2);");
    assert_eq!(name().statements('?').delete, "delete from names where entity = ?1");
}

#[test]
fn numbered_fields_are_named_by_their_number() {
    let field = Field::Numbered { index: 12, kind: Kind::Text, nullable: true };
    assert_eq!(field.column_name(), "column12");
    assert_eq!(field.field_name(), "self_12");
    assert_eq!(field.ident(), "12");
    assert_eq!(field.kind(), Kind::Text);
    assert!(field.nullable());
    assert_eq!(field.sql_definition(Database::Sqlite), "TEXT null");
    let field = named("age", Kind::U32);
    assert_eq!(field.column_name(), "age");
    assert_eq!(field.field_name(), "age");
    assert_eq!(field.ident(), "age");
    assert_eq!(field.sql_definition(Database::MySql), "INT UNSIGNED not null");
}

#[test]
fn struct_table_is_created_unless_it_exists() {
    assert_eq!(
        position().table_creator(Database::Sqlite, Kind::I64),
        "create table if not exists Position(\n  entity INTEGER primary key,\n  x INTEGER not null,\n  y INTEGER not null\n);"
    );
    assert_eq!(
        name().table_creator(Database::MySql, Kind::Text),
        "create table if not exists names(\n  entity VARCHAR primary key,\n  column0 VARCHAR not null\n);"
    );
}

#[test]
fn driver_names_the_column_types() {
    let name = |database, kind| (TypeInfo { database, kind }).name();
    assert_eq!(name(Database::Sqlite, Kind::I64), "INTEGER");
    assert_eq!(name(Database::Sqlite, Kind::U32), "INTEGER");
    assert_eq!(name(Database::Sqlite, Kind::Text), "TEXT");
    for kind in [Kind::I8, Kind::I16, Kind::I32, Kind::U8, Kind::U16] {
        assert_eq!(name(Database::Sqlite, kind), "INTEGER");
    }
    assert_eq!(name(Database::Sqlite, Kind::Bool), "BOOLEAN");
    assert_eq!(name(Database::MySql, Kind::I8), "TINYINT");
    assert_eq!(name(Database::MySql, Kind::I16), "SMALLINT");
    assert_eq!(name(Database::MySql, Kind::I32), "INT");
    assert_eq!(name(Database::MySql, Kind::U8), "TINYINT UNSIGNED");
    assert_eq!(name(Database::MySql, Kind::U16), "SMALLINT UNSIGNED");
    assert_eq!(name(Database::MySql, Kind::Bool), "BOOLEAN");
    assert_eq!(name(Database::MySql, Kind::I64), "BIGINT");
    assert_eq!(name(Database::MySql, Kind::U32), "INT UNSIGNED");
    assert_eq!(name(Database::MySql, Kind::Text), "VARCHAR");
    assert_eq!(name(Database::Postgres, Kind::I8), "\"CHAR\"");
    assert_eq!(name(Database::Postgres, Kind::I16), "INT2");
    assert_eq!(name(Database::Postgres, Kind::I32), "INT4");
    assert_eq!(name(Database::Postgres, Kind::I64), "INT8");
    assert_eq!(name(Database::Postgres, Kind::Bool), "BOOL");
    assert_eq!(name(Database::Postgres, Kind::Text), "TEXT");
    assert_eq!(Database::Sqlite.name(), "Sqlite");
    assert_eq!(Database::MySql.name(), "MySql");
    assert_eq!(Database::Postgres.name(), "Postgres");
    assert_eq!(Database::Sqlite.placeholder(), '?');
    assert_eq!(Database::MySql.placeholder(), '?');
    assert_eq!(Database::Postgres.placeholder(), '$');
}

#[test]
fn postgres_has_no_type_for_the_unsigned_integers() {
    let kinds = [
        Kind::I8,
        Kind::I16,
        Kind::I32,
        Kind::I64,
        Kind::U8,
        Kind::U16,
        Kind::U32,
        Kind::Bool,
        Kind::Text,
    ];
    for kind in kinds {
        assert!(Database::Sqlite.stores(kind));
        assert!(Database::MySql.stores(kind));
        let unsigned = matches!(kind, Kind::U8 | Kind::U16 | Kind::U32);
        assert_eq!(Database::Postgres.stores(kind), !unsigned);
    }
    assert!(position().is_stored_in(Database::Postgres));
    assert!(Component::Struct(position()).is_stored_in(Database::Postgres));
    let counted = StructComponent {
        typename: "Counted".to_string(),
        table_name: "Counted".to_string(),
        fields: vec![
            Field::Named { ident: "name".to_string(), kind: Kind::Text, nullable: false },
            Field::Named { ident: "count".to_string(), kind: Kind::U32, nullable: true },
        ],
    };
    assert!(counted.is_stored_in(Database::MySql));
    assert!(!counted.is_stored_in(Database::Postgres));
    assert!(!Component::Struct(counted).is_stored_in(Database::Postgres));
}

#[test]
fn postgres_numbers_its_parameters_after_a_dollar() {
    assert_eq!(
        position().table_creator(Database::Postgres, Kind::Text),
        "create table if not exists Position(\n  entity TEXT primary key,\n  x INT8 not null,\n  y INT8 not null\n);"
    );
    let implementation = position().implementation(Database::Postgres, Database::Postgres.placeholder());
    assert_eq!(implementation.statements.insert, position().statements('$').insert);
    assert!(implementation.statements.insert.ends_with("values($1, $2, $3);"));
    let backend = Backend { database: Database::Postgres, entity: Kind::I64 };
    let archetype = Archetype::Component(Component::Struct(position()));
    let query = backend.get(&archetype, Value::Integer(7));
    assert!(query.sql.starts_with(
        "select entity, __cte_Position__x, __cte_Position__y from (select $1 as entity) as __k left join ("
    ));
    assert!(query.sql.ends_with(") as __cte using (entity)"));
    assert_eq!(query.arguments, vec![Value::Integer(7)]);
}

#[test]
fn struct_columns_follow_the_fields() {
    let columns = position().columns(Database::Sqlite);
    assert_eq!(columns.len(), 2);
    assert_eq!(columns[0].name(), "x");
    assert_eq!(columns[1].name(), "y");
    assert_eq!(*columns[1].type_info(), TypeInfo { database: Database::Sqlite, kind: Kind::I64 });
}

#[test]
fn struct_cte_extracts_the_columns() {
    match position().cte() {
        CommonTableExpression::Extract { table, columns } => {
            assert_eq!(table, "Position");
            assert_eq!(columns, vec!["x".to_string(), "y".to_string()]);
        }
        _ => panic!("a component is fetched from one table"),
    }
}

#[test]
fn struct_round_trip_keeps_boundary_values() {
    let component = StructComponent {
        typename: "Sample".to_string(),
        table_name: "Sample".to_string(),
        fields: vec![
            named("text", Kind::Text),
            named("signed", Kind::I64),
            named("unsigned", Kind::U32),
            Field::Named { ident: "maybe".to_string(), kind: Kind::Text, nullable: true },
        ],
    };
    let values = vec![
        vec![text(""), Value::Integer(0), Value::Integer(0), Value::Null],
        vec![text("é"), Value::Integer(-1), Value::Integer(4294967295), text("")],
        vec![text("x y"), Value::Integer(i64::MIN), Value::Integer(1), text("z")],
        vec![text("'"), Value::Integer(i64::MAX), Value::Integer(7), Value::Null],
    ];
    for value in values {
        assert!(component.accepts(&value));
        let query = component.field_serializer(&value, Query::new("insert"));
        assert_eq!(query.sql, "insert");
        assert_eq!(query.arguments, value);
        let mut row = OffsetRow::new(query.arguments);
        assert_eq!(component.field_deserializer(&mut row), Ok(value));
        assert_eq!(row.remaining(), 0);
    }
}

#[test]
fn struct_refuses_values_of_the_wrong_shape() {
    assert!(!position().accepts(&vec![Value::Integer(1)]));
    assert!(!position().accepts(&vec![Value::Integer(1), Value::Null]));
    assert!(!position().accepts(&vec![Value::Integer(1), text("2")]));
    assert!(position().accepts(&vec![Value::Integer(1), Value::Integer(2)]));
}

#[test]
fn struct_reads_every_field_and_reports_the_first_failure() {
    let mut row = OffsetRow::new(vec![Value::Null, text("oops"), Value::Integer(9)]);
    assert_eq!(
        position().field_deserializer(&mut row),
        Err(DecodeError::ColumnNotFound("x".to_string()))
    );
    assert_eq!(row.try_get("next", Kind::I64), Ok(Value::Integer(9)));

    let mut row = OffsetRow::new(vec![text("oops"), Value::Null]);
    assert_eq!(
        position().field_deserializer(&mut row),
        Err(DecodeError::ColumnDecodeError("x".to_string()))
    );
    assert_eq!(row.remaining(), 0);

    let mut row = OffsetRow::new(vec![Value::Integer(1)]);
    assert_eq!(
        position().field_deserializer(&mut row),
        Err(DecodeError::ColumnNotFound("y".to_string()))
    );
}

#[test]
fn numbered_field_is_named_by_its_number_in_a_failure() {
    let mut row = OffsetRow::new(vec![]);
    assert_eq!(
        name().field_deserializer(&mut row),
        Err(DecodeError::ColumnNotFound("0".to_string()))
    );
}

#[test]
fn struct_insert_binds_the_entity_first() {
    let mut query = EntityPrefixedQuery::new(Value::Integer(7));
    let value = vec![Value::Integer(10), Value::Integer(20)];
    position().insert(&value, '?', &mut query);
    position().update(&value, '?', &mut query);
    position().remove('?', &mut query);
    let queries = query.into_queries();
    assert_eq!(queries.len(), 3);
    assert_eq!(queries[0].sql, "insert into Position(entity, x, y) values(?1, ?2, ?3);");
    assert_eq!(
        queries[0].arguments,
        vec![Value::Integer(7), Value::Integer(10), Value::Integer(20)]
    );
    assert_eq!(queries[1].sql, "update Position set x = ?2, y = ?3 where entity = ?1");
    assert_eq!(
        queries[1].arguments,
        vec![Value::Integer(7), Value::Integer(10), Value::Integer(20)]
    );
    assert_eq!(queries[2].sql, "delete from Position where entity = ?1");
    assert_eq!(queries[2].arguments, vec![Value::Integer(7)]);
}

#[test]
fn enum_statements_store_the_tag_first() {
    let statements = light_switch().statements('?');
    assert_eq!(
        statements.insert,
        "insert into LightSwitch(entity, __erm_tag, a, b, c) values(?1, ?2, ?3, ?4, ?5);"
    );
    assert_eq!(
        statements.update,
        "update LightSwitch set __erm_tag = ?2, a = ?3, b = ?4, c = ?5 where entity = ?1"
    );
    assert_eq!(statements.delete, "delete from LightSwitch where entity = ?1");
}

#[test]
fn enum_table_has_a_nullable_column_for_every_field() {
    assert_eq!(
        light_switch().table_creator(Database::Sqlite, Kind::I64),
        "create table if not exists LightSwitch(\n  entity INTEGER primary key\n,  __erm_tag text not null,\n  a INTEGER null,\n  b INTEGER null,\n  c INTEGER null\n);"
    );
}

#[test]
fn enum_fields_are_those_of_all_variants() {
    let fields = light_switch().fields();
    let names: Vec<String> = fields.iter().map(|field| field.column_name()).collect();
    assert_eq!(names, vec!["a".to_string(), "b".to_string(), "c".to_string()]);
    let columns = light_switch().columns(Database::Sqlite);
    assert_eq!(columns.len(), 3);
    assert_eq!(columns[2].name(), "c");
    assert_eq!(*columns[2].type_info(), TypeInfo { database: Database::Sqlite, kind: Kind::U32 });
}

#[test]
fn enum_cte_extracts_the_tag_and_all_fields() {
    match light_switch().cte() {
        CommonTableExpression::Extract { table, columns } => {
            assert_eq!(table, "LightSwitch");
            assert_eq!(
                columns,
                vec!["__erm_tag".to_string(), "a".to_string(), "b".to_string(), "c".to_string()]
            );
        }
        _ => panic!("a component is fetched from one table"),
    }
}

#[test]
fn tag_round_trip() {
    let component = light_switch();

    let on = tagged("On", vec![Value::Integer(10)]);
    let query = component.field_serializer(&on, Query::new(""));
    assert_eq!(
        query.arguments,
        vec![text("On"), Value::Integer(10), Value::Null, Value::Null]
    );
    let mut row = OffsetRow::new(query.arguments);
    let read = component.field_deserializer(&mut row).unwrap();
    assert_eq!(read.variant, "On");
    assert_eq!(read.fields, vec![Value::Integer(10)]);
    assert_eq!(row.remaining(), 0);

    let off = tagged("Off", vec![Value::Integer(20), Value::Integer(30)]);
    let query = component.field_serializer(&off, Query::new(""));
    assert_eq!(
        query.arguments,
        vec![text("Off"), Value::Null, Value::Integer(20), Value::Integer(30)]
    );
    let mut row = OffsetRow::new(query.arguments);
    let read = component.field_deserializer(&mut row).unwrap();
    assert_eq!(read.variant, "Off");
    assert_eq!(read.fields, vec![Value::Integer(20), Value::Integer(30)]);

    let whatever = tagged("Whatever", vec![]);
    let query = component.field_serializer(&whatever, Query::new(""));
    assert_eq!(query.arguments, vec![text("Whatever"), Value::Null, Value::Null, Value::Null]);
    let mut row = OffsetRow::new(query.arguments);
    let read = component.field_deserializer(&mut row).unwrap();
    assert_eq!(read.variant, "Whatever");
    assert_eq!(read.fields, Vec::<Value>::new());
}

#[test]
fn unknown_tag_is_an_unknown_variant() {
    let mut row =
        OffsetRow::new(vec![text("Dimmed"), Value::Integer(1), Value::Null, Value::Null]);
    match light_switch().field_deserializer(&mut row) {
        Err(error) => assert_eq!(error, DecodeError::UnknownVariant("Dimmed".to_string())),
        Ok(_) => panic!("the tag names no variant"),
    }
    assert_eq!(row.remaining(), 0);
}

#[test]
fn enum_failures_come_in_their_order() {
    let failure = |cells: Vec<Value>| {
        let mut row = OffsetRow::new(cells);
        let result = light_switch().field_deserializer(&mut row);
        assert_eq!(row.remaining(), 0);
        match result {
            Err(error) => error,
            Ok(_) => panic!("the row cannot be decoded"),
        }
    };
    // No tag: the component is missing, whatever else is wrong.
    assert_eq!(
        failure(vec![Value::Null, text("x"), Value::Null, Value::Null]),
        DecodeError::ColumnNotFound("__erm_tag".to_string())
    );
    // A tag that is no text.
    assert_eq!(
        failure(vec![Value::Integer(1), Value::Null, Value::Null, Value::Null]),
        DecodeError::ColumnDecodeError("__erm_tag".to_string())
    );
    // A cell of another variant that cannot be read comes before the unknown tag.
    assert_eq!(
        failure(vec![text("Dimmed"), Value::Null, text("x"), Value::Null]),
        DecodeError::ColumnDecodeError("b".to_string())
    );
    // A field of the variant without a value.
    assert_eq!(
        failure(vec![text("Off"), Value::Integer(1), Value::Integer(2), Value::Null]),
        DecodeError::ColumnNotFound("c".to_string())
    );
    // A value out of the field's range.
    assert_eq!(
        failure(vec![text("Off"), Value::Null, Value::Integer(2), Value::Integer(-1)]),
        DecodeError::ColumnDecodeError("c".to_string())
    );
    // A row that ends too early.
    assert_eq!(
        failure(vec![text("On"), Value::Integer(1)]),
        DecodeError::ColumnNotFound("b".to_string())
    );
}

#[test]
fn enum_serializer_binds_as_many_values_for_every_variant() {
    let component = light_switch();
    for value in [
        tagged("On", vec![Value::Integer(1)]),
        tagged("Off", vec![Value::Integer(1), Value::Integer(2)]),
        tagged("Whatever", vec![]),
    ] {
        assert!(component.accepts(&value));
        let query = component.field_serializer(&value, Query::new("x").bind(Value::Integer(7)));
        assert_eq!(query.arguments.len(), 5);
        assert_eq!(query.arguments[0], Value::Integer(7));
        assert_eq!(query.arguments[1], text(&value.variant));
    }
}

#[test]
fn enum_insert_binds_the_entity_then_the_tag() {
    let mut query = EntityPrefixedQuery::new(text("e1"));
    light_switch().insert(&tagged("On", vec![Value::Integer(10)]), '?', &mut query);
    light_switch().update(&tagged("Whatever", vec![]), '?', &mut query);
    light_switch().remove('?', &mut query);
    let queries = query.into_queries();
    assert_eq!(queries.len(), 3);
    assert_eq!(
        queries[0].arguments,
        vec![text("e1"), text("On"), Value::Integer(10), Value::Null, Value::Null]
    );
    assert_eq!(
        queries[1].sql,
        "update LightSwitch set __erm_tag = ?2, a = ?3, b = ?4, c = ?5 where entity = ?1"
    );
    assert_eq!(
        queries[1].arguments,
        vec![text("e1"), text("Whatever"), Value::Null, Value::Null, Value::Null]
    );
    assert_eq!(queries[2].arguments, vec![text("e1")]);
}

#[test]
fn component_dispatches_to_its_family() {
    let plain = Component::Struct(position());
    let choice = Component::Enum(light_switch());
    assert_eq!(plain.typename(), "Position");
    assert_eq!(choice.typename(), "LightSwitch");
    assert_eq!(plain.table_name(), "Position");
    assert_eq!(Component::Struct(name()).table_name(), "\"names\"");
    assert_eq!(Component::Struct(name()).table(), "names");
    assert_eq!(plain.statements('?').delete, "delete from Position where entity = ?1");
    assert_eq!(
        choice.table_creator(Database::Sqlite, Kind::I64),
        light_switch().table_creator(Database::Sqlite, Kind::I64)
    );

    let value = ComponentValue::Struct(vec![Value::Integer(1), Value::Integer(2)]);
    let query = plain.field_serializer(&value, Query::new(""));
    assert_eq!(query.arguments, vec![Value::Integer(1), Value::Integer(2)]);
    let mut row = OffsetRow::new(query.arguments);
    match plain.field_deserializer(&mut row) {
        Ok(ComponentValue::Struct(fields)) => {
            assert_eq!(fields, vec![Value::Integer(1), Value::Integer(2)])
        }
        _ => panic!("a list of fields is read as a list of fields"),
    }

    // A value of the other family is no value of the component.
    let other = ComponentValue::Enum(tagged("On", vec![Value::Integer(1)]));
    assert!(plain.accepts(&value));
    assert!(!plain.accepts(&other));
    assert!(!choice.accepts(&value));
    assert!(choice.accepts(&other));
    assert_eq!(choice.field_serializer(&other, Query::new("")).arguments.len(), 4);
}

#[test]
fn implementation_gathers_what_a_component_is() {
    let implementation = Component::Struct(position()).implementation(Database::Sqlite, '?');
    assert_eq!(implementation.database, Database::Sqlite);
    assert_eq!(implementation.table, "Position");
    assert_eq!(implementation.columns.len(), 2);
    assert_eq!(
        implementation.statements.insert,
        "insert into Position(entity, x, y) values(?1, ?2, ?3);"
    );
    assert!(matches!(implementation.cte, CommonTableExpression::Extract { .. }));
    let implementation = light_switch().implementation(Database::MySql, '?');
    assert_eq!(implementation.columns.len(), 3);
    assert_eq!(implementation.table, "LightSwitch");
}

#[test]
fn names_must_tell_variants_and_columns_apart() {
    assert!(light_switch().is_well_formed());
    assert!(Component::Enum(light_switch()).is_well_formed());
    assert!(Component::Struct(position()).is_well_formed());
    let mut twice = light_switch();
    twice.variants[2].name = "On".to_string();
    assert!(!twice.is_well_formed());
    let mut shared = light_switch();
    shared.variants[2].fields.push(named("a", Kind::Text));
    assert!(!shared.is_well_formed());
    assert!(!Component::Enum(shared).is_well_formed());
}

#[test]
fn absent_component_binds_a_null_for_every_column() {
    let nulls = |count: usize| vec![Value::Null; count];
    assert_eq!(Component::Struct(position()).bind_absent(Query::new("")).arguments, nulls(2));
    assert_eq!(Component::Enum(light_switch()).bind_absent(Query::new("")).arguments, nulls(4));
    assert_eq!(
        Query::new("q").bind(Value::Integer(1)).bind_nulls(2).arguments,
        vec![Value::Integer(1), Value::Null, Value::Null]
    );
    assert_eq!(Query::new("q").bind_nulls(0).arguments, Vec::<Value>::new());
}

#[test]
fn tagged_value_must_be_of_a_variant() {
    let component = light_switch();
    assert!(component.accepts(&tagged("On", vec![Value::Integer(1)])));
    assert!(component.accepts(&tagged("Off", vec![Value::Integer(1), Value::Integer(2)])));
    assert!(component.accepts(&tagged("Whatever", vec![])));
    assert!(!component.accepts(&tagged("Unknown", vec![Value::Integer(1)])));
    assert!(!component.accepts(&tagged("On", vec![])));
    assert!(!component.accepts(&tagged("On", vec![text("1")])));
    assert!(!component.accepts(&tagged("Off", vec![Value::Integer(1), Value::Integer(-2)])));
    assert!(!component.accepts(&tagged("Whatever", vec![Value::Null])));
}

fn shared() -> EnumComponent {
    EnumComponent {
        typename: "Switch".to_string(),
        table_name: "Switch".to_string(),
        variants: vec![
            Variant { name: "On".to_string(), fields: vec![named("counter", Kind::I64)] },
            Variant {
                name: "Off".to_string(),
                fields: vec![named("since", Kind::Text), named("counter", Kind::I64)],
            },
        ],
    }
}

#[test]
fn variants_that_share_a_field_share_its_column() {
    let component = shared();
    assert!(component.is_well_formed());
    let names: Vec<String> = component.fields().iter().map(|field| field.column_name()).collect();
    assert_eq!(names, vec!["counter".to_string(), "since".to_string()]);
    assert_eq!(
        component.table_creator(Database::Sqlite, Kind::I64),
        "create table if not exists Switch(\n  entity INTEGER primary key\n,  __erm_tag text not null,\n  counter INTEGER null,\n  since TEXT null\n);"
    );
    assert_eq!(
        component.statements('?').insert,
        "insert into Switch(entity, __erm_tag, counter, since) values(?1, ?2, ?3, ?4);"
    );
    assert_eq!(component.columns(Database::Sqlite).len(), 2);
    assert_eq!(component.cte().columns().len(), 3);
    for value in [
        tagged("On", vec![Value::Integer(3)]),
        tagged("Off", vec![text("noon"), Value::Integer(4)]),
    ] {
        let query = component.field_serializer(&value, Query::new(""));
        assert_eq!(query.arguments.len(), 3);
        let mut row = OffsetRow::new(query.arguments);
        assert_eq!(component.field_deserializer(&mut row), Ok(value));
        assert_eq!(row.remaining(), 0);
    }
    assert_eq!(
        component.field_serializer(&tagged("Off", vec![text("noon"), Value::Integer(4)]), Query::new("")).arguments,
        vec![text("Off"), Value::Integer(4), text("noon")]
    );
}

#[test]
fn fields_that_share_a_column_must_be_of_one_kind() {
    let mut component = shared();
    component.variants[1].fields[1] = named("counter", Kind::Text);
    assert!(!component.is_well_formed());
    let mut component = shared();
    component.variants[1].fields[0] = named("counter", Kind::I64);
    assert!(!component.is_well_formed());
    // The column is that of the first field of its name.
    let mut component = shared();
    component.variants[1].fields[1] = named("counter", Kind::Text);
    assert_eq!(
        component.table_creator(Database::Sqlite, Kind::I64),
        shared().table_creator(Database::Sqlite, Kind::I64)
    );
}
