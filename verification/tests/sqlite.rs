use enorm::archetype::{Archetype, EnumArchetype, Member, Record, StructArchetype, Variant as Choice};
use enorm::backend::Backend;
use enorm::component::enum_component::{EnumComponent, Tagged, Variant};
use enorm::component::struct_component::StructComponent;
use enorm::component::{Component, ComponentValue};
use enorm::condition::{Condition, Operator};
use enorm::cte::{serialize, CommonTableExpression};
use enorm::driver::Database;
use enorm::entity::Query;
use enorm::field::Field;
use enorm::reflect::reflect_component;
use enorm::row::DecodeError;
use enorm::value::{Kind, Value};
use sqlx::sqlite::{SqliteConnectOptions, SqlitePoolOptions, SqliteRow};
use sqlx::{Column, Pool, Row, Sqlite, TypeInfo, ValueRef};

fn run<F: std::future::Future<Output = ()>>(future: F) {
    tokio::runtime::Builder::new_current_thread().enable_all().build().unwrap().block_on(future);
}

async fn memory() -> Pool<Sqlite> {
    let options = SqliteConnectOptions::new().in_memory(true);
    SqlitePoolOptions::new()
        .min_connections(1)
        .max_connections(1)
        .idle_timeout(None)
        .max_lifetime(None)
        .connect_with(options)
        .await
        .unwrap()
}

async fn execute(pool: &Pool<Sqlite>, query: &Query) {
    let mut statement = sqlx::query(&query.sql);
    for argument in &query.arguments {
        statement = match argument {
            Value::Null => statement.bind(Option::<i64>::None),
            Value::Integer(value) => statement.bind(*value),
            Value::Text(value) => statement.bind(value.clone()),
        };
    }
    statement.execute(pool).await.unwrap();
}

fn cells(row: &SqliteRow) -> Vec<Value> {
    let mut values = Vec::new();
    for index in 0..row.len() {
        let raw = row.try_get_raw(index).unwrap();
        if raw.is_null() {
            values.push(Value::Null);
        } else if raw.type_info().name() == "TEXT" {
            values.push(Value::Text(row.try_get::<String, _>(index).unwrap()));
        } else {
            values.push(Value::Integer(row.try_get::<i64, _>(index).unwrap()));
        }
    }
    values
}

async fn fetch(pool: &Pool<Sqlite>, query: &Query) -> Vec<Vec<Value>> {
    let mut statement = sqlx::query(&query.sql);
    for argument in &query.arguments {
        statement = match argument {
            Value::Null => statement.bind(Option::<i64>::None),
            Value::Integer(value) => statement.bind(*value),
            Value::Text(value) => statement.bind(value.clone()),
        };
    }
    statement.fetch_all(pool).await.unwrap().iter().map(cells).collect()
}

fn name() -> StructComponent {
    StructComponent {
        typename: "Name".to_string(),
        table_name: "Name".to_string(),
        fields: vec![Field::Numbered { index: 0, kind: Kind::Text, nullable: false }],
    }
}

fn age() -> StructComponent {
    StructComponent {
        typename: "Age".to_string(),
        table_name: "Age".to_string(),
        fields: vec![Field::Numbered { index: 0, kind: Kind::I64, nullable: false }],
    }
}

fn light_switch() -> EnumComponent {
    let field = |ident: &str, kind| Field::Named { ident: ident.to_string(), kind, nullable: false };
    EnumComponent {
        typename: "LightSwitch".to_string(),
        table_name: "LightSwitch".to_string(),
        variants: vec![
            Variant { name: "On".to_string(), fields: vec![field("a", Kind::I64)] },
            Variant {
                name: "Off".to_string(),
                fields: vec![field("b", Kind::I64), field("c", Kind::U32)],
            },
        ],
    }
}

fn member(name: &str, archetype: Archetype) -> Member {
    Member { name: name.to_string(), archetype }
}

fn component(component: StructComponent) -> Archetype {
    Archetype::Component(Component::Struct(component))
}

fn person() -> Archetype {
    Archetype::Struct(StructArchetype {
        typename: "Person".to_string(),
        fields: vec![member("name", component(name())), member("age", component(age()))],
    })
}

fn acquaintance() -> Archetype {
    Archetype::Struct(StructArchetype {
        typename: "Person".to_string(),
        fields: vec![
            member("name", component(name())),
            member("age", Archetype::Optional(Box::new(component(age())))),
        ],
    })
}

fn named(value: &str) -> Record {
    Record::Component(ComponentValue::Struct(vec![Value::Text(value.to_string())]))
}

fn aged(value: i64) -> Record {
    Record::Component(ComponentValue::Struct(vec![Value::Integer(value)]))
}

fn backend() -> Backend {
    Backend { database: Database::Sqlite, entity: Kind::I64 }
}

async fn register(pool: &Pool<Sqlite>, components: Vec<Component>) {
    for component in components {
        let sql = backend().register(&component);
        execute(pool, &Query::new(&sql)).await;
    }
}

async fn people(pool: &Pool<Sqlite>) {
    register(pool, vec![Component::Struct(name()), Component::Struct(age())]).await;
    for (entity, who, years) in [(1, "Jimothy", 10), (2, "Andrea", 32)] {
        let record = Record::Struct(vec![named(who), aged(years)]);
        for query in backend().insert(&person(), Value::Integer(entity), &record) {
            execute(pool, &query).await;
        }
    }
}

fn shown(record: &Record) -> String {
    format!("{:?}", record)
}

#[test]
fn registering_twice_neither_fails_nor_adds_columns() {
    run(async {
        let pool = memory().await;
        for _ in 0..2 {
            register(
                &pool,
                vec![Component::Struct(name()), Component::Enum(light_switch())],
            )
            .await;
        }
        let columns = fetch(
            &pool,
            &Query::new("select name from pragma_table_info('LightSwitch') order by cid"),
        )
        .await;
        let names: Vec<Value> = columns.into_iter().map(|mut row| row.remove(0)).collect();
        let expected: Vec<Value> = ["entity", "__erm_tag", "a", "b", "c"]
            .iter()
            .map(|column| Value::Text(column.to_string()))
            .collect();
        assert_eq!(names, expected);
    });
}

#[test]
fn inserting_an_archetype_issues_one_statement_for_each_component() {
    let record = Record::Struct(vec![named("Seven"), aged(77)]);
    let queries = backend().insert(&person(), Value::Integer(7), &record);
    assert_eq!(queries.len(), 2);
    assert_eq!(queries[0].sql, "insert into Name(entity, column0) values(?1, ?2);");
    assert_eq!(queries[0].arguments, vec![Value::Integer(7), Value::Text("Seven".to_string())]);
    assert_eq!(queries[1].sql, "insert into Age(entity, column0) values(?1, ?2);");
    assert_eq!(queries[1].arguments, vec![Value::Integer(7), Value::Integer(77)]);
    run(async {
        let pool = memory().await;
        register(&pool, vec![Component::Struct(name()), Component::Struct(age())]).await;
        for query in &queries {
            execute(&pool, query).await;
        }
        let rows = fetch(&pool, &backend().get(&person(), Value::Integer(7))).await;
        assert_eq!(rows.len(), 1);
        let rowed = backend().decode(&person(), rows[0].clone()).unwrap();
        assert_eq!(rowed.entity, Value::Integer(7));
        assert_eq!(shown(&rowed.inner), shown(&record));
    });
}

#[test]
fn listing_keeps_the_order_of_the_rows() {
    run(async {
        let pool = memory().await;
        people(&pool).await;
        let rows = fetch(&pool, &backend().list(&person(), &Condition::All)).await;
        assert_eq!(rows.len(), 2);
        let first = backend().decode(&person(), rows[0].clone()).unwrap();
        let second = backend().decode(&person(), rows[1].clone()).unwrap();
        assert_eq!(first.entity, Value::Integer(1));
        assert_eq!(shown(&first.inner), shown(&Record::Struct(vec![named("Jimothy"), aged(10)])));
        assert_eq!(second.entity, Value::Integer(2));
        assert_eq!(shown(&second.inner), shown(&Record::Struct(vec![named("Andrea"), aged(32)])));
    });
}

#[test]
fn condition_on_a_reflected_column_keeps_the_adults() {
    run(async {
        let pool = memory().await;
        people(&pool).await;
        let reflection = reflect_component(&age());
        let column = reflection.column("self_0").unwrap();
        assert_eq!(column.name, "__cte_Age__column0");
        let adults = column.greater_than_or_equals(Value::Integer(18));
        assert!(backend().lists(&person(), &adults));
        let query = backend().list(&person(), &adults);
        assert_eq!(query.arguments, vec![Value::Integer(18)]);
        let rows = fetch(&pool, &query).await;
        assert_eq!(rows.len(), 1);
        let rowed = backend().decode(&person(), rows[0].clone()).unwrap();
        assert_eq!(rowed.entity, Value::Integer(2));
        assert_eq!(shown(&rowed.inner), shown(&Record::Struct(vec![named("Andrea"), aged(32)])));
    });
}

#[test]
fn every_operator_compares_as_it_reads() {
    run(async {
        let pool = memory().await;
        people(&pool).await;
        let entities = |operator: Operator, value: i64| {
            let condition =
                Condition::compare("__cte_Age__column0", operator, Value::Integer(value));
            backend().list(&person(), &condition)
        };
        for (operator, value, expected) in [
            (Operator::Equal, 10, vec![1]),
            (Operator::LessThan, 32, vec![1]),
            (Operator::LessThanOrEqual, 32, vec![1, 2]),
            (Operator::GreaterThan, 10, vec![2]),
            (Operator::GreaterThanOrEqual, 10, vec![1, 2]),
            (Operator::GreaterThan, 32, vec![]),
        ] {
            let rows = fetch(&pool, &entities(operator, value)).await;
            let found: Vec<Value> = rows.into_iter().map(|mut row| row.remove(0)).collect();
            let expected: Vec<Value> = expected.into_iter().map(Value::Integer).collect();
            assert_eq!(found, expected);
        }
        let both = Condition::compare("__cte_Age__column0", Operator::GreaterThan, Value::Integer(5))
            .and(Condition::compare(
                "__cte_Name__column0",
                Operator::Equal,
                Value::Text("Andrea".to_string()),
            ));
        let rows = fetch(&pool, &backend().list(&person(), &both)).await;
        assert_eq!(rows.len(), 1);
        assert_eq!(rows[0][0], Value::Integer(2));
    });
}

#[test]
fn merge_pads_an_absent_component_with_nulls() {
    run(async {
        let pool = memory().await;
        register(&pool, vec![Component::Struct(name()), Component::Struct(age())]).await;
        let jimothy = Record::Struct(vec![
            named("Jimothy"),
            Record::Optional(Some(Box::new(aged(10)))),
        ]);
        let andrea = Record::Struct(vec![named("Andrea"), Record::Optional(None)]);
        let queries = backend().insert(&acquaintance(), Value::Integer(1), &jimothy);
        assert_eq!(queries.len(), 2);
        for query in queries {
            execute(&pool, &query).await;
        }
        let queries = backend().insert(&acquaintance(), Value::Integer(2), &andrea);
        assert_eq!(queries.len(), 1);
        for query in queries {
            execute(&pool, &query).await;
        }
        let rows = fetch(&pool, &backend().list(&acquaintance(), &Condition::All)).await;
        assert_eq!(rows.len(), 2);
        assert_eq!(rows[1], vec![Value::Integer(2), Value::Text("Andrea".to_string()), Value::Null]);
        // What is fetched is the entity and what the serializer binds.
        for (row, record) in rows.iter().zip([&jimothy, &andrea]) {
            let written = acquaintance().serialize(record, Query::new(""));
            assert_eq!(row[1..], written.arguments[..]);
        }
        let first = backend().decode(&acquaintance(), rows[0].clone()).unwrap();
        let second = backend().decode(&acquaintance(), rows[1].clone()).unwrap();
        assert_eq!(shown(&first.inner), shown(&jimothy));
        assert_eq!(shown(&second.inner), shown(&andrea));
        // Read as a record that needs the age, the same row lacks a column.
        match backend().decode(&person(), rows[1].clone()) {
            Err(error) => assert_eq!(error, DecodeError::ColumnNotFound("0".to_string())),
            Ok(_) => panic!("the age is missing"),
        }
    });
}

#[test]
fn inner_join_leaves_out_what_only_one_side_has() {
    run(async {
        let pool = memory().await;
        register(&pool, vec![Component::Struct(name()), Component::Struct(age())]).await;
        for query in backend().insert(&component(name()), Value::Integer(1), &named("Only named")) {
            execute(&pool, &query).await;
        }
        for query in backend().insert(&component(age()), Value::Integer(2), &aged(5)) {
            execute(&pool, &query).await;
        }
        for query in backend().insert(
            &person(),
            Value::Integer(3),
            &Record::Struct(vec![named("Both"), aged(40)]),
        ) {
            execute(&pool, &query).await;
        }
        let join = CommonTableExpression::InnerJoin {
            left: Box::new(name().cte()),
            right: Box::new(age().cte()),
            join_key: "entity".to_string(),
        };
        assert!(join.is_well_formed());
        let rows = fetch(&pool, &Query::new(&serialize(&join))).await;
        assert_eq!(
            rows,
            vec![vec![Value::Integer(3), Value::Text("Both".to_string()), Value::Integer(40)]]
        );
        // The merge keeps every entity, and pads what it lacks.
        let merge = CommonTableExpression::Merge { tables: vec![name().cte(), age().cte()] };
        let mut rows = fetch(&pool, &Query::new(&serialize(&merge))).await;
        rows.sort_by_key(|row| format!("{:?}", row[0]));
        assert_eq!(
            rows,
            vec![
                vec![Value::Integer(1), Value::Text("Only named".to_string()), Value::Null],
                vec![Value::Integer(2), Value::Null, Value::Integer(5)],
                vec![Value::Integer(3), Value::Text("Both".to_string()), Value::Integer(40)],
            ]
        );
    });
}

#[test]
fn statement_projects_as_many_columns_as_lowering_declares() {
    run(async {
        let pool = memory().await;
        register(&pool, vec![Component::Struct(name()), Component::Struct(age())]).await;
        for query in backend().insert(
            &person(),
            Value::Integer(1),
            &Record::Struct(vec![named("Deep"), aged(1)]),
        ) {
            execute(&pool, &query).await;
        }
        // Five levels: a join of a merge of a join of a merge of tables.
        let innermost = CommonTableExpression::Merge { tables: vec![name().cte(), age().cte()] };
        let third = CommonTableExpression::InnerJoin {
            left: Box::new(innermost),
            right: Box::new(CommonTableExpression::Extract {
                table: "Age".to_string(),
                columns: vec!["column0".to_string(), "entity".to_string()],
            }),
            join_key: "entity".to_string(),
        };
        let second = CommonTableExpression::Merge {
            tables: vec![
                third,
                CommonTableExpression::Extract { table: "Name".to_string(), columns: vec![] },
            ],
        };
        let tree = CommonTableExpression::InnerJoin {
            left: Box::new(CommonTableExpression::Extract {
                table: "Name".to_string(),
                columns: vec!["column0".to_string()],
            }),
            right: Box::new(second),
            join_key: "entity".to_string(),
        };
        assert!(tree.is_well_formed());
        let lowered = tree.lower();
        assert_eq!(lowered.columns.len(), 5);
        assert_eq!(tree.columns(), lowered.columns);
        for sql in [lowered.sql, serialize(&tree)] {
            let rows = sqlx::query(&sql).fetch_all(&pool).await.unwrap();
            assert_eq!(rows.len(), 1);
            assert_eq!(rows[0].len(), lowered.columns.len() + 1);
            assert_eq!(rows[0].column(0).name(), "entity");
            for (index, column) in lowered.columns.iter().enumerate() {
                assert_eq!(rows[0].column(index + 1).name(), column);
            }
        }
    });
}

#[test]
fn component_round_trip_through_the_database() {
    run(async {
        let pool = memory().await;
        let sample = StructComponent {
            typename: "Sample".to_string(),
            table_name: "\"Sample\"".to_string(),
            fields: vec![
                Field::Named { ident: "text".to_string(), kind: Kind::Text, nullable: false },
                Field::Named { ident: "signed".to_string(), kind: Kind::I64, nullable: false },
                Field::Named { ident: "unsigned".to_string(), kind: Kind::U32, nullable: false },
                Field::Named { ident: "maybe".to_string(), kind: Kind::Text, nullable: true },
            ],
        };
        register(&pool, vec![Component::Struct(sample)]).await;
        let archetype = || {
            component(StructComponent {
                typename: "Sample".to_string(),
                table_name: "\"Sample\"".to_string(),
                fields: vec![
                    Field::Named { ident: "text".to_string(), kind: Kind::Text, nullable: false },
                    Field::Named { ident: "signed".to_string(), kind: Kind::I64, nullable: false },
                    Field::Named { ident: "unsigned".to_string(), kind: Kind::U32, nullable: false },
                    Field::Named { ident: "maybe".to_string(), kind: Kind::Text, nullable: true },
                ],
            })
        };
        let values = vec![
            vec![Value::Text(String::new()), Value::Integer(0), Value::Integer(0), Value::Null],
            vec![
                Value::Text("é'\"".to_string()),
                Value::Integer(-1),
                Value::Integer(4294967295),
                Value::Text(String::new()),
            ],
            vec![
                Value::Text(" ".to_string()),
                Value::Integer(i64::MIN),
                Value::Integer(1),
                Value::Text("x".to_string()),
            ],
        ];
        for (index, value) in values.into_iter().enumerate() {
            let entity = Value::Integer(index as i64);
            let record = Record::Component(ComponentValue::Struct(value.clone()));
            for query in backend().insert(&archetype(), entity.clone(), &record) {
                execute(&pool, &query).await;
            }
            let rows = fetch(&pool, &backend().get(&archetype(), entity.clone())).await;
            assert_eq!(rows.len(), 1);
            let rowed = backend().decode(&archetype(), rows[0].clone()).unwrap();
            assert_eq!(rowed.entity, entity);
            assert_eq!(shown(&rowed.inner), shown(&record));
        }
    });
}

#[test]
fn tagged_round_trip_through_the_database() {
    run(async {
        let pool = memory().await;
        register(&pool, vec![Component::Enum(light_switch())]).await;
        let archetype = || Archetype::Component(Component::Enum(light_switch()));
        let on = Record::Component(ComponentValue::Enum(Tagged {
            variant: "On".to_string(),
            fields: vec![Value::Integer(10)],
        }));
        let off = Record::Component(ComponentValue::Enum(Tagged {
            variant: "Off".to_string(),
            fields: vec![Value::Integer(20), Value::Integer(30)],
        }));
        for (entity, record) in [(1, &on), (2, &off)] {
            for query in backend().insert(&archetype(), Value::Integer(entity), record) {
                execute(&pool, &query).await;
            }
        }
        execute(
            &pool,
            &Query::new("insert into LightSwitch(entity, __erm_tag, a) values(3, 'Dimmed', 1)"),
        )
        .await;
        let get = |entity: i64| backend().get(&archetype(), Value::Integer(entity));
        let rows = fetch(&pool, &get(1)).await;
        assert_eq!(
            shown(&backend().decode(&archetype(), rows[0].clone()).unwrap().inner),
            shown(&on)
        );
        let rows = fetch(&pool, &get(2)).await;
        assert_eq!(
            shown(&backend().decode(&archetype(), rows[0].clone()).unwrap().inner),
            shown(&off)
        );
        let rows = fetch(&pool, &get(3)).await;
        match backend().decode(&archetype(), rows[0].clone()) {
            Err(error) => assert_eq!(error, DecodeError::UnknownVariant("Dimmed".to_string())),
            Ok(_) => panic!("the tag names no variant"),
        }
        // An update replaces the variant, and the row stays as wide.
        for query in backend().update(&archetype(), Value::Integer(1), &off) {
            execute(&pool, &query).await;
        }
        let rows = fetch(&pool, &get(1)).await;
        assert_eq!(rows[0].len(), 5);
        assert_eq!(
            shown(&backend().decode(&archetype(), rows[0].clone()).unwrap().inner),
            shown(&off)
        );
    });
}

#[test]
fn removing_an_archetype_deletes_the_rows_of_its_components() {
    run(async {
        let pool = memory().await;
        people(&pool).await;
        for query in backend().remove(&person(), Value::Integer(1)).unwrap() {
            execute(&pool, &query).await;
        }
        let rows = fetch(&pool, &backend().list(&component(name()), &Condition::All)).await;
        assert_eq!(rows, vec![vec![Value::Integer(2), Value::Text("Andrea".to_string())]]);
        let rows = fetch(&pool, &backend().get(&component(age()), Value::Integer(2))).await;
        assert_eq!(rows, vec![vec![Value::Integer(2), Value::Integer(32)]]);
        let rows = fetch(&pool, &backend().get(&component(age()), Value::Integer(1))).await;
        assert_eq!(rows, vec![vec![Value::Integer(1), Value::Null]]);
        match backend().decode(&component(age()), rows[0].clone()) {
            Err(error) => assert_eq!(error, DecodeError::ColumnNotFound("0".to_string())),
            Ok(_) => panic!("the entity has no age"),
        }
    });
}

#[test]
fn update_replaces_the_row_of_a_component() {
    run(async {
        let pool = memory().await;
        people(&pool).await;
        for query in backend().update(&component(name()), Value::Integer(2), &named("Second")) {
            execute(&pool, &query).await;
        }
        let rows = fetch(&pool, &backend().get(&person(), Value::Integer(2))).await;
        let rowed = backend().decode(&person(), rows[0].clone()).unwrap();
        assert_eq!(shown(&rowed.inner), shown(&Record::Struct(vec![named("Second"), aged(32)])));
    });
}

#[test]
fn test_func() {
    run(async {
        let options = SqliteConnectOptions::new().in_memory(true);

        let db = SqlitePoolOptions::new()
            .min_connections(1)
            .max_connections(1)
            .idle_timeout(None)
            .max_lifetime(None)
            .connect_with(options)
            .await
            .unwrap();

        sqlx::query(
            r#"
            create table if not exists positions(
                entity text primary key,
                x real,
                y real
            );
            "#,
        )
        .execute(&db)
        .await
        .unwrap();

        sqlx::query(
            r#"
            create table if not exists real_names(
                entity text primary key,
                real_name text
            );
            "#,
        )
        .execute(&db)
        .await
        .unwrap();

        sqlx::raw_sql(
            r#"
            insert or ignore into positions(entity, x, y) values('a', 10.0, 20.0);
            insert or ignore into positions(entity, x, y) values('b', 30.0, 40.0);
            insert or ignore into real_names(entity, real_name) values("a", "first");
            insert or ignore into real_names(entity, real_name) values("b", "second");
        "#,
        )
        .execute(&db)
        .await
        .unwrap();
    });
}

#[test]
fn optional_first_member_can_be_absent() {
    run(async {
        let pool = memory().await;
        register(&pool, vec![Component::Struct(name()), Component::Struct(age())]).await;
        let archetype = || {
            Archetype::Struct(StructArchetype {
                typename: "Aged".to_string(),
                fields: vec![
                    member("name", Archetype::Optional(Box::new(component(name())))),
                    member("age", component(age())),
                ],
            })
        };
        let nameless = Record::Struct(vec![Record::Optional(None), aged(5)]);
        for query in backend().insert(&archetype(), Value::Integer(2), &nameless) {
            execute(&pool, &query).await;
        }
        let rows = fetch(&pool, &backend().get(&archetype(), Value::Integer(2))).await;
        assert_eq!(rows, vec![vec![Value::Integer(2), Value::Null, Value::Integer(5)]]);
        let rowed = backend().decode(&archetype(), rows[0].clone()).unwrap();
        assert_eq!(rowed.inner, nameless);
    });
}

#[test]
fn variant_without_the_first_member_is_fetched() {
    run(async {
        let pool = memory().await;
        register(&pool, vec![Component::Struct(name()), Component::Struct(age())]).await;
        let archetype = || {
            Archetype::Enum(EnumArchetype {
                typename: "Known".to_string(),
                members: vec![member("name", component(name())), member("age", component(age()))],
                variants: vec![
                    Choice { ident: "ByName".to_string(), fields: vec!["name".to_string()] },
                    Choice { ident: "ByAge".to_string(), fields: vec!["age".to_string()] },
                ],
            })
        };
        let by_age = Record::Enum { variant: "ByAge".to_string(), fields: vec![aged(9)] };
        let by_name = Record::Enum { variant: "ByName".to_string(), fields: vec![named("Nine")] };
        for (entity, record) in [(1, &by_age), (2, &by_name)] {
            for query in backend().insert(&archetype(), Value::Integer(entity), record) {
                execute(&pool, &query).await;
            }
        }
        let rows = fetch(&pool, &backend().get(&archetype(), Value::Integer(1))).await;
        assert_eq!(rows, vec![vec![Value::Integer(1), Value::Null, Value::Integer(9)]]);
        assert_eq!(backend().decode(&archetype(), rows[0].clone()).unwrap().inner, by_age);
        let rows = fetch(&pool, &backend().get(&archetype(), Value::Integer(2))).await;
        assert_eq!(backend().decode(&archetype(), rows[0].clone()).unwrap().inner, by_name);
    });
}

#[test]
fn shared_column_is_created_once_and_holds_either_variant() {
    run(async {
        let pool = memory().await;
        let field = |ident: &str, kind| Field::Named { ident: ident.to_string(), kind, nullable: false };
        let switch = || EnumComponent {
            typename: "Switch".to_string(),
            table_name: "Switch".to_string(),
            variants: vec![
                Variant { name: "On".to_string(), fields: vec![field("counter", Kind::I64)] },
                Variant { name: "Off".to_string(), fields: vec![field("counter", Kind::I64)] },
            ],
        };
        for _ in 0..2 {
            register(&pool, vec![Component::Enum(switch())]).await;
        }
        let columns = fetch(
            &pool,
            &Query::new("select name from pragma_table_info('Switch') order by cid"),
        )
        .await;
        assert_eq!(columns.len(), 3);
        let archetype = || Archetype::Component(Component::Enum(switch()));
        let on = Record::Component(ComponentValue::Enum(Tagged {
            variant: "On".to_string(),
            fields: vec![Value::Integer(1)],
        }));
        let off = Record::Component(ComponentValue::Enum(Tagged {
            variant: "Off".to_string(),
            fields: vec![Value::Integer(2)],
        }));
        for (entity, record) in [(1, &on), (2, &off)] {
            assert!(archetype().accepts(record));
            for query in backend().insert(&archetype(), Value::Integer(entity), record) {
                execute(&pool, &query).await;
            }
            let rows = fetch(&pool, &backend().get(&archetype(), Value::Integer(entity))).await;
            assert_eq!(backend().decode(&archetype(), rows[0].clone()).unwrap().inner, *record);
        }
    });
}

#[test]
fn narrow_integers_and_truth_values_round_trip_through_the_database() {
    run(async {
        let pool = memory().await;
        let kinds = [Kind::I8, Kind::I16, Kind::I32, Kind::U8, Kind::U16, Kind::Bool];
        let narrow = || StructComponent {
            typename: "Narrow".to_string(),
            table_name: "\"Narrow\"".to_string(),
            fields: kinds
                .iter()
                .enumerate()
                .map(|(index, kind)| Field::Numbered { index, kind: *kind, nullable: index == 5 })
                .collect(),
        };
        let created = narrow().table_creator(Database::Sqlite, Kind::I64);
        assert!(created.contains("  column5 BOOLEAN null"));
        assert!(created.contains("  column0 INTEGER not null,"));
        register(&pool, vec![Component::Struct(narrow())]).await;
        let values = vec![
            vec![-128, -32768, -2147483648, 0, 0, 0],
            vec![127, 32767, 2147483647, 255, 65535, 1],
        ];
        for (index, value) in values.into_iter().enumerate() {
            let entity = Value::Integer(index as i64);
            let value: Vec<Value> = value.into_iter().map(Value::Integer).collect();
            assert!(narrow().accepts(&value));
            let record = Record::Component(ComponentValue::Struct(value));
            for query in backend().insert(&component(narrow()), entity.clone(), &record) {
                execute(&pool, &query).await;
            }
            let rows = fetch(&pool, &backend().get(&component(narrow()), entity.clone())).await;
            assert_eq!(rows.len(), 1);
            let rowed = backend().decode(&component(narrow()), rows[0].clone()).unwrap();
            assert_eq!(shown(&rowed.inner), shown(&record));
        }
        let mut absent: Vec<Value> = vec![1, 1, 1, 1, 1].into_iter().map(Value::Integer).collect();
        absent.push(Value::Null);
        assert!(narrow().accepts(&absent));
        let mut wide = absent.clone();
        wide[0] = Value::Integer(128);
        assert!(!narrow().accepts(&wide));
        let mut row = vec![Value::Integer(9)];
        row.extend(wide);
        assert!(backend().decode(&component(narrow()), row).is_err());
    });
}

#[test]
fn entity_without_rows_is_the_variant_without_components() {
    run(async {
        let pool = memory().await;
        let counter = || StructComponent {
            typename: "Counter".to_string(),
            table_name: "Counter".to_string(),
            fields: vec![Field::Numbered { index: 0, kind: Kind::I64, nullable: false }],
        };
        let switch = || {
            Archetype::Enum(EnumArchetype {
                typename: "LightSwitch".to_string(),
                members: vec![member("counter", component(counter()))],
                variants: vec![
                    Choice { ident: "On".to_string(), fields: vec!["counter".to_string()] },
                    Choice { ident: "Off".to_string(), fields: vec![] },
                ],
            })
        };
        register(&pool, vec![Component::Struct(counter())]).await;
        let ten = Record::Component(ComponentValue::Struct(vec![Value::Integer(10)]));
        for query in backend().insert(&component(counter()), Value::Integer(1), &ten) {
            execute(&pool, &query).await;
        }
        let rows = fetch(&pool, &backend().get(&switch(), Value::Integer(1))).await;
        assert_eq!(rows, vec![vec![Value::Integer(1), Value::Integer(10)]]);
        let rowed = backend().decode(&switch(), rows[0].clone()).unwrap();
        assert_eq!(rowed.entity, Value::Integer(1));
        assert_eq!(rowed.inner, Record::Enum { variant: "On".to_string(), fields: vec![ten] });
        let rows = fetch(&pool, &backend().get(&switch(), Value::Integer(2))).await;
        assert_eq!(rows, vec![vec![Value::Integer(2), Value::Null]]);
        let rowed = backend().decode(&switch(), rows[0].clone()).unwrap();
        assert_eq!(rowed.entity, Value::Integer(2));
        assert_eq!(rowed.inner, Record::Enum { variant: "Off".to_string(), fields: vec![] });
        let rows = fetch(&pool, &backend().list(&switch(), &Condition::All)).await;
        assert_eq!(rows, vec![vec![Value::Integer(1), Value::Integer(10)]]);
    });
}

#[test]
fn entity_is_fetched_once_whatever_the_tables_hold() {
    run(async {
        let pool = memory().await;
        people(&pool).await;
        let rows = fetch(&pool, &backend().get(&person(), Value::Integer(1))).await;
        assert_eq!(
            rows,
            vec![vec![Value::Integer(1), Value::Text("Jimothy".to_string()), Value::Integer(10)]]
        );
        let rows = fetch(&pool, &backend().get(&acquaintance(), Value::Integer(9))).await;
        assert_eq!(rows, vec![vec![Value::Integer(9), Value::Null, Value::Null]]);
        assert!(backend().decode(&acquaintance(), rows[0].clone()).is_err());
        assert!(backend().decode(&person(), rows[0].clone()).is_err());
    });
}
