//! The statements of the library, run against a real database.

use graphql_parser::query::{Definition, OperationDefinition};
use oct::graphql::{
    envelope, QueryDefinition, QueryDocument, QueryError, QueryField, QueryOperation,
    QuerySelection,
};
use oct::json::{Json, JsonNumber};
use oct::row::{Row, RowField};
use oct::schema::{
    ApiDef, AppDef, AppMeta, DateTimeDesc, FieldDef, ModelDef, ModelVisibilityScope, SimpleDesc,
};
use oct::storage::{DbValue, Statement};
use oct::sync::sync_models;
use rusqlite::types::{Value, ValueRef};
use rusqlite::{params_from_iter, Connection};

fn to_sql(v: &DbValue) -> Value {
    match v {
        DbValue::Null => Value::Null,
        DbValue::Integer(i) => Value::Integer(*i),
        DbValue::Real(bits) => Value::Real(f64::from_bits(*bits)),
        DbValue::Text(s) => Value::Text(s.clone()),
        DbValue::Blob(b) => Value::Blob(b.clone()),
    }
}

fn execute(conn: &Connection, s: &Statement) -> usize {
    conn.execute(&s.sql, params_from_iter(s.params.iter().map(to_sql))).unwrap()
}

fn fetch(conn: &Connection, s: &Statement) -> Vec<Vec<DbValue>> {
    let mut stmt = conn.prepare(&s.sql).unwrap();
    let n = stmt.column_count();
    let mut rows = stmt.query(params_from_iter(s.params.iter().map(to_sql))).unwrap();
    let mut out = Vec::new();
    while let Some(r) = rows.next().unwrap() {
        let mut cols = Vec::new();
        for i in 0..n {
            cols.push(match r.get_ref(i).unwrap() {
                ValueRef::Null => DbValue::Null,
                ValueRef::Integer(v) => DbValue::Integer(v),
                ValueRef::Real(v) => DbValue::Real(v.to_bits()),
                ValueRef::Text(t) => DbValue::Text(String::from_utf8(t.to_vec()).unwrap()),
                ValueRef::Blob(b) => DbValue::Blob(b.to_vec()),
            });
        }
        out.push(cols);
    }
    out
}

fn tables(conn: &Connection) -> Vec<String> {
    let mut stmt = conn.prepare("SELECT name FROM sqlite_master WHERE type='table'").unwrap();
    let names = stmt.query_map([], |row| row.get::<_, String>(0)).unwrap();
    names.map(|n| n.unwrap()).collect()
}

fn columns(conn: &Connection, table: &str) -> Vec<String> {
    let mut stmt = conn.prepare(&format!("SELECT name FROM pragma_table_info('{}')", table)).unwrap();
    let names = stmt.query_map([], |row| row.get::<_, String>(0)).unwrap();
    names.map(|n| n.unwrap()).collect()
}

fn select(conn: &Connection, m: &ModelDef, uid: Option<i64>, id: Option<i64>) -> Vec<Row> {
    m.decode_rows(&fetch(conn, &m.select(uid, id)), None).unwrap()
}

fn ids(rows: &Vec<Row>) -> Vec<i64> {
    rows.iter().map(|r| r.get_int("id").unwrap()).collect()
}

fn simple(name: &str, optional: Option<bool>) -> SimpleDesc {
    SimpleDesc { name: name.to_string(), description: None, optional }
}

fn todo(scope: Option<ModelVisibilityScope>) -> ModelDef {
    ModelDef {
        name: "Todo".to_string(),
        description: None,
        fields: Some(vec![
            FieldDef::String(simple("title", None)),
            FieldDef::Boolean(simple("done", Some(true))),
        ]),
        visibility_scope: scope,
    }
}

fn app(models: Vec<ModelDef>) -> AppDef {
    AppDef {
        name: "test".to_string(),
        models,
        api: ApiDef { default_access: None, endpoints: vec![] },
        meta: AppMeta { schema: "v0.0.1".to_string() },
    }
}

fn titled(title: &str) -> Row {
    let mut r = Row::new();
    r.set("title", RowField::String(title.to_string()));
    r
}

#[test]
fn values_round_trip_through_storage() {
    let conn = Connection::open_in_memory().unwrap();
    let m = ModelDef {
        name: "Thing".to_string(),
        description: None,
        fields: Some(vec![
            FieldDef::String(simple("s", None)),
            FieldDef::Integer(simple("i", None)),
            FieldDef::Float(simple("f", None)),
            FieldDef::Boolean(simple("b", None)),
            FieldDef::DateTime(DateTimeDesc {
                name: "at".to_string(),
                description: None,
                optional: None,
                default_now: Some(true),
            }),
            FieldDef::User(simple("u", None)),
            FieldDef::Reference(oct::schema::ReferenceDesc {
                name: "r".to_string(),
                description: None,
                target: "Thing".to_string(),
                optional: Some(true),
            }),
        ]),
        visibility_scope: None,
    };
    execute(&conn, &m.create_table());
    let given = Row::from_json(
        "{\"s\": \"text\", \"i\": -42, \"f\": 2.5, \"b\": true, \"u\": 7, \"ignored\": 1}",
    )
    .unwrap();
    assert_eq!(execute(&conn, &m.create(&given, Some(7), 1700000000).unwrap()), 1);
    let rows = select(&conn, &m, None, None);
    assert_eq!(rows.len(), 1);
    let r = &rows[0];
    assert_eq!(r.get("id"), Some(&RowField::Integer(1)));
    assert_eq!(r.get("s"), Some(&RowField::String("text".to_string())));
    assert_eq!(r.get("i"), Some(&RowField::Integer(-42)));
    assert_eq!(r.get("f"), Some(&RowField::Float(2.5f64.to_bits())));
    assert_eq!(r.get("b"), Some(&RowField::Boolean(true)));
    assert_eq!(r.get("at"), Some(&RowField::DateTime(1700000000)));
    assert_eq!(r.get("u"), Some(&RowField::Integer(7)));
    assert_eq!(r.get("r"), Some(&RowField::Null));
    assert_eq!(r.get("ignored"), None);
    assert_eq!(r.len(), 8);
}

#[test]
fn a_missing_optional_field_is_stored_as_null() {
    let conn = Connection::open_in_memory().unwrap();
    let m = todo(None);
    execute(&conn, &m.create_table());
    assert!(m.create(&Row::new(), None, 0).is_err());
    execute(&conn, &m.create(&titled("x"), None, 0).unwrap());
    let rows = select(&conn, &m, None, None);
    assert_eq!(rows.len(), 1);
    assert_eq!(rows[0].get("done"), Some(&RowField::Null));
    assert_eq!(rows[0].get("title"), Some(&RowField::String("x".to_string())));
}

#[test]
fn owner_visibility() {
    let conn = Connection::open_in_memory().unwrap();
    let m = todo(Some(ModelVisibilityScope::Owner));
    execute(&conn, &m.create_table());
    execute(&conn, &m.create(&titled("of a"), Some(7), 0).unwrap());
    execute(&conn, &m.create(&titled("of b"), Some(8), 0).unwrap());
    // the owner and the administrator see the row of 7; another user does not
    assert_eq!(ids(&select(&conn, &m, Some(7), None)), vec![1]);
    assert_eq!(ids(&select(&conn, &m, Some(0), None)), vec![1, 2]);
    assert_eq!(ids(&select(&conn, &m, Some(8), None)), vec![2]);
    assert_eq!(ids(&select(&conn, &m, Some(9), None)), Vec::<i64>::new());
    // a caller without identity is not restricted
    assert_eq!(ids(&select(&conn, &m, None, None)), vec![1, 2]);
    // one row by its id
    assert_eq!(ids(&select(&conn, &m, Some(7), Some(1))), vec![1]);
    assert_eq!(ids(&select(&conn, &m, Some(7), Some(2))), Vec::<i64>::new());
    assert_eq!(ids(&select(&conn, &m, Some(0), Some(2))), vec![2]);
}

#[test]
fn everyone_visibility() {
    let conn = Connection::open_in_memory().unwrap();
    let m = todo(None);
    execute(&conn, &m.create_table());
    execute(&conn, &m.create(&titled("of a"), Some(7), 0).unwrap());
    execute(&conn, &m.create(&titled("of nobody"), None, 0).unwrap());
    assert_eq!(ids(&select(&conn, &m, Some(8), None)), vec![1, 2]);
    assert_eq!(ids(&select(&conn, &m, None, None)), vec![1, 2]);
}

#[test]
fn delete_counts_the_rows_that_the_caller_may_see() {
    let conn = Connection::open_in_memory().unwrap();
    let m = todo(Some(ModelVisibilityScope::Owner));
    execute(&conn, &m.create_table());
    execute(&conn, &m.create(&titled("one"), Some(7), 0).unwrap());
    execute(&conn, &m.create(&titled("two"), Some(8), 0).unwrap());
    execute(&conn, &m.create(&titled("three"), Some(7), 0).unwrap());
    assert_eq!(execute(&conn, &m.delete(&[1, 2, 3], Some(7))), 2);
    assert_eq!(ids(&select(&conn, &m, Some(0), None)), vec![2]);
    assert_eq!(execute(&conn, &m.delete(&[1, 2, 3], Some(7))), 0);
    assert_eq!(execute(&conn, &m.delete(&[], Some(8))), 0);
    assert_eq!(execute(&conn, &m.delete(&[2], Some(0))), 1);
}

#[test]
fn update_writes_the_visible_row() {
    let conn = Connection::open_in_memory().unwrap();
    let m = todo(Some(ModelVisibilityScope::Owner));
    execute(&conn, &m.create_table());
    execute(&conn, &m.create(&titled("one"), Some(7), 0).unwrap());
    let mut change = Row::new();
    change.set("id", RowField::Integer(1));
    change.set("title", RowField::String("changed".to_string()));
    change.set("done", RowField::Boolean(true));
    assert_eq!(execute(&conn, &m.update(&change, Some(8)).unwrap()), 0);
    assert_eq!(execute(&conn, &m.update(&change, Some(7)).unwrap()), 1);
    let rows = select(&conn, &m, Some(7), None);
    assert_eq!(rows[0].get("title"), Some(&RowField::String("changed".to_string())));
    assert_eq!(rows[0].get("done"), Some(&RowField::Boolean(true)));
}

#[test]
fn sync_creates_then_migrates() {
    let conn = Connection::open_in_memory().unwrap();
    let first = app(vec![todo(None)]);
    let plan = sync_models(&tables(&conn), &None, &first).unwrap();
    assert_eq!(plan.len(), 2);
    for s in &plan {
        execute(&conn, s);
    }
    let mut names = tables(&conn);
    names.retain(|n| n != "sqlite_sequence");
    names.sort();
    assert_eq!(names, vec!["Todo".to_string(), "__oct_user".to_string()]);
    assert_eq!(
        columns(&conn, "__oct_user"),
        vec!["id", "_oct_owner", "_oct_create_time", "_oct_update_time", "name", "email", "password", "token"]
    );

    let mut grown = todo(None);
    grown.fields.as_mut().unwrap().push(FieldDef::Integer(simple("rank", Some(true))));
    let second = app(vec![grown]);
    let plan = sync_models(&tables(&conn), &Some(first), &second).unwrap();
    assert_eq!(plan.len(), 1);
    assert_eq!(plan[0].sql, "ALTER TABLE Todo\n            ADD rank BIGINT");
    for s in &plan {
        execute(&conn, s);
    }
    assert_eq!(
        columns(&conn, "Todo"),
        vec!["id", "_oct_owner", "_oct_create_time", "_oct_update_time", "title", "done", "rank"]
    );
    // the same definition again: nothing is left to do
    let again = app(second.models.clone());
    assert_eq!(sync_models(&tables(&conn), &Some(second), &again).unwrap(), vec![]);
}

fn field(name: &str, selections: Vec<QuerySelection>) -> QuerySelection {
    QuerySelection::Field(QueryField {
        alias: None,
        name: name.to_string(),
        arguments: 0,
        directives: 0,
        selections,
    })
}

fn run(conn: &Connection, definition: &AppDef, doc: &QueryDocument) -> Json {
    let plan = doc.plan(definition, None).unwrap();
    let mut data = Vec::new();
    for q in &plan {
        let m = definition.get_model(&q.model).unwrap();
        let rows = m.decode_rows(&fetch(conn, &q.statement), None).unwrap();
        data.push(q.project(&rows).unwrap());
    }
    envelope(data)
}

#[test]
fn query_returns_the_selected_fields() {
    let conn = Connection::open_in_memory().unwrap();
    let definition = app(vec![todo(None)]);
    for s in sync_models(&tables(&conn), &None, &definition).unwrap() {
        execute(&conn, &s);
    }
    let given = Row::from_json("{\"title\": \"x\", \"done\": false}").unwrap();
    let m = definition.get_model("Todo").unwrap();
    execute(&conn, &m.create(&given, None, 0).unwrap());

    // { Todo { id title } }
    let doc = QueryDocument {
        definitions: vec![QueryDefinition::SelectionSet(vec![field(
            "Todo",
            vec![field("id", vec![]), field("title", vec![])],
        )])],
    };
    let expected = Json::parse("{\"data\": [[{\"id\": 1, \"title\": \"x\"}]]}").unwrap();
    assert_eq!(run(&conn, &definition, &doc), expected);

    // query { Todo { done } Todo { title id } }
    let doc = QueryDocument {
        definitions: vec![QueryDefinition::Query(QueryOperation {
            variable_definitions: 0,
            directives: 0,
            selections: vec![
                field("Todo", vec![field("done", vec![])]),
                field("Todo", vec![field("title", vec![]), field("id", vec![])]),
            ],
        })],
    };
    let answer = run(&conn, &definition, &doc);
    let object = |members: Vec<(&str, Json)>| {
        Json::Object(members.into_iter().map(|(k, v)| (k.to_string(), v)).collect())
    };
    // each selection of a query operation gives an element of its own
    assert_eq!(
        answer,
        object(vec![(
            "data",
            Json::Array(vec![
                Json::Array(vec![object(vec![("done", Json::Bool(false))])]),
                Json::Array(vec![object(vec![
                    ("title", Json::String("x".to_string())),
                    ("id", Json::Number(JsonNumber::PosInt(1))),
                ])]),
            ])
        )])
    );
}

fn selections(set: &graphql_parser::query::SelectionSet<'_, String>) -> Vec<QuerySelection> {
    set.items
        .iter()
        .map(|s| match s {
            graphql_parser::query::Selection::Field(f) => QuerySelection::Field(QueryField {
                alias: f.alias.clone(),
                name: f.name.clone(),
                arguments: f.arguments.len(),
                directives: f.directives.len(),
                selections: selections(&f.selection_set),
            }),
            graphql_parser::query::Selection::FragmentSpread(_) => QuerySelection::FragmentSpread,
            graphql_parser::query::Selection::InlineFragment(_) => QuerySelection::InlineFragment,
        })
        .collect()
}

fn parse(text: &str) -> QueryDocument {
    let doc = graphql_parser::query::parse_query::<String>(text).unwrap();
    QueryDocument {
        definitions: doc
            .definitions
            .iter()
            .map(|d| match d {
                Definition::Fragment(_) => QueryDefinition::Fragment,
                Definition::Operation(OperationDefinition::Query(q)) => {
                    QueryDefinition::Query(QueryOperation {
                        variable_definitions: q.variable_definitions.len(),
                        directives: q.directives.len(),
                        selections: selections(&q.selection_set),
                    })
                }
                Definition::Operation(OperationDefinition::SelectionSet(ss)) => {
                    QueryDefinition::SelectionSet(selections(ss))
                }
                Definition::Operation(OperationDefinition::Mutation(_)) => QueryDefinition::Mutation,
                Definition::Operation(OperationDefinition::Subscription(_)) => {
                    QueryDefinition::Subscription
                }
            })
            .collect(),
    }
}

#[test]
fn query_text_is_answered() {
    let conn = Connection::open_in_memory().unwrap();
    let definition = app(vec![todo(None)]);
    for s in sync_models(&tables(&conn), &None, &definition).unwrap() {
        execute(&conn, &s);
    }
    let m = definition.get_model("Todo").unwrap();
    let given = Row::from_json("{\"title\": \"x\", \"done\": false}").unwrap();
    execute(&conn, &m.create(&given, None, 0).unwrap());

    let doc = parse("{ Todo { id title } }");
    assert_eq!(
        doc,
        QueryDocument {
            definitions: vec![QueryDefinition::SelectionSet(vec![field(
                "Todo",
                vec![field("id", vec![]), field("title", vec![])],
            )])],
        }
    );
    assert_eq!(
        run(&conn, &definition, &doc),
        Json::parse("{\"data\": [[{\"id\": 1, \"title\": \"x\"}]]}").unwrap()
    );
    // the word `query` changes nothing
    assert_eq!(
        run(&conn, &definition, &parse("query { Todo { id title } }")),
        run(&conn, &definition, &doc)
    );
    // a second row, and a query operation
    execute(&conn, &m.create(&Row::from_json("{\"title\": \"y\"}").unwrap(), None, 0).unwrap());
    assert_eq!(
        run(&conn, &definition, &parse("query { Todo { done id } }")),
        Json::parse(
            "{\"data\": [[{\"done\": false, \"id\": 1}, {\"done\": null, \"id\": 2}]]}"
        )
        .unwrap()
    );
    // what is not supported is refused before anything is read
    let refused = |text: &str| parse(text).plan(&definition, None).unwrap_err();
    assert_eq!(refused("{ Todo { id } } fragment f on Todo { id }"), QueryError::Fragment);
    assert_eq!(refused("mutation { Todo { id } }"), QueryError::NotQuery);
    assert_eq!(refused("subscription { Todo { id } }"), QueryError::NotQuery);
    assert_eq!(refused("query ($a: Int) { Todo { id } }"), QueryError::Variables);
    assert_eq!(refused("query @skip(if: true) { Todo { id } }"), QueryError::Directives);
    assert_eq!(refused("{ ...f }"), QueryError::NotField);
    assert_eq!(refused("{ t: Todo { id } }"), QueryError::Alias);
    assert_eq!(refused("{ Todo(id: 1) { id } }"), QueryError::Arguments);
    assert_eq!(refused("{ Todo @skip(if: true) { id } }"), QueryError::FieldDirectives);
    assert_eq!(refused("{ Note { id } }"), QueryError::UnknownModel("Note".to_string()));
    assert_eq!(refused("{ Todo { title { x } } }"), QueryError::Nested);
    assert_eq!(refused("{ Todo { t: title } }"), QueryError::Alias);
    assert_eq!(refused("{ Todo { title(x: 1) } }"), QueryError::Arguments);
    assert_eq!(refused("{ Todo { title @skip(if: true) } }"), QueryError::FieldDirectives);
    assert_eq!(refused("{ Todo { ...f } }"), QueryError::LeafNotField);
    assert_eq!(refused("{ Todo { rank } }"), QueryError::UnknownField("rank".to_string()));
}

#[test]
fn numeric_formatting_does_not_matter() {
    let conn = Connection::open_in_memory().unwrap();
    let m = ModelDef {
        name: "N".to_string(),
        description: None,
        fields: Some(vec![
            FieldDef::Integer(simple("i", None)),
            FieldDef::Float(simple("f", None)),
        ]),
        visibility_scope: None,
    };
    execute(&conn, &m.create_table());
    for text in ["{\"i\": 5, \"f\": 2}", "{\"i\": 5.0, \"f\": 2.0}", "{\"i\": 5e0, \"f\": 0.2e1}"] {
        execute(&conn, &m.create(&Row::from_json(text).unwrap(), None, 0).unwrap());
    }
    let rows = select(&conn, &m, None, None);
    assert_eq!(rows.len(), 3);
    for r in &rows {
        assert_eq!(r.get("i"), Some(&RowField::Integer(5)));
        assert_eq!(r.get("f"), Some(&RowField::Float(2.0f64.to_bits())));
    }
}
