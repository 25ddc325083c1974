use oct::error::ErrorKind;
use oct::row::{Row, RowField};
use oct::schema::{DateTimeDesc, FieldDef, ModelDef, ModelVisibilityScope, SimpleDesc};
use oct::storage::{DbValue, Statement, StorageError, ADMIN, NO_OWNER};

fn optional(mut f: FieldDef) -> FieldDef {
    match &mut f {
        FieldDef::String(d)
        | FieldDef::Integer(d)
        | FieldDef::Boolean(d)
        | FieldDef::Float(d)
        | FieldDef::User(d) => d.optional = Some(true),
        FieldDef::DateTime(d) => d.optional = Some(true),
        FieldDef::Reference(d) => d.optional = Some(true),
    }
    f
}

fn model(name: &str, fields: Vec<FieldDef>, scope: Option<ModelVisibilityScope>) -> ModelDef {
    ModelDef {
        name: name.to_string(),
        description: None,
        fields: Some(fields),
        visibility_scope: scope,
    }
}

fn todo() -> ModelDef {
    model(
        "Todo",
        vec![
            FieldDef::make_string("title", "what to do"),
            optional(FieldDef::make_boolean("done", "whether it is done")),
        ],
        None,
    )
}

fn row(fields: Vec<(&str, RowField)>) -> Row {
    let mut r = Row::new();
    for (k, v) in fields {
        r.set(k, v);
    }
    r
}

const HEAD: &str = " (\n    id INTEGER PRIMARY KEY AUTOINCREMENT,\n    _oct_owner BIGINT,\n    _oct_create_time timestamp NOT NULL DEFAULT (DATETIME('now')),\n    _oct_update_time timestamp NOT NULL DEFAULT (DATETIME('now'))";

#[test]
fn column_declarations() {
    assert_eq!(FieldDef::make_string("a", "").type_sql(), "a VARCHAR(128) NOT NULL");
    assert_eq!(FieldDef::make_integer("a", "").type_sql(), "a BIGINT NOT NULL");
    assert_eq!(FieldDef::make_float("a", "").type_sql(), "a FLOAT NOT NULL");
    assert_eq!(FieldDef::make_boolean("a", "").type_sql(), "a INTEGER NOT NULL");
    assert_eq!(FieldDef::make_datetime("a", "").type_sql(), "a DATETIME NOT NULL");
    assert_eq!(FieldDef::make_user("a", "").type_sql(), "a BIGINT NOT NULL");
    assert_eq!(FieldDef::make_reference("a", "", "T").type_sql(), "a BIGINT NOT NULL");
    assert_eq!(optional(FieldDef::make_string("name", "")).type_sql(), "name VARCHAR(128)");
    assert_eq!(optional(FieldDef::make_datetime("at", "")).type_sql(), "at DATETIME");
    assert_eq!(optional(FieldDef::make_reference("r", "", "T")).type_sql(), "r BIGINT");
}

#[test]
fn create_table_text() {
    assert_eq!(
        todo().create_table_query(),
        format!(
            "CREATE TABLE Todo{},\n    title VARCHAR(128) NOT NULL,\n    done INTEGER\n);",
            HEAD
        )
    );
    let bare = ModelDef {
        name: "Bare".to_string(),
        description: None,
        fields: None,
        visibility_scope: None,
    };
    assert_eq!(bare.create_table_query(), format!("CREATE TABLE Bare{}\n);", HEAD));
    assert_eq!(
        model("Empty", vec![], None).create_table_query(),
        format!("CREATE TABLE Empty{}\n);", HEAD)
    );
    let s = todo().create_table();
    assert_eq!(s.sql, todo().create_table_query());
    assert_eq!(s.params, vec![]);
}

#[test]
fn alter_table_text() {
    let f = FieldDef::make_integer("rank", "");
    assert_eq!(
        todo().alter_table_query(&f),
        "ALTER TABLE Todo\n            ADD rank BIGINT NOT NULL"
    );
}

#[test]
fn migration_adds_the_new_fields_only() {
    let old = todo();
    let new = model(
        "Todo",
        vec![
            optional(FieldDef::make_integer("rank", "")),
            FieldDef::make_string("title", "what to do"),
            optional(FieldDef::make_float("score", "")),
            optional(FieldDef::make_boolean("done", "whether it is done")),
        ],
        None,
    );
    let statements = new.alter_table(&old);
    assert_eq!(
        statements,
        vec![
            Statement {
                sql: "ALTER TABLE Todo\n            ADD rank BIGINT".to_string(),
                params: vec![]
            },
            Statement {
                sql: "ALTER TABLE Todo\n            ADD score FLOAT".to_string(),
                params: vec![]
            },
        ]
    );
    // the second run compares with the definition that the first run reached
    assert_eq!(new.alter_table(&new), vec![]);
    // nothing is removed
    assert_eq!(old.alter_table(&new), vec![]);
    // an earlier definition without fields declares nothing
    let bare = ModelDef {
        name: "Todo".to_string(),
        description: None,
        fields: None,
        visibility_scope: None,
    };
    assert_eq!(old.alter_table(&bare).len(), 2);
    assert_eq!(bare.alter_table(&old), vec![]);
    assert!(old.has_field("title"));
    assert!(!old.has_field("rank"));
    assert!(!bare.has_field("title"));
}

#[test]
fn conditions() {
    let everyone = todo();
    assert_eq!(everyone.condition(None, None), "1");
    assert_eq!(everyone.condition(Some(7), None), "1");
    assert_eq!(everyone.condition(Some(7), Some(3)), "1 AND id=3");
    let owner = model("Note", vec![], Some(ModelVisibilityScope::Owner));
    assert_eq!(owner.condition(None, None), "1");
    assert_eq!(owner.condition(Some(ADMIN), None), "1");
    assert_eq!(owner.condition(Some(7), None), "_oct_owner=7");
    assert_eq!(owner.condition(Some(-7), None), "_oct_owner=-7");
    assert_eq!(owner.condition(Some(7), Some(12)), "_oct_owner=7 AND id=12");
    assert_eq!(owner.condition(None, Some(-1)), "1 AND id=-1");
    assert_eq!(
        owner.condition(Some(i64::MAX), Some(i64::MIN)),
        "_oct_owner=9223372036854775807 AND id=-9223372036854775808"
    );
    assert_eq!(owner.condition(Some(10), Some(100)), "_oct_owner=10 AND id=100");
    assert_eq!(owner.condition(Some(1), Some(0)), "_oct_owner=1 AND id=0");
    let explicit = model("Open", vec![], Some(ModelVisibilityScope::Everyone));
    assert_eq!(explicit.condition(Some(7), None), "1");
}

#[test]
fn stored_values() {
    assert_eq!(
        RowField::String("x".to_string()).to_db_value(),
        DbValue::Text("x".to_string())
    );
    assert_eq!(RowField::Integer(-3).to_db_value(), DbValue::Integer(-3));
    assert_eq!(
        RowField::Float(1.5f64.to_bits()).to_db_value(),
        DbValue::Real(1.5f64.to_bits())
    );
    assert_eq!(RowField::Boolean(true).to_db_value(), DbValue::Integer(1));
    assert_eq!(RowField::Boolean(false).to_db_value(), DbValue::Integer(0));
    assert_eq!(RowField::DateTime(99).to_db_value(), DbValue::Integer(99));
    assert_eq!(RowField::Null.to_db_value(), DbValue::Null);
}

#[test]
fn defaults() {
    let plain = FieldDef::make_datetime("at", "");
    assert_eq!(plain.default_value(5), None);
    let now = FieldDef::DateTime(DateTimeDesc {
        name: "at".to_string(),
        description: None,
        optional: None,
        default_now: Some(true),
    });
    assert_eq!(now.default_value(1700000000), Some(RowField::DateTime(1700000000)));
    let never = FieldDef::DateTime(DateTimeDesc {
        name: "at".to_string(),
        description: None,
        optional: None,
        default_now: Some(false),
    });
    assert_eq!(never.default_value(5), None);
    assert_eq!(FieldDef::make_string("s", "").default_value(5), None);
    assert_eq!(FieldDef::make_integer("s", "").default_value(5), None);
    assert_eq!(FieldDef::make_reference("s", "", "T").default_value(5), None);
}

#[test]
fn create_statement() {
    let rec = row(vec![
        ("done", RowField::Boolean(true)),
        ("title", RowField::String("x".to_string())),
        ("extra", RowField::Integer(1)),
    ]);
    let s = todo().create(&rec, Some(7), 100).unwrap();
    assert_eq!(s.sql, "INSERT INTO Todo (_oct_owner,title,done) VALUES (?,?,?)");
    assert_eq!(
        s.params,
        vec![DbValue::Integer(7), DbValue::Text("x".to_string()), DbValue::Integer(1)]
    );
    let anonymous = todo().create(&rec, None, 100).unwrap();
    assert_eq!(anonymous.params[0], DbValue::Integer(NO_OWNER));
    assert_eq!(NO_OWNER, -1);
}

#[test]
fn create_requires_the_required_fields() {
    // `title` is required and has no default
    let rec = row(vec![("done", RowField::Boolean(true))]);
    let e = todo().create(&rec, Some(7), 100).unwrap_err();
    assert_eq!(e, StorageError::MissingField("title".to_string()));
    assert_eq!(e.kind(), ErrorKind::MissingField);
    // `done` is optional: the same kind of row succeeds and stores nothing for it
    let rec = row(vec![("title", RowField::String("x".to_string()))]);
    let s = todo().create(&rec, None, 100).unwrap();
    assert_eq!(s.sql, "INSERT INTO Todo (_oct_owner,title) VALUES (?,?)");
    assert_eq!(s.params, vec![DbValue::Integer(-1), DbValue::Text("x".to_string())]);
    // the first missing field is the one reported
    let strict = model(
        "Strict",
        vec![
            optional(FieldDef::make_string("a", "")),
            FieldDef::make_string("b", ""),
            FieldDef::make_string("c", ""),
        ],
        None,
    );
    assert_eq!(
        strict.create(&Row::new(), None, 0).unwrap_err(),
        StorageError::MissingField("b".to_string())
    );
    assert_eq!(
        strict.create(&row(vec![("b", RowField::Null)]), None, 0).unwrap_err(),
        StorageError::MissingField("c".to_string())
    );
}

#[test]
fn create_uses_the_default_only_where_the_row_is_silent() {
    let m = model(
        "Event",
        vec![
            FieldDef::DateTime(DateTimeDesc {
                name: "at".to_string(),
                description: None,
                optional: None,
                default_now: Some(true),
            }),
            FieldDef::Float(SimpleDesc {
                name: "score".to_string(),
                description: None,
                optional: Some(true),
            }),
        ],
        None,
    );
    let s = m.create(&Row::new(), Some(3), 1234).unwrap();
    assert_eq!(s.sql, "INSERT INTO Event (_oct_owner,at) VALUES (?,?)");
    assert_eq!(s.params, vec![DbValue::Integer(3), DbValue::Integer(1234)]);
    let s = m
        .create(
            &row(vec![
                ("score", RowField::Float(2.5f64.to_bits())),
                ("at", RowField::DateTime(5)),
            ]),
            Some(3),
            1234,
        )
        .unwrap();
    assert_eq!(s.sql, "INSERT INTO Event (_oct_owner,at,score) VALUES (?,?,?)");
    assert_eq!(
        s.params,
        vec![DbValue::Integer(3), DbValue::Integer(5), DbValue::Real(2.5f64.to_bits())]
    );
}

#[test]
fn create_without_fields() {
    let bare = ModelDef {
        name: "Bare".to_string(),
        description: None,
        fields: None,
        visibility_scope: None,
    };
    let s = bare.create(&row(vec![("x", RowField::Integer(1))]), Some(2), 0).unwrap();
    assert_eq!(s.sql, "INSERT INTO Bare (_oct_owner) VALUES (?)");
    assert_eq!(s.params, vec![DbValue::Integer(2)]);
}

#[test]
fn update_statement() {
    let owner = model("Note", vec![], Some(ModelVisibilityScope::Owner));
    let rec = row(vec![
        ("title", RowField::String("y".to_string())),
        ("id", RowField::Integer(4)),
        ("done", RowField::Boolean(false)),
    ]);
    let s = owner.update(&rec, Some(7)).unwrap();
    assert_eq!(s.sql, "UPDATE Note SET title=?,done=? WHERE _oct_owner=7 AND id=4");
    assert_eq!(s.params, vec![DbValue::Text("y".to_string()), DbValue::Integer(0)]);
    let s = owner.update(&rec, None).unwrap();
    assert_eq!(s.sql, "UPDATE Note SET title=?,done=? WHERE 1 AND id=4");
    let s = owner.update(&row(vec![("id", RowField::Integer(-2))]), Some(ADMIN)).unwrap();
    assert_eq!(s.sql, "UPDATE Note SET  WHERE 1 AND id=-2");
    assert_eq!(s.params, vec![]);
}

#[test]
fn update_needs_an_integer_id() {
    let rec = row(vec![("title", RowField::String("y".to_string()))]);
    let e = todo().update(&rec, Some(7)).unwrap_err();
    assert_eq!(e, StorageError::MissingId);
    assert_eq!(e.kind(), ErrorKind::MissingField);
    let rec = row(vec![("id", RowField::String("4".to_string()))]);
    let e = todo().update(&rec, Some(7)).unwrap_err();
    assert_eq!(e, StorageError::InvalidId);
    assert_eq!(e.kind(), ErrorKind::Validation);
    assert_eq!(
        todo().update(&row(vec![("id", RowField::Null)]), None).unwrap_err(),
        StorageError::InvalidId
    );
    assert_eq!(
        todo().update(&row(vec![("id", RowField::DateTime(1))]), None).unwrap_err(),
        StorageError::InvalidId
    );
    assert_eq!(todo().update(&Row::new(), None).unwrap_err(), StorageError::MissingId);
}

#[test]
fn delete_statement() {
    let owner = model("Note", vec![], Some(ModelVisibilityScope::Owner));
    let s = owner.delete(&[1, 2, 3], Some(7));
    assert_eq!(s.sql, "DELETE FROM Note WHERE _oct_owner=7 AND id in (1,2,3)");
    assert_eq!(s.params, vec![]);
    assert_eq!(owner.delete(&[], None).sql, "DELETE FROM Note WHERE 1 AND id in ()");
    assert_eq!(
        owner.delete(&[-5, 0, 1000], Some(0)).sql,
        "DELETE FROM Note WHERE 1 AND id in (-5,0,1000)"
    );
    assert_eq!(
        todo().delete(&[i64::MIN, i64::MAX], Some(1)).sql,
        "DELETE FROM Todo WHERE 1 AND id in (-9223372036854775808,9223372036854775807)"
    );
    assert_eq!(todo().delete(&[9, 10, 11, 99, 100, 101, 109, 110], None).sql,
        "DELETE FROM Todo WHERE 1 AND id in (9,10,11,99,100,101,109,110)");
}

#[test]
fn select_statement() {
    assert_eq!(todo().select(None, None).sql, "SELECT id, title,done FROM Todo WHERE 1");
    assert_eq!(
        todo().select(Some(3), Some(9)).sql,
        "SELECT id, title,done FROM Todo WHERE 1 AND id=9"
    );
    let owner = model(
        "Note",
        vec![FieldDef::make_string("text", "")],
        Some(ModelVisibilityScope::Owner),
    );
    assert_eq!(
        owner.select(Some(3), None).sql,
        "SELECT id, text FROM Note WHERE _oct_owner=3"
    );
    assert_eq!(
        owner.select_where("token='abc'").sql,
        "SELECT id, text FROM Note WHERE token='abc'"
    );
    assert_eq!(owner.select(Some(3), None).params, vec![]);
}

#[test]
fn decode_by_declared_type() {
    let s = FieldDef::make_string("f", "");
    let i = FieldDef::make_integer("f", "");
    let b = FieldDef::make_boolean("f", "");
    let x = FieldDef::make_float("f", "");
    let d = FieldDef::make_datetime("f", "");
    let u = FieldDef::make_user("f", "");
    let r = FieldDef::make_reference("f", "", "T");
    assert_eq!(
        s.decode(&DbValue::Text("a".to_string())),
        Ok(RowField::String("a".to_string()))
    );
    assert_eq!(i.decode(&DbValue::Integer(5)), Ok(RowField::Integer(5)));
    assert_eq!(u.decode(&DbValue::Integer(5)), Ok(RowField::Integer(5)));
    assert_eq!(r.decode(&DbValue::Integer(5)), Ok(RowField::Integer(5)));
    assert_eq!(b.decode(&DbValue::Integer(0)), Ok(RowField::Boolean(false)));
    assert_eq!(b.decode(&DbValue::Integer(1)), Ok(RowField::Boolean(true)));
    assert_eq!(b.decode(&DbValue::Integer(-7)), Ok(RowField::Boolean(true)));
    assert_eq!(
        x.decode(&DbValue::Real(0.5f64.to_bits())),
        Ok(RowField::Float(0.5f64.to_bits()))
    );
    assert_eq!(d.decode(&DbValue::Integer(77)), Ok(RowField::DateTime(77)));
    for f in [&s, &i, &b, &x, &d, &u, &r] {
        assert_eq!(f.decode(&DbValue::Null), Ok(RowField::Null));
        assert_eq!(f.decode(&DbValue::Blob(vec![1])), Err(StorageError::ColumnType));
    }
    assert_eq!(s.decode(&DbValue::Integer(1)), Err(StorageError::ColumnType));
    assert_eq!(i.decode(&DbValue::Text("1".to_string())), Err(StorageError::ColumnType));
    assert_eq!(i.decode(&DbValue::Real(0)), Err(StorageError::ColumnType));
    assert_eq!(b.decode(&DbValue::Real(0)), Err(StorageError::ColumnType));
    assert_eq!(x.decode(&DbValue::Text("1.5".to_string())), Err(StorageError::ColumnType));
    assert_eq!(d.decode(&DbValue::Text("now".to_string())), Err(StorageError::ColumnType));
    assert_eq!(StorageError::ColumnType.kind(), ErrorKind::Storage);
    assert_eq!(StorageError::ColumnCount.kind(), ErrorKind::Storage);
}

#[test]
fn stored_values_read_back_equal() {
    let cases = vec![
        (FieldDef::make_string("f", ""), RowField::String("héllo".to_string())),
        (FieldDef::make_integer("f", ""), RowField::Integer(i64::MIN)),
        (FieldDef::make_user("f", ""), RowField::Integer(12)),
        (FieldDef::make_reference("f", "", "T"), RowField::Integer(-12)),
        (FieldDef::make_boolean("f", ""), RowField::Boolean(true)),
        (FieldDef::make_boolean("f", ""), RowField::Boolean(false)),
        (FieldDef::make_float("f", ""), RowField::Float(3.25f64.to_bits())),
        (FieldDef::make_datetime("f", ""), RowField::DateTime(1700000000)),
        (FieldDef::make_string("f", ""), RowField::Null),
        (FieldDef::make_float("f", ""), RowField::Null),
    ];
    for (f, v) in cases {
        assert_eq!(f.decode(&v.to_db_value()), Ok(v));
    }
}

#[test]
fn decode_row_reads_id_last() {
    let m = todo();
    let r = m
        .decode_row(&vec![
            DbValue::Integer(9),
            DbValue::Text("x".to_string()),
            DbValue::Null,
        ])
        .unwrap();
    assert_eq!(r.len(), 3);
    assert_eq!(r.name_at(0), "title");
    assert_eq!(r.name_at(1), "done");
    assert_eq!(r.name_at(2), "id");
    assert_eq!(r.get("title"), Some(&RowField::String("x".to_string())));
    assert_eq!(r.get("done"), Some(&RowField::Null));
    assert_eq!(r.get("id"), Some(&RowField::Integer(9)));
    // a field named `id` gives way to the primary key
    let odd = model("Odd", vec![FieldDef::make_string("id", "")], None);
    let r = odd
        .decode_row(&vec![DbValue::Integer(9), DbValue::Text("x".to_string())])
        .unwrap();
    assert_eq!(r.len(), 1);
    assert_eq!(r.get("id"), Some(&RowField::Integer(9)));
}

#[test]
fn decode_row_failures() {
    let m = todo();
    assert_eq!(m.decode_row(&vec![]).unwrap_err(), StorageError::ColumnCount);
    assert_eq!(
        m.decode_row(&vec![DbValue::Integer(1)]).unwrap_err(),
        StorageError::ColumnCount
    );
    assert_eq!(
        m.decode_row(&vec![DbValue::Integer(1), DbValue::Text("x".to_string())])
            .unwrap_err(),
        StorageError::ColumnCount
    );
    assert_eq!(
        m.decode_row(&vec![DbValue::Integer(1), DbValue::Integer(2), DbValue::Integer(1)])
            .unwrap_err(),
        StorageError::ColumnType
    );
    assert_eq!(
        m.decode_row(&vec![DbValue::Null, DbValue::Text("x".to_string()), DbValue::Integer(1)])
            .unwrap_err(),
        StorageError::ColumnType
    );
    // the fields are read before the primary key
    assert_eq!(
        m.decode_row(&vec![DbValue::Null, DbValue::Text("x".to_string())]).unwrap_err(),
        StorageError::ColumnCount
    );
    let bare = model("Bare", vec![], None);
    assert_eq!(bare.decode_row(&vec![]).unwrap_err(), StorageError::ColumnCount);
    assert_eq!(bare.decode_row(&vec![DbValue::Integer(3)]).unwrap().len(), 1);
    // more columns than fields are not looked at
    assert!(bare.decode_row(&vec![DbValue::Integer(3), DbValue::Blob(vec![])]).is_ok());
}

#[test]
fn decode_rows_with_a_bound() {
    let m = model("Bare", vec![], None);
    let raw: Vec<Vec<DbValue>> = (1..=5).map(|i| vec![DbValue::Integer(i)]).collect();
    let ids = |rows: Vec<Row>| -> Vec<i64> {
        rows.iter().map(|r| r.get_int("id").unwrap()).collect()
    };
    assert_eq!(ids(m.decode_rows(&raw, None).unwrap()), vec![1, 2, 3, 4, 5]);
    assert_eq!(ids(m.decode_rows(&raw, Some(0)).unwrap()), vec![1]);
    assert_eq!(ids(m.decode_rows(&raw, Some(1)).unwrap()), vec![1, 2]);
    assert_eq!(ids(m.decode_rows(&raw, Some(4)).unwrap()), vec![1, 2, 3, 4, 5]);
    assert_eq!(ids(m.decode_rows(&raw, Some(5)).unwrap()), vec![1, 2, 3, 4, 5]);
    assert_eq!(ids(m.decode_rows(&raw, Some(usize::MAX)).unwrap()), vec![1, 2, 3, 4, 5]);
    assert_eq!(ids(m.decode_rows(&vec![], Some(1)).unwrap()), Vec::<i64>::new());
    // a row that cannot be read fails the result if it is reached
    let mut bad = raw;
    bad[3] = vec![DbValue::Null];
    assert_eq!(m.decode_rows(&bad, None).unwrap_err(), StorageError::ColumnType);
    assert_eq!(m.decode_rows(&bad, Some(3)).unwrap_err(), StorageError::ColumnType);
    assert_eq!(ids(m.decode_rows(&bad, Some(2)).unwrap()), vec![1, 2, 3]);
}

#[test]
fn storage_failures_read_as_text() {
    assert_eq!(
        StorageError::MissingField("title".to_string()).message(),
        "Field title is missing"
    );
    assert_eq!(StorageError::MissingId.message(), "No id found in rec");
    assert_eq!(StorageError::InvalidId.message(), "The id in rec is no integer");
    assert_eq!(StorageError::ColumnCount.message(), "A column is missing from the result");
    assert_eq!(StorageError::ColumnType.message(), "A column is not of the declared type");
}

#[test]
fn float_columns() {
    let m = model(
        "M",
        vec![
            FieldDef::make_integer("i", ""),
            FieldDef::make_float("f", ""),
            FieldDef::make_float("g", ""),
        ],
        None,
    );
    assert!(!m.reads_real(0));
    assert!(!m.reads_real(1));
    assert!(m.reads_real(2));
    assert!(m.reads_real(3));
    assert!(!m.reads_real(4));
    assert!(!m.reads_real(usize::MAX));
    let bare = ModelDef {
        name: "Bare".to_string(),
        description: None,
        fields: None,
        visibility_scope: None,
    };
    assert!(!bare.reads_real(1));
}

#[test]
fn plain_fields() {
    assert!(todo().has_plain_fields());
    assert!(model("Empty", vec![], None).has_plain_fields());
    let bare = ModelDef {
        name: "Bare".to_string(),
        description: None,
        fields: None,
        visibility_scope: None,
    };
    assert!(bare.has_plain_fields());
    let twice = model(
        "Twice",
        vec![
            FieldDef::make_string("a", ""),
            FieldDef::make_string("b", ""),
            FieldDef::make_integer("a", ""),
        ],
        None,
    );
    assert!(!twice.has_plain_fields());
    let keyed = model("Keyed", vec![FieldDef::make_string("a", ""), FieldDef::make_string("id", "")], None);
    assert!(!keyed.has_plain_fields());
    // validation does not ask for it
    assert_eq!(twice.validate(), Ok(()));
    assert_eq!(keyed.validate(), Ok(()));
}
