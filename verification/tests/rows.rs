use oct::error::ErrorKind;
use oct::json::{Json, JsonNumber};
use oct::row::{Row, RowError, RowField};

fn object(members: Vec<(&str, Json)>) -> Json {
    Json::Object(members.into_iter().map(|(k, v)| (k.to_string(), v)).collect())
}

#[test]
fn parse_reads_json_text() {
    assert_eq!(Json::parse("null"), Some(Json::Null));
    assert_eq!(Json::parse(" true "), Some(Json::Bool(true)));
    assert_eq!(Json::parse("12"), Some(Json::Number(JsonNumber::PosInt(12))));
    assert_eq!(Json::parse("0"), Some(Json::Number(JsonNumber::PosInt(0))));
    assert_eq!(Json::parse("-12"), Some(Json::Number(JsonNumber::NegInt(-12))));
    assert_eq!(
        Json::parse("1.5"),
        Some(Json::Number(JsonNumber::Float(1.5f64.to_bits())))
    );
    assert_eq!(
        Json::parse("1.0"),
        Some(Json::Number(JsonNumber::Float(1.0f64.to_bits())))
    );
    assert_eq!(
        Json::parse("1e2"),
        Some(Json::Number(JsonNumber::Float(100.0f64.to_bits())))
    );
    assert_eq!(
        Json::parse("18446744073709551615"),
        Some(Json::Number(JsonNumber::PosInt(u64::MAX)))
    );
    assert_eq!(
        Json::parse("-9223372036854775808"),
        Some(Json::Number(JsonNumber::NegInt(i64::MIN)))
    );
    assert_eq!(Json::parse("\"a\\nb\""), Some(Json::String("a\nb".to_string())));
    assert_eq!(
        Json::parse("[1, [], {}]"),
        Some(Json::Array(vec![
            Json::Number(JsonNumber::PosInt(1)),
            Json::Array(vec![]),
            Json::Object(vec![]),
        ]))
    );
    assert_eq!(
        Json::parse("{\"b\": {\"c\": [null]}, \"a\": false}"),
        Some(object(vec![
            ("a", Json::Bool(false)),
            ("b", object(vec![("c", Json::Array(vec![Json::Null]))])),
        ]))
    );
}

#[test]
fn parse_refuses_what_is_not_json() {
    assert_eq!(Json::parse(""), None);
    assert_eq!(Json::parse("{"), None);
    assert_eq!(Json::parse("{\"a\": 1,}"), None);
    assert_eq!(Json::parse("1 2"), None);
    assert_eq!(Json::parse("nul"), None);
    assert_eq!(Json::parse("'a'"), None);
}

#[test]
fn row_from_json_keeps_types() {
    let row =
        Row::from_json("{\"title\": \"x\", \"n\": 3, \"m\": -4, \"f\": 2.5, \"done\": false}")
            .unwrap();
    assert_eq!(row.len(), 5);
    assert_eq!(row.get("title"), Some(&RowField::String("x".to_string())));
    assert_eq!(row.get("n"), Some(&RowField::Integer(3)));
    assert_eq!(row.get("m"), Some(&RowField::Integer(-4)));
    assert_eq!(row.get("f"), Some(&RowField::Float(2.5f64.to_bits())));
    assert_eq!(row.get("done"), Some(&RowField::Boolean(false)));
    assert_eq!(row.get("missing"), None);
    assert_eq!(row.get_str("title"), Some("x"));
    assert_eq!(row.get_str("n"), None);
    assert_eq!(row.get_int("n"), Some(3));
    assert_eq!(row.get_int("title"), None);
    assert_eq!(row.get_int("missing"), None);
}

#[test]
fn numbers_without_fraction_are_integers() {
    let row = Row::from_json("{\"a\": 1, \"b\": 1.0, \"c\": 1e0, \"d\": 9223372036854775807}")
        .unwrap();
    assert_eq!(row.get("a"), Some(&RowField::Integer(1)));
    assert_eq!(row.get("b"), Some(&RowField::Float(1.0f64.to_bits())));
    assert_eq!(row.get("c"), Some(&RowField::Float(1.0f64.to_bits())));
    assert_eq!(row.get("d"), Some(&RowField::Integer(i64::MAX)));
}

#[test]
fn row_errors() {
    assert_eq!(Row::from_json("{not json").err(), Some(RowError::Syntax));
    assert_eq!(Row::from_json("[1]").err(), Some(RowError::NotAnObject));
    assert_eq!(Row::from_json("1").err(), Some(RowError::NotAnObject));
    assert_eq!(Row::from_json("null").err(), Some(RowError::NotAnObject));
    assert_eq!(Row::from_json("{\"a\": null}").err(), Some(RowError::UnsupportedType));
    assert_eq!(Row::from_json("{\"a\": [1]}").err(), Some(RowError::UnsupportedType));
    assert_eq!(Row::from_json("{\"a\": {}}").err(), Some(RowError::UnsupportedType));
    assert_eq!(
        Row::from_json("{\"a\": 9223372036854775808}").err(),
        Some(RowError::NumberOutOfRange)
    );
    // the first member that is refused decides
    assert_eq!(
        Row::from_value(&object(vec![
            ("a", Json::Number(JsonNumber::PosInt(u64::MAX))),
            ("b", Json::Null),
        ]))
        .err(),
        Some(RowError::NumberOutOfRange)
    );
    assert_eq!(
        Row::from_value(&object(vec![
            ("b", Json::Null),
            ("a", Json::Number(JsonNumber::PosInt(u64::MAX))),
        ]))
        .err(),
        Some(RowError::UnsupportedType)
    );
    assert_eq!(RowError::Syntax.kind(), ErrorKind::Validation);
    assert!(Row::from_json("{}").unwrap().len() == 0);
}

#[test]
fn set_replaces_in_place_and_appends() {
    let mut row = Row::new();
    assert_eq!(row.len(), 0);
    assert!(!row.contains_key("a"));
    row.set("a", RowField::Integer(1));
    row.set("b", RowField::Null);
    row.set("a", RowField::String("again".to_string()));
    assert_eq!(row.len(), 2);
    assert!(row.contains_key("a"));
    assert_eq!(row.name_at(0), "a");
    assert_eq!(row.name_at(1), "b");
    assert_eq!(row.value_at(0), &RowField::String("again".to_string()));
    assert_eq!(row.value_at(1), &RowField::Null);
    assert_eq!(row.get("a"), Some(&RowField::String("again".to_string())));
    let copy = row.clone();
    assert_eq!(copy.len(), 2);
    assert_eq!(copy.get("a"), row.get("a"));
    assert_eq!(copy.get("b"), Some(&RowField::Null));
}

#[test]
fn a_repeated_member_keeps_its_last_value() {
    let row = Row::from_value(&object(vec![
        ("a", Json::Bool(true)),
        ("b", Json::Bool(true)),
        ("a", Json::Bool(false)),
    ]))
    .unwrap();
    assert_eq!(row.len(), 2);
    assert_eq!(row.get("a"), Some(&RowField::Boolean(false)));
    assert_eq!(row.name_at(0), "a");
}

#[test]
fn fields_render_as_json() {
    assert_eq!(
        RowField::String("x".to_string()).to_value(),
        Json::String("x".to_string())
    );
    assert_eq!(RowField::Integer(5).to_value(), Json::Number(JsonNumber::PosInt(5)));
    assert_eq!(RowField::Integer(0).to_value(), Json::Number(JsonNumber::PosInt(0)));
    assert_eq!(RowField::Integer(-5).to_value(), Json::Number(JsonNumber::NegInt(-5)));
    assert_eq!(
        RowField::DateTime(1700000000).to_value(),
        Json::Number(JsonNumber::PosInt(1700000000))
    );
    assert_eq!(
        RowField::DateTime(-1).to_value(),
        Json::Number(JsonNumber::NegInt(-1))
    );
    assert_eq!(
        RowField::Float(0.25f64.to_bits()).to_value(),
        Json::Number(JsonNumber::Float(0.25f64.to_bits()))
    );
    assert_eq!(RowField::Boolean(true).to_value(), Json::Bool(true));
    assert_eq!(RowField::Null.to_value(), Json::Null);
    assert_eq!(RowField::Integer(7).get_int(), Some(7));
    assert_eq!(RowField::DateTime(7).get_int(), None);
    assert_eq!(RowField::Null.get_int(), None);
    assert_eq!(
        RowField::String("s".to_string()).clone(),
        RowField::String("s".to_string())
    );
}

#[test]
fn rows_render_as_objects_in_order() {
    let mut row = Row::new();
    row.set("b", RowField::Integer(2));
    row.set("a", RowField::Boolean(true));
    assert_eq!(
        row.to_value(),
        object(vec![
            ("b", Json::Number(JsonNumber::PosInt(2))),
            ("a", Json::Bool(true)),
        ])
    );
    assert_eq!(Row::new().to_value(), Json::Object(vec![]));
}

#[test]
fn json_to_row_and_back() {
    let text = "{\"a\": 1, \"b\": \"two\", \"c\": true, \"d\": -3, \"e\": 0.5}";
    let json = Json::parse(text).unwrap();
    let row = Row::from_value(&json).unwrap();
    assert_eq!(row.to_value(), json);
    assert_eq!(Json::from_integer(-1), Json::Number(JsonNumber::NegInt(-1)));
    assert_eq!(Json::array(vec![Json::Null]), Json::Array(vec![Json::Null]));
}

#[test]
fn row_failures_read_as_text() {
    assert_eq!(RowError::Syntax.message(), "Invalid JSON");
    assert_eq!(RowError::NotAnObject.message(), "Invalid data");
    assert_eq!(RowError::UnsupportedType.message(), "Invalid data type");
    assert_eq!(RowError::NumberOutOfRange.message(), "Invalid input");
}
