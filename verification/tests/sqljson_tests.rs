use routehost::json::Json;
use routehost::sqljson::add_value_to_map;
use routehost::sqljson::row_to_json;
use routehost::sqljson::row_to_string;
use routehost::sqljson::sql_nonnull_to_json;
use routehost::sqljson::sql_to_json;
use routehost::sqljson::type_family;
use routehost::sqljson::ColumnFamily;
use routehost::sqljson::RowText;
use routehost::sqljson::SqlCell;
use routehost::sqljson::SqlRow;
use routehost::sqljson::SqlValue;
use routehost::sqljson::NAN_BITS;

fn cell(name: &str, value: SqlValue) -> SqlCell {
    SqlCell {
        name: name.to_owned(),
        value,
    }
}

#[test]
fn type_names_pick_their_families() {
    assert_eq!(type_family("REAL"), ColumnFamily::Float);
    assert_eq!(type_family("FLOAT8"), ColumnFamily::Float);
    assert_eq!(type_family("DOUBLE"), ColumnFamily::Float);
    assert_eq!(type_family("NUMERIC"), ColumnFamily::Float);
    assert_eq!(type_family("INT8"), ColumnFamily::BigInt);
    assert_eq!(type_family("BIGINT"), ColumnFamily::BigInt);
    assert_eq!(type_family("INTEGER"), ColumnFamily::BigInt);
    assert_eq!(type_family("INT"), ColumnFamily::MediumInt);
    assert_eq!(type_family("INT4"), ColumnFamily::MediumInt);
    assert_eq!(type_family("INT2"), ColumnFamily::SmallInt);
    assert_eq!(type_family("SMALLINT"), ColumnFamily::SmallInt);
    assert_eq!(type_family("BOOL"), ColumnFamily::Boolean);
    assert_eq!(type_family("BOOLEAN"), ColumnFamily::Boolean);
    assert_eq!(type_family("TEXT"), ColumnFamily::Text);
    assert_eq!(type_family("VARCHAR"), ColumnFamily::Text);
    assert_eq!(type_family("real"), ColumnFamily::Text);
}

#[test]
fn decode_defaults_on_failure() {
    assert_eq!(
        sql_nonnull_to_json(&SqlValue::Float(None)),
        Json::Float(NAN_BITS)
    );
    assert_eq!(sql_nonnull_to_json(&SqlValue::BigInt(None)), Json::Int(0));
    assert_eq!(sql_nonnull_to_json(&SqlValue::MediumInt(None)), Json::Int(0));
    assert_eq!(sql_nonnull_to_json(&SqlValue::SmallInt(None)), Json::Int(0));
    assert_eq!(
        sql_nonnull_to_json(&SqlValue::Boolean(None)),
        Json::Bool(false)
    );
    assert_eq!(
        sql_nonnull_to_json(&SqlValue::Text(None)),
        Json::Text(String::new())
    );
}

#[test]
fn decode_successes_carry_values() {
    assert_eq!(
        sql_nonnull_to_json(&SqlValue::Float(Some(2.5f64.to_bits()))),
        Json::Float(2.5f64.to_bits())
    );
    assert_eq!(
        sql_nonnull_to_json(&SqlValue::BigInt(Some(-42))),
        Json::Int(-42)
    );
    assert_eq!(
        sql_nonnull_to_json(&SqlValue::MediumInt(Some(7))),
        Json::Int(7)
    );
    assert_eq!(
        sql_nonnull_to_json(&SqlValue::SmallInt(Some(-3))),
        Json::Int(-3)
    );
    assert_eq!(
        sql_nonnull_to_json(&SqlValue::Boolean(Some(true))),
        Json::Bool(true)
    );
    assert_eq!(
        sql_nonnull_to_json(&SqlValue::Text(Some("x".to_owned()))),
        Json::Text("x".to_owned())
    );
}

#[test]
fn null_decodes_to_null_regardless_of_type() {
    assert_eq!(sql_to_json(&SqlValue::Null), Json::Null);
}

#[test]
fn fresh_key_is_appended() {
    let map = vec![("a".to_owned(), Json::Int(1))];
    let folded = add_value_to_map(map, ("b".to_owned(), Json::Int(2)));
    assert_eq!(
        folded,
        vec![
            ("a".to_owned(), Json::Int(1)),
            ("b".to_owned(), Json::Int(2)),
        ]
    );
}

#[test]
fn repeated_key_folds_scalar_into_array() {
    let map = vec![("tag".to_owned(), Json::Text("x".to_owned()))];
    let folded = add_value_to_map(map, ("tag".to_owned(), Json::Text("y".to_owned())));
    assert_eq!(
        folded,
        vec![(
            "tag".to_owned(),
            Json::Arr(vec![
                Json::Text("x".to_owned()),
                Json::Text("y".to_owned()),
            ])
        )]
    );
}

#[test]
fn repeated_key_appends_to_existing_array() {
    let map = vec![(
        "tag".to_owned(),
        Json::Arr(vec![Json::Text("x".to_owned()), Json::Text("y".to_owned())]),
    )];
    let folded = add_value_to_map(map, ("tag".to_owned(), Json::Text("z".to_owned())));
    assert_eq!(
        folded,
        vec![(
            "tag".to_owned(),
            Json::Arr(vec![
                Json::Text("x".to_owned()),
                Json::Text("y".to_owned()),
                Json::Text("z".to_owned()),
            ])
        )]
    );
}

#[test]
fn incoming_array_contributes_its_elements() {
    let map = vec![("tag".to_owned(), Json::Int(1))];
    let folded = add_value_to_map(
        map,
        ("tag".to_owned(), Json::Arr(vec![Json::Int(2), Json::Int(3)])),
    );
    assert_eq!(
        folded,
        vec![(
            "tag".to_owned(),
            Json::Arr(vec![Json::Int(1), Json::Int(2), Json::Int(3)])
        )]
    );
}

#[test]
fn repeated_column_name_folds_in_order() {
    let row = SqlRow {
        cells: vec![
            cell("tag", SqlValue::Text(Some("x".to_owned()))),
            cell("n", SqlValue::BigInt(Some(1))),
            cell("tag", SqlValue::Text(Some("y".to_owned()))),
        ],
    };
    assert_eq!(
        row_to_json(&row),
        Json::Obj(vec![
            (
                "tag".to_owned(),
                Json::Arr(vec![
                    Json::Text("x".to_owned()),
                    Json::Text("y".to_owned()),
                ])
            ),
            ("n".to_owned(), Json::Int(1)),
        ])
    );
}

#[test]
fn column_order_is_first_seen() {
    let row = SqlRow {
        cells: vec![
            cell("b", SqlValue::BigInt(Some(2))),
            cell("a", SqlValue::BigInt(Some(1))),
        ],
    };
    assert_eq!(
        row_to_json(&row),
        Json::Obj(vec![
            ("b".to_owned(), Json::Int(2)),
            ("a".to_owned(), Json::Int(1)),
        ])
    );
}

#[test]
fn first_column_text_cases() {
    let text_row = SqlRow {
        cells: vec![cell("c", SqlValue::Text(Some("hello".to_owned())))],
    };
    assert_eq!(row_to_string(&text_row), RowText::Text("hello".to_owned()));

    let null_row = SqlRow {
        cells: vec![cell("c", SqlValue::Null)],
    };
    assert_eq!(row_to_string(&null_row), RowText::Empty);

    let empty_row = SqlRow { cells: vec![] };
    assert_eq!(row_to_string(&empty_row), RowText::Empty);

    let int_row = SqlRow {
        cells: vec![cell("c", SqlValue::BigInt(Some(-205)))],
    };
    assert_eq!(row_to_string(&int_row), RowText::Text("-205".to_owned()));

    let bool_row = SqlRow {
        cells: vec![cell("c", SqlValue::Boolean(Some(true)))],
    };
    assert_eq!(row_to_string(&bool_row), RowText::Text("true".to_owned()));

    let float_row = SqlRow {
        cells: vec![cell("c", SqlValue::Float(Some(3.25f64.to_bits())))],
    };
    assert_eq!(row_to_string(&float_row), RowText::Float(3.25f64.to_bits()));
}

#[test]
fn large_integers_render_exactly() {
    let row = SqlRow {
        cells: vec![cell("c", SqlValue::BigInt(Some(i64::MIN)))],
    };
    assert_eq!(
        row_to_string(&row),
        RowText::Text("-9223372036854775808".to_owned())
    );
    let row_max = SqlRow {
        cells: vec![cell("c", SqlValue::BigInt(Some(i64::MAX)))],
    };
    assert_eq!(
        row_to_string(&row_max),
        RowText::Text("9223372036854775807".to_owned())
    );
}
