use routehost::json::clone_entries;
use routehost::json::obj_get;
use routehost::json::text_eq;
use routehost::json::Json;

fn nested() -> Json {
    Json::Obj(vec![
        ("a".to_owned(), Json::Int(1)),
        (
            "b".to_owned(),
            Json::Arr(vec![
                Json::Null,
                Json::Bool(true),
                Json::Float(0.5f64.to_bits()),
                Json::Text("s".to_owned()),
            ]),
        ),
        ("c".to_owned(), Json::Obj(vec![("d".to_owned(), Json::Int(2))])),
    ])
}

#[test]
fn deep_clone_is_structurally_equal() {
    let source = nested();
    let copy = source.deep_clone();
    assert_eq!(copy, source);
}

#[test]
fn object_lookup_takes_the_first_match() {
    let entries = vec![
        ("k".to_owned(), Json::Int(1)),
        ("k".to_owned(), Json::Int(2)),
    ];
    assert_eq!(obj_get(&entries, &"k".to_owned()), Some(&Json::Int(1)));
    assert_eq!(obj_get(&entries, &"missing".to_owned()), None);
}

#[test]
fn entry_lists_clone_whole() {
    let entries = vec![
        ("x".to_owned(), Json::Int(1)),
        ("y".to_owned(), nested()),
    ];
    assert_eq!(clone_entries(&entries), entries);
}

#[test]
fn null_check_sees_only_null() {
    assert!(Json::Null.is_null());
    assert!(!Json::Bool(false).is_null());
    assert!(!Json::Text(String::new()).is_null());
}

#[test]
fn text_comparison_is_by_characters() {
    assert!(text_eq("abc", "abc"));
    assert!(!text_eq("abc", "abd"));
    assert!(!text_eq("abc", "ab"));
    assert!(text_eq("", ""));
}
