use routehost::cache::cache_subset;
use routehost::cache::set_data_cache;
use routehost::cache::CacheError;
use routehost::cache::DataCache;
use routehost::json::Json;

fn small_object() -> Json {
    Json::Obj(vec![
        ("a".to_owned(), Json::Int(1)),
        ("b".to_owned(), Json::Int(2)),
    ])
}

#[test]
fn replace_then_read_returns_value() {
    let cache = DataCache::new();
    assert_eq!(cache.read(), Json::Null);
    cache.replace(small_object());
    assert_eq!(cache.read(), small_object());
}

#[test]
fn replace_swaps_whole_value_no_merge() {
    let cache = DataCache::new();
    cache.replace(small_object());
    cache.replace(Json::Obj(vec![("c".to_owned(), Json::Int(3))]));
    assert_eq!(
        cache.read(),
        Json::Obj(vec![("c".to_owned(), Json::Int(3))])
    );
}

#[test]
fn set_data_cache_stores_value() {
    let cache = DataCache::new();
    set_data_cache(&cache, Json::Text("warm".to_owned()));
    assert_eq!(cache.read(), Json::Text("warm".to_owned()));
}

#[test]
fn subset_single_key_present() {
    let cache = DataCache::new();
    cache.replace(small_object());
    let got = cache.read_subset(&Json::Text("a".to_owned()));
    assert_eq!(got, Ok(Json::Int(1)));
}

#[test]
fn subset_single_key_absent_is_null() {
    let cache = DataCache::new();
    cache.replace(small_object());
    let got = cache.read_subset(&Json::Text("z".to_owned()));
    assert_eq!(got, Ok(Json::Null));
}

#[test]
fn subset_key_list_mixes_present_and_absent() {
    let cache = DataCache::new();
    cache.replace(small_object());
    let selector = Json::Arr(vec![
        Json::Text("a".to_owned()),
        Json::Text("z".to_owned()),
    ]);
    let got = cache.read_subset(&selector);
    assert_eq!(
        got,
        Ok(Json::Obj(vec![
            ("a".to_owned(), Json::Int(1)),
            ("z".to_owned(), Json::Null),
        ]))
    );
}

#[test]
fn subset_of_non_object_cache_is_an_error() {
    let got = cache_subset(&Json::Int(7), &Json::Text("a".to_owned()));
    assert_eq!(got, Err(CacheError::InvalidSelector));
}

#[test]
fn subset_with_non_string_key_is_an_error() {
    let selector = Json::Arr(vec![Json::Text("a".to_owned()), Json::Int(1)]);
    let got = cache_subset(&small_object(), &selector);
    assert_eq!(got, Err(CacheError::InvalidKey));
}

#[test]
fn subset_with_non_string_selector_is_an_error() {
    let got = cache_subset(&small_object(), &Json::Bool(true));
    assert_eq!(got, Err(CacheError::InvalidSelector));
}

#[test]
fn overlapping_readers_agree() {
    let cache = DataCache::new();
    cache.replace(small_object());
    let (first, second) = cache.read_pair();
    assert_eq!(first, second);
}

#[test]
fn empty_selector_list_reads_an_empty_object() {
    let got = cache_subset(&small_object(), &Json::Arr(vec![]));
    assert_eq!(got, Ok(Json::Obj(vec![])));
}

#[test]
fn repeated_selector_keys_collapse() {
    let cache = DataCache::new();
    cache.replace(small_object());
    let selector = Json::Arr(vec![
        Json::Text("a".to_owned()),
        Json::Text("a".to_owned()),
    ]);
    let got = cache.read_subset(&selector);
    assert_eq!(got, Ok(Json::Obj(vec![("a".to_owned(), Json::Int(1))])));
}
