use routehost::cache::DataCache;
use routehost::json::Json;
use routehost::routes::RouteRequest;
use routehost::routes::RouteTable;
use routehost::worker::handler_argument;
use routehost::worker::interpret_handler_value;
use routehost::worker::EngineOutcome;
use routehost::worker::HttpReply;
use routehost::worker::ReplyBody;
use routehost::worker::Runner;

fn request(name: &str, args: Vec<(String, Json)>) -> RouteRequest {
    RouteRequest {
        route_name: name.to_owned(),
        response_channel: None,
        route_args: args,
    }
}

#[test]
fn string_result_is_an_html_body() {
    let reply = interpret_handler_value(&Json::Text("hi".to_owned()));
    assert_eq!(
        reply,
        HttpReply {
            status: 200,
            body: ReplyBody::Html("hi".to_owned())
        }
    );
}

#[test]
fn json_key_is_a_json_body_with_default_status() {
    let settled = Json::Obj(vec![(
        "json".to_owned(),
        Json::Obj(vec![("a".to_owned(), Json::Int(1))]),
    )]);
    let reply = interpret_handler_value(&settled);
    assert_eq!(
        reply,
        HttpReply {
            status: 200,
            body: ReplyBody::JsonBody(Json::Obj(vec![("a".to_owned(), Json::Int(1))]))
        }
    );
}

#[test]
fn html_key_with_status_override() {
    let settled = Json::Obj(vec![
        ("html".to_owned(), Json::Text("<p>x</p>".to_owned())),
        ("status".to_owned(), Json::Int(201)),
    ]);
    let reply = interpret_handler_value(&settled);
    assert_eq!(
        reply,
        HttpReply {
            status: 201,
            body: ReplyBody::Html("<p>x</p>".to_owned())
        }
    );
}

#[test]
fn object_without_recognized_keys_is_empty_body() {
    let settled = Json::Obj(vec![("other".to_owned(), Json::Int(1))]);
    let reply = interpret_handler_value(&settled);
    assert_eq!(
        reply,
        HttpReply {
            status: 200,
            body: ReplyBody::Html(String::new())
        }
    );
}

#[test]
fn json_key_takes_precedence_over_html() {
    let settled = Json::Obj(vec![
        ("html".to_owned(), Json::Text("ignored".to_owned())),
        ("json".to_owned(), Json::Int(5)),
    ]);
    let reply = interpret_handler_value(&settled);
    assert_eq!(
        reply,
        HttpReply {
            status: 200,
            body: ReplyBody::JsonBody(Json::Int(5))
        }
    );
}

#[test]
fn malformed_results_are_server_errors() {
    // A non-string, non-object settled value.
    assert_eq!(interpret_handler_value(&Json::Int(3)).status, 500);
    // A non-string html value.
    let bad_html = Json::Obj(vec![("html".to_owned(), Json::Int(1))]);
    assert_eq!(interpret_handler_value(&bad_html).status, 500);
    // A status outside the valid range.
    let bad_status = Json::Obj(vec![
        ("html".to_owned(), Json::Text("x".to_owned())),
        ("status".to_owned(), Json::Int(99)),
    ]);
    assert_eq!(interpret_handler_value(&bad_status).status, 500);
    // A non-integer status.
    let nonint_status = Json::Obj(vec![
        ("json".to_owned(), Json::Int(1)),
        ("status".to_owned(), Json::Text("ok".to_owned())),
    ]);
    assert_eq!(interpret_handler_value(&nonint_status).status, 500);
}

#[test]
fn handler_gets_a_single_params_object() {
    let req = request("/a", vec![("id".to_owned(), Json::Text("7".to_owned()))]);
    assert_eq!(
        handler_argument(&req),
        Json::Obj(vec![(
            "params".to_owned(),
            Json::Obj(vec![("id".to_owned(), Json::Text("7".to_owned()))])
        )])
    );
}

#[test]
fn builder_route_settles_into_the_cache() {
    let runner = Runner::new(RouteTable::new());
    let cache = DataCache::new();
    let req = request("__create_cache", vec![]);
    let value = Json::Obj(vec![("warm".to_owned(), Json::Bool(true))]);
    let reply = runner.finish_route(&cache, &req, EngineOutcome::Settled(value));
    assert_eq!(
        reply,
        HttpReply {
            status: 200,
            body: ReplyBody::Html(String::new())
        }
    );
    assert_eq!(
        cache.read(),
        Json::Obj(vec![("warm".to_owned(), Json::Bool(true))])
    );
}

#[test]
fn engine_failure_costs_only_that_request() {
    let runner = Runner::new(RouteTable::new());
    let cache = DataCache::new();
    let req = request("/a", vec![]);
    let reply = runner.finish_route(&cache, &req, EngineOutcome::Failed);
    assert_eq!(reply.status, 500);
    // The cache is untouched.
    assert_eq!(cache.read(), Json::Null);
}

#[test]
fn builder_route_failure_leaves_cache_alone() {
    let runner = Runner::new(RouteTable::new());
    let cache = DataCache::new();
    cache.replace(Json::Int(1));
    let req = request("__create_cache", vec![]);
    let reply = runner.finish_route(&cache, &req, EngineOutcome::Failed);
    assert_eq!(reply.status, 500);
    assert_eq!(cache.read(), Json::Int(1));
}

#[test]
fn ordinary_route_settlement_is_interpreted() {
    let runner = Runner::new(RouteTable::new());
    let cache = DataCache::new();
    let req = request("/hello", vec![]);
    let reply = runner.finish_route(
        &cache,
        &req,
        EngineOutcome::Settled(Json::Text("hi".to_owned())),
    );
    assert_eq!(
        reply,
        HttpReply {
            status: 200,
            body: ReplyBody::Html("hi".to_owned())
        }
    );
}
