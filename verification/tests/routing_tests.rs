use routehost::routes::builder_route;
use routehost::routes::rebuild_request;
use routehost::routes::HandlerRef;
use routehost::routes::RouteTable;
use routehost::worker::init_script_path;
use routehost::worker::Runner;

fn handler(id: usize) -> HandlerRef {
    HandlerRef { id }
}

#[test]
fn route_names_are_exactly_the_registered_path_shaped_set() {
    let mut table = RouteTable::new();
    table.register("/".to_owned(), handler(0));
    table.register("/users".to_owned(), handler(1));
    table.register_builder(handler(2));
    let mut names = table.route_names();
    names.sort();
    assert_eq!(names, vec!["/".to_owned(), "/users".to_owned()]);
}

#[test]
fn non_path_names_stay_internal() {
    let mut table = RouteTable::new();
    table.register("/a".to_owned(), handler(0));
    table.register("helper".to_owned(), handler(1));
    let names = table.route_names();
    assert_eq!(names, vec!["/a".to_owned()]);
    assert!(table.lookup(&"helper".to_owned()).is_some());
}

#[test]
fn builder_route_is_never_exposed() {
    let mut table = RouteTable::new();
    table.register_builder(handler(9));
    assert!(table.route_names().is_empty());
    assert_eq!(table.lookup(&builder_route()), Some(handler(9)));
}

#[test]
fn unregistered_name_dispatches_not_found() {
    let mut table = RouteTable::new();
    table.register("/a".to_owned(), handler(0));
    let runner = Runner::new(table);
    let req = routehost::routes::RouteRequest {
        route_name: "/missing".to_owned(),
        response_channel: None,
        route_args: vec![],
    };
    match runner.route_handler(&req) {
        Err(reply) => assert_eq!(reply.status, 404),
        Ok(_) => panic!("expected a not-found response"),
    }
}

#[test]
fn registered_name_dispatches_to_its_handler() {
    let mut table = RouteTable::new();
    table.register("/a".to_owned(), handler(5));
    let runner = Runner::new(table);
    let req = routehost::routes::RouteRequest {
        route_name: "/a".to_owned(),
        response_channel: None,
        route_args: vec![],
    };
    assert_eq!(runner.route_handler(&req), Ok(handler(5)));
}

#[test]
fn latest_registration_wins() {
    let mut table = RouteTable::new();
    table.register("/a".to_owned(), handler(1));
    table.register("/a".to_owned(), handler(2));
    assert_eq!(table.lookup(&"/a".to_owned()), Some(handler(2)));
}

#[test]
fn same_registrations_rebuild_the_same_table() {
    let regs = vec![
        ("/a".to_owned(), handler(1)),
        ("/b".to_owned(), handler(2)),
        ("__create_cache".to_owned(), handler(3)),
    ];
    let first = RouteTable::from_registrations(&regs);
    let second = RouteTable::from_registrations(&regs);
    assert_eq!(first.route_names(), second.route_names());
    for name in ["/a", "/b", "__create_cache", "/c"] {
        assert_eq!(
            first.lookup(&name.to_owned()),
            second.lookup(&name.to_owned())
        );
    }
}

#[test]
fn rebuild_request_is_internal_and_fire_and_forget() {
    let req = rebuild_request();
    assert_eq!(req.route_name, "__create_cache".to_owned());
    assert!(req.response_channel.is_none());
    assert!(req.route_args.is_empty());
}

#[test]
fn initial_cache_request_only_when_builder_registered() {
    let mut with_builder = RouteTable::new();
    with_builder.register_builder(handler(0));
    let runner = Runner::new(with_builder);
    let req = runner.initial_cache_request().expect("warm-up request");
    assert_eq!(req.route_name, "__create_cache".to_owned());
    assert!(req.response_channel.is_none());

    let runner_without = Runner::new(RouteTable::new());
    assert!(runner_without.initial_cache_request().is_none());
}

#[test]
fn entry_script_path_resolution() {
    assert_eq!(
        init_script_path(Some("app/main.js".to_owned()), "/cwd/".to_owned()),
        "app/main.js".to_owned()
    );
    assert_eq!(
        init_script_path(Some("app/".to_owned()), "/cwd/".to_owned()),
        "app/setup.js".to_owned()
    );
    assert_eq!(
        init_script_path(None, "/cwd/".to_owned()),
        "/cwd/setup.js".to_owned()
    );
    assert_eq!(init_script_path(Some("x.js".to_owned()), "".to_owned()), "x.js".to_owned());
    assert_eq!(init_script_path(Some("js".to_owned()), "".to_owned()), "jssetup.js".to_owned());
}
