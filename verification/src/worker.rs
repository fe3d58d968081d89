//! One script-execution worker's decisions.
//!
//! A worker owns one engine instance and the route table its bootstrap
//! registered. Serving one request has three steps: look the handler up
//! (an unknown name is a not-found response), let the engine drive the
//! handler to a settled value — that part runs outside the library — and
//! interpret the settled value into a response. A handler that threw or
//! rejected costs only its own request a server-error response.
//!
//! The reserved builder route is special: its settled value is not turned
//! into a transport response but stored as the whole shared cache value,
//! and an empty acknowledgement is produced.
//!
//! Interpretation of a settled value: a string becomes an HTML body with
//! status 200; an object with a `json` key answers that key's value as a
//! JSON body; otherwise an `html` key (which must hold a string) answers
//! an HTML body; a `status` key holding an integer from 100 to 999
//! overrides the default 200 on those two; an object with neither key is
//! an empty body with status 200. Anything else — a malformed `html` or
//! `status` value, or a non-string non-object result — is a server error.

use vstd::prelude::*;
use vstd::string::StrSliceExecFns;
use vstd::string::StringExecFns;

use crate::cache::set_data_cache;
use crate::cache::DataCache;
use crate::json::clone_entries;
use crate::json::entries_view;
use crate::json::lemma_entries_view;
use crate::json::obj_get;
use crate::json::spec_obj_get;
use crate::json::text_eq;
use crate::json::Json;
use crate::json::JsonSpec;
use crate::routes::builder_route;
use crate::routes::builder_route_name;
use crate::routes::rebuild_request;
use crate::routes::spec_registered;
use crate::routes::spec_route_lookup;
use crate::routes::HandlerRef;
use crate::routes::RouteRequest;
use crate::routes::RouteTable;

verus! {

/// A response body: HTML text, or a JSON value the transport serializes.
#[derive(Debug, PartialEq)]
pub enum ReplyBody {
    Html(String),
    JsonBody(Json),
}

/// A response as the transport collaborator receives it.
#[derive(Debug, PartialEq)]
pub struct HttpReply {
    pub status: u16,
    pub body: ReplyBody,
}

/// A response body, as specifications see it.
pub enum ReplyBodySpec {
    Html(Seq<char>),
    JsonBody(JsonSpec),
}

/// A response, as specifications see it.
pub struct HttpReplySpec {
    pub status: int,
    pub body: ReplyBodySpec,
}

impl View for ReplyBody {
    type V = ReplyBodySpec;

    open spec fn view(&self) -> ReplyBodySpec {
        match self {
            ReplyBody::Html(s) => ReplyBodySpec::Html(s@),
            ReplyBody::JsonBody(v) => ReplyBodySpec::JsonBody(v@),
        }
    }
}

impl View for HttpReply {
    type V = HttpReplySpec;

    open spec fn view(&self) -> HttpReplySpec {
        HttpReplySpec { status: self.status as int, body: self.body@ }
    }
}

/// The response to an unknown route name.
pub open spec fn spec_not_found_reply() -> HttpReplySpec {
    HttpReplySpec { status: 404, body: ReplyBodySpec::Html("404 not found"@) }
}

/// The response to a handler failure or a malformed handler result.
pub open spec fn spec_server_error_reply() -> HttpReplySpec {
    HttpReplySpec { status: 500, body: ReplyBodySpec::Html("Error"@) }
}

/// The empty acknowledgement: an empty HTML body, status 200.
pub open spec fn spec_empty_reply() -> HttpReplySpec {
    HttpReplySpec { status: 200, body: ReplyBodySpec::Html(Seq::empty()) }
}

/// The status an object result asks for: 200 when absent, the integer
/// when it holds one from 100 to 999, and no valid status otherwise.
pub open spec fn spec_status_of(entries: Seq<(Seq<char>, JsonSpec)>) -> Option<int> {
    match spec_obj_get(entries, "status"@) {
        None => Some(200),
        Some(JsonSpec::Int(i)) => if 100 <= i <= 999 {
            Some(i as int)
        } else {
            None
        },
        Some(_) => None,
    }
}

/// What a settled handler value is interpreted as.
pub open spec fn spec_interpret(v: JsonSpec) -> HttpReplySpec {
    match v {
        JsonSpec::Text(s) => HttpReplySpec { status: 200, body: ReplyBodySpec::Html(s) },
        JsonSpec::Obj(entries) => match spec_obj_get(entries, "json"@) {
            Some(jv) => match spec_status_of(entries) {
                Some(st) => HttpReplySpec { status: st, body: ReplyBodySpec::JsonBody(jv) },
                None => spec_server_error_reply(),
            },
            None => match spec_obj_get(entries, "html"@) {
                Some(JsonSpec::Text(h)) => match spec_status_of(entries) {
                    Some(st) => HttpReplySpec { status: st, body: ReplyBodySpec::Html(h) },
                    None => spec_server_error_reply(),
                },
                Some(_) => spec_server_error_reply(),
                None => spec_empty_reply(),
            },
        },
        _ => spec_server_error_reply(),
    }
}

/// The not-found response.
pub fn not_found_reply() -> (r: HttpReply)
    ensures
        r@ == spec_not_found_reply(),
{
    HttpReply { status: 404, body: ReplyBody::Html("404 not found".to_owned()) }
}

/// The server-error response.
pub fn server_error_reply() -> (r: HttpReply)
    ensures
        r@ == spec_server_error_reply(),
{
    HttpReply { status: 500, body: ReplyBody::Html("Error".to_owned()) }
}

/// The empty acknowledgement.
pub fn empty_reply() -> (r: HttpReply)
    ensures
        r@ == spec_empty_reply(),
{
    HttpReply { status: 200, body: ReplyBody::Html(String::new()) }
}

/// Interpret a settled handler value into a response.
pub fn interpret_handler_value(v: &Json) -> (r: HttpReply)
    ensures
        r@ == spec_interpret(v@),
{
    match v {
        Json::Text(s) => HttpReply { status: 200, body: ReplyBody::Html(s.clone()) },
        Json::Obj(entries) => {
            proof {
                lemma_entries_view(entries@);
            }
            let status_opt: Option<u16> = match obj_get(entries, &"status".to_owned()) {
                None => Some(200),
                Some(Json::Int(i)) => if 100 <= *i && *i <= 999 {
                    Some(*i as u16)
                } else {
                    None
                },
                Some(_) => None,
            };
            match obj_get(entries, &"json".to_owned()) {
                Some(jv) => match status_opt {
                    Some(st) => HttpReply { status: st, body: ReplyBody::JsonBody(jv.deep_clone()) },
                    None => server_error_reply(),
                },
                None => match obj_get(entries, &"html".to_owned()) {
                    Some(Json::Text(h)) => match status_opt {
                        Some(st) => HttpReply { status: st, body: ReplyBody::Html(h.clone()) },
                        None => server_error_reply(),
                    },
                    Some(_) => server_error_reply(),
                    None => empty_reply(),
                },
            }
        },
        _ => server_error_reply(),
    }
}

/// What the engine's drive of one handler call came back with: the settled
/// value, or a throw or rejection.
#[derive(Debug)]
pub enum EngineOutcome {
    Settled(Json),
    Failed,
}

/// The single argument object a handler is called with: `{params: args}`.
pub fn handler_argument(req: &RouteRequest) -> (a: Json)
    ensures
        a@ == JsonSpec::Obj(
            seq![("params"@, JsonSpec::Obj(entries_view(req.route_args@)))],
        ),
{
    let params = Json::Obj(clone_entries(&req.route_args));
    let mut fields: Vec<(String, Json)> = Vec::new();
    fields.push(("params".to_owned(), params));
    let a = Json::Obj(fields);
    proof {
        lemma_entries_view(fields@);
        assert(entries_view(fields@) =~= seq![
            ("params"@, JsonSpec::Obj(entries_view(req.route_args@))),
        ]);
    }
    a
}

/// One worker's decision logic: the route table its bootstrap produced.
/// The engine instance itself lives with the shell, on the worker's own
/// thread.
#[derive(Debug)]
pub struct Runner {
    pub routes: RouteTable,
}

impl Runner {
    /// A worker over a bootstrapped route table.
    pub fn new(routes: RouteTable) -> (r: Runner)
        ensures
            r.routes@ == routes@,
    {
        Runner { routes }
    }

    /// The handler a request's route name resolves to; an unregistered
    /// name gets the not-found response instead.
    pub fn route_handler(&self, req: &RouteRequest) -> (r: Result<HandlerRef, HttpReply>)
        ensures
            match spec_route_lookup(self.routes@, req.route_name@) {
                Some(h) => r == Ok::<HandlerRef, HttpReply>(h),
                None => r matches Err(reply) && reply@ == spec_not_found_reply(),
            },
    {
        match self.routes.lookup(&req.route_name) {
            Some(h) => Ok(h),
            None => Err(not_found_reply()),
        }
    }

    /// Interpret what the engine came back with for one request. On the
    /// reserved builder route a settled value is not a transport response:
    /// it replaces the whole shared cache value and an empty
    /// acknowledgement is produced. Anywhere a handler failed, only this
    /// request is answered with a server error.
    pub fn finish_route(
        &self,
        cache: &DataCache,
        req: &RouteRequest,
        outcome: EngineOutcome,
    ) -> (r: HttpReply)
        ensures
            req.route_name@ == builder_route_name() ==> match outcome {
                EngineOutcome::Settled(_) => r@ == spec_empty_reply(),
                EngineOutcome::Failed => r@ == spec_server_error_reply(),
            },
            req.route_name@ != builder_route_name() ==> match outcome {
                EngineOutcome::Settled(v) => r@ == spec_interpret(v@),
                EngineOutcome::Failed => r@ == spec_server_error_reply(),
            },
    {
        if req.route_name.eq(&builder_route()) {
            match outcome {
                EngineOutcome::Settled(v) => {
                    set_data_cache(cache, v);
                    empty_reply()
                },
                EngineOutcome::Failed => server_error_reply(),
            }
        } else {
            match outcome {
                EngineOutcome::Settled(v) => interpret_handler_value(&v),
                EngineOutcome::Failed => server_error_reply(),
            }
        }
    }

    /// The one-time warm-up request: when a builder route was registered,
    /// it is invoked once, synchronously, before any request is served.
    pub fn initial_cache_request(&self) -> (r: Option<RouteRequest>)
        ensures
            r is Some <==> spec_registered(self.routes@, builder_route_name()),
            r matches Some(req) ==> req.route_name@ == builder_route_name()
                && req.response_channel is None && req.route_args@.len() == 0,
    {
        if self.routes.contains(&builder_route()) {
            Some(rebuild_request())
        } else {
            None
        }
    }
}

/// The directory's entry-script path: an argument naming a script file
/// (ending in `.js`) is used as it stands; any other argument, or the
/// working directory when there is none, gets `setup.js` appended.
pub open spec fn spec_init_path(arg: Option<Seq<char>>, cwd: Seq<char>) -> Seq<char> {
    let dir = match arg {
        Some(a) => a,
        None => cwd,
    };
    if dir.len() >= 3 && dir.subrange(dir.len() - 3, dir.len() as int) == ".js"@ {
        dir
    } else {
        dir + "setup.js"@
    }
}

/// Resolve the entry-script path from the command-line argument and the
/// working directory, both supplied by the shell.
pub fn init_script_path(arg: Option<String>, cwd: String) -> (p: String)
    ensures
        arg matches Some(a) ==> p@ == spec_init_path(Some(a@), cwd@),
        arg is None ==> p@ == spec_init_path(None, cwd@),
{
    let dir = match arg {
        Some(a) => a,
        None => cwd,
    };
    let l = dir.as_str().unicode_len();
    let ends_js = if l >= 3 {
        text_eq(dir.as_str().substring_char(l - 3, l), ".js")
    } else {
        false
    };
    if ends_js {
        dir
    } else {
        dir.concat("setup.js")
    }
}

} // verus!
