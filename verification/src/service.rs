//! The user service: its two handlers and the table that binds them.

use crate::codec::create_user_of_text;
use crate::codec::json_of_user;
use crate::codec::CreateUser;
use crate::codec::User;
use crate::codec::UserView;
use crate::dispatch::dispatched;
use crate::dispatch::json_reply;
use crate::dispatch::not_found_reply;
use crate::dispatch::rejection_reply;
use crate::dispatch::text_reply;
use crate::dispatch::Handler;
use crate::dispatch::JsonHandler;
use crate::dispatch::TextHandler;
use crate::message::RequestView;
use crate::message::ResponseView;
use crate::method::Method;
use crate::router::DuplicatePolicy;
use crate::router::RouteKey;
use crate::router::Router;
use crate::status::Status;
use vstd::prelude::*;

verus! {

/// The identifier that every created user gets.
pub const USER_ID: u64 = 1337;

/// The user that is created for a name.
pub open spec fn created_user(username: Seq<char>) -> UserView {
    UserView { id: USER_ID, username }
}

/// The logic of `GET /`: a fixed greeting.
pub fn root() -> (text: String)
    ensures
        text@ == "Hello, World!"@,
{
    "Hello, World!".to_owned()
}

/// The logic of `POST /users`: the user created for the name that was sent.
pub fn create_user(payload: CreateUser) -> (created: (Status, User))
    ensures
        created.0 == Status::Created,
        created.1@ == created_user(payload@.username),
{
    let user = User { id: USER_ID, username: payload.username };
    (Status::Created, user)
}

/// The handler of `GET /`.
#[derive(Clone, Copy, Debug, PartialEq, Eq, Structural)]
pub struct RootHandler;

impl TextHandler for RootHandler {
    fn call(&self) -> (text: String)
        ensures
            text@ == "Hello, World!"@,
    {
        root()
    }
}

/// The handler of `POST /users`.
#[derive(Clone, Copy, Debug, PartialEq, Eq, Structural)]
pub struct CreateUserHandler;

impl JsonHandler for CreateUserHandler {
    fn call(&self, input: CreateUser) -> (output: (Status, User))
        ensures
            output.0 == Status::Created,
            output.1@ == created_user(input@.username),
    {
        create_user(input)
    }
}

/// Whether a table binds `GET /` to the given text handler, `POST /users` to the given
/// JSON handler, and nothing else.
pub open spec fn binds_service<T, J>(
    table: Map<RouteKey, Handler<T, J>>,
    greet: T,
    create: J,
) -> bool {
    &&& forall|key: RouteKey|
        table.contains_key(key) <==> key == (Method::Get, "/"@) || key == (
            Method::Post,
            "/users"@,
        )
    &&& table[(Method::Get, "/"@)] == Handler::<T, J>::Text(greet)
    &&& table[(Method::Post, "/users"@)] == Handler::<T, J>::Json(create)
}

/// The table of a service with the two routes of the user service and handlers of
/// the caller's own. It rejects a key that is registered twice.
pub fn service_with<T, J>(greet: T, create: J) -> (app: Router<Handler<T, J>>)
    ensures
        binds_service(app@, greet, create),
        app.policy() == DuplicatePolicy::Reject,
{
    let mut app = Router::new();
    let greeting = app.register(Method::Get, "/", Handler::Text(greet));
    assert(greeting is Ok);
    let creation = app.register(Method::Post, "/users", Handler::Json(create));
    assert(creation is Ok);
    app
}

/// The table of the user service. It rejects a key that is registered twice.
pub fn create_app() -> (app: Router<Handler<RootHandler, CreateUserHandler>>)
    ensures
        binds_service(app@, RootHandler, CreateUserHandler),
        app.policy() == DuplicatePolicy::Reject,
{
    service_with(RootHandler, CreateUserHandler)
}

/// The one response that the user service gives to a request.
pub open spec fn service_reply(request: RequestView) -> ResponseView {
    if request.method == Method::Get && request.path == "/"@ {
        text_reply("Hello, World!"@)
    } else if request.method == Method::Post && request.path == "/users"@ {
        match create_user_of_text(request.body) {
            Ok(payload) => json_reply(Status::Created, json_of_user(created_user(payload.username))),
            Err(error) => rejection_reply(error),
        }
    } else {
        not_found_reply()
    }
}

/// What the user service answers is fixed by the request: `GET /` gets the greeting
/// whatever its body and header fields hold; `POST /users` gets the created user
/// where the body decodes and the rejection where it does not; any other request
/// gets the not-found response.
pub proof fn lemma_service_reply(
    table: Map<RouteKey, Handler<RootHandler, CreateUserHandler>>,
    request: RequestView,
    response: ResponseView,
)
    requires
        binds_service(table, RootHandler, CreateUserHandler),
        dispatched(table, request, response),
    ensures
        response == service_reply(request),
{
}

/// The same request, sent twice to the user service, gets the same response twice.
pub proof fn lemma_service_repeats(
    table: Map<RouteKey, Handler<RootHandler, CreateUserHandler>>,
    request: RequestView,
    first: ResponseView,
    second: ResponseView,
)
    requires
        binds_service(table, RootHandler, CreateUserHandler),
        dispatched(table, request, first),
        dispatched(table, request, second),
    ensures
        first == second,
{
    lemma_service_reply(table, request, first);
    lemma_service_reply(table, request, second);
}

} // verus!
