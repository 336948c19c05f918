//! The dispatcher: from a request to the response of the handler bound to it.

use crate::codec::create_user_of_text;
use crate::codec::decode_create_user;
use crate::codec::json_of_user;
use crate::codec::write_document;
use crate::codec::CreateUser;
use crate::codec::CreateUserView;
use crate::codec::DecodeError;
use crate::codec::User;
use crate::json::empty_object;
use crate::json::json_model;
use crate::json::json_parse;
use crate::json::json_render;
use crate::json::set_member;
use crate::json::text_value;
use crate::json::Json;
use crate::message::Field;
use crate::message::Headers;
use crate::message::Request;
use crate::message::RequestView;
use crate::message::Response;
use crate::message::ResponseView;
use crate::method::Method;
use crate::router::RouteKey;
use crate::router::Router;
use crate::status::Status;
use vstd::prelude::*;
use vstd::slice::slice_to_vec;
use vstd::utf8::encode_utf8;

verus! {

/// Application logic that takes nothing and returns text, which is sent as it is.
pub trait TextHandler {
    fn call(&self) -> String;
}

/// Application logic that takes the decoded payload of a request and returns a
/// status and a user, which is sent as JSON under that status.
pub trait JsonHandler {
    fn call(&self, input: CreateUser) -> (Status, User);
}

/// What a route is bound to: a handler of one of the two kinds.
pub enum Handler<T, J> {
    Text(T),
    Json(J),
}

/// The response to a request that no route answers to.
pub open spec fn not_found_reply() -> ResponseView {
    ResponseView { status: Status::NotFound, headers: Seq::empty(), body: Seq::empty() }
}

/// The response when a document could not be written. It says nothing of the cause.
pub open spec fn internal_error_reply() -> ResponseView {
    ResponseView { status: Status::InternalServerError, headers: Seq::empty(), body: Seq::empty() }
}

/// The response of a text handler: the text in UTF-8, with no content type.
pub open spec fn text_reply(text: Seq<char>) -> ResponseView {
    ResponseView { status: Status::Success, headers: Seq::empty(), body: encode_utf8(text) }
}

/// The header fields of a response that carries JSON.
pub open spec fn json_fields() -> Seq<Field> {
    seq![("Content-Type"@, "application/json"@)]
}

/// The response that carries a document under a status.
pub open spec fn json_reply(status: Status, document: Json) -> ResponseView {
    match json_render(document) {
        Some(body) => ResponseView { status, headers: json_fields(), body },
        None => internal_error_reply(),
    }
}

/// The document that tells a client why its body was refused.
pub open spec fn json_of_error(error: DecodeError) -> Json {
    Json::Object(Map::<Seq<char>, Json>::empty().insert("error"@, Json::Text(error.label())))
}

/// The response to a body that could not be decoded. Its status is fixed; the document
/// that names the error is its body where that document can be written.
pub open spec fn rejection_reply(error: DecodeError) -> ResponseView {
    match json_render(json_of_error(error)) {
        Some(body) => ResponseView { status: Status::BadRequest, headers: json_fields(), body },
        None => ResponseView {
            status: Status::BadRequest,
            headers: Seq::empty(),
            body: Seq::empty(),
        },
    }
}

/// Whether a response is one that the table gives to a request.
///
/// A request that no route answers to gets the not-found response. A text handler's
/// return is sent as it is. A JSON handler is called only with a payload that the body
/// decodes to; a body that does not decode gets the rejection, which depends on the
/// body alone.
pub open spec fn dispatched<T: TextHandler, J: JsonHandler>(
    table: Map<RouteKey, Handler<T, J>>,
    request: RequestView,
    response: ResponseView,
) -> bool {
    let key = (request.method, request.path);
    if !table.contains_key(key) {
        response == not_found_reply()
    } else {
        match table[key] {
            Handler::Text(handler) => exists|text: String|
                {
                    &&& #[trigger] call_ensures(T::call, (&handler,), text)
                    &&& response == text_reply(text@)
                },
            Handler::Json(handler) => match create_user_of_text(request.body) {
                Err(error) => response == rejection_reply(error),
                Ok(payload) => exists|input: CreateUser, output: (Status, User)|
                    {
                        &&& input@ == payload
                        &&& #[trigger] call_ensures(J::call, (&handler, input), output)
                        &&& response == json_reply(output.0, json_of_user(output.1@))
                    },
            },
        }
    }
}

/// The response to a request that no route answers to.
pub fn not_found() -> (response: Response)
    ensures
        response@ == not_found_reply(),
{
    Response { status: Status::NotFound, headers: Headers::new(), body: Vec::new() }
}

/// The response when a document could not be written.
pub fn internal_error() -> (response: Response)
    ensures
        response@ == internal_error_reply(),
{
    Response { status: Status::InternalServerError, headers: Headers::new(), body: Vec::new() }
}

/// The response that carries a text as it is.
pub fn text_response(text: &str) -> (response: Response)
    ensures
        response@ == text_reply(text@),
{
    Response {
        status: Status::Success,
        headers: Headers::new(),
        body: slice_to_vec(text.as_bytes()),
    }
}

fn json_headers() -> (headers: Headers)
    ensures
        headers@ == json_fields(),
{
    let mut headers = Headers::new();
    headers.append("Content-Type", "application/json");
    assert(headers@ =~= json_fields());
    headers
}

/// The response that carries a document under a status, or the internal error
/// where the document cannot be written.
pub fn json_response(status: Status, document: &serde_json::Value) -> (response: Response)
    ensures
        response@ == json_reply(status, json_model(*document)),
{
    match write_document(document) {
        Ok(body) => Response { status, headers: json_headers(), body },
        Err(_) => internal_error(),
    }
}

/// The response to a body that could not be decoded.
pub fn rejection(error: DecodeError) -> (response: Response)
    ensures
        response@ == rejection_reply(error),
{
    let mut document = empty_object();
    set_member(&mut document, "error", text_value(error.name().to_owned()));
    match write_document(&document) {
        Ok(body) => Response { status: Status::BadRequest, headers: json_headers(), body },
        Err(_) => Response {
            status: Status::BadRequest,
            headers: Headers::new(),
            body: Vec::new(),
        },
    }
}

/// Answers a request: finds the route, decodes the body where the handler takes a
/// payload, calls the handler and encodes what it returns.
pub fn dispatch<T: TextHandler, J: JsonHandler>(
    router: &Router<Handler<T, J>>,
    request: &Request,
) -> (response: Response)
    ensures
        dispatched(router@, request@, response@),
{
    match router.resolve(request.method, request.path.as_str()) {
        Err(_) => not_found(),
        Ok(handler) => match handler {
            Handler::Text(handler) => {
                let text = handler.call();
                text_response(text.as_str())
            },
            Handler::Json(handler) => match decode_create_user(request.body.as_slice()) {
                Err(error) => rejection(error),
                Ok(input) => {
                    let output = handler.call(input);
                    let document = output.1.to_document();
                    json_response(output.0, &document)
                },
            },
        },
    }
}

/// Answers a request whose method is still a token. A token that names no method
/// is bound to no route, so it gets the not-found response.
pub fn answer<T: TextHandler, J: JsonHandler>(
    router: &Router<Handler<T, J>>,
    method: &str,
    path: &str,
    headers: Headers,
    body: Vec<u8>,
) -> (response: Response)
    ensures
        match Method::of_token(method@) {
            Some(method) => dispatched(
                router@,
                RequestView { method, path: path@, headers: headers@, body: body@ },
                response@,
            ),
            None => response@ == not_found_reply(),
        },
{
    match Method::parse(method) {
        Some(method) => {
            let request = Request { method, path: path.to_owned(), headers, body };
            dispatch(router, &request)
        },
        None => not_found(),
    }
}

/// A request for a JSON handler whose body does not decode is refused with status
/// 400, and the response is fixed by the body alone: the handler has no part in it.
/// A body that is not JSON text is malformed; a JSON object without the member
/// `username` lacks a field.
pub proof fn lemma_undecodable_body<T: TextHandler, J: JsonHandler>(
    table: Map<RouteKey, Handler<T, J>>,
    request: RequestView,
    response: ResponseView,
    error: DecodeError,
)
    requires
        table.contains_key((request.method, request.path)),
        table[(request.method, request.path)] is Json,
        create_user_of_text(request.body) == Err::<CreateUserView, DecodeError>(error),
        dispatched(table, request, response),
    ensures
        response == rejection_reply(error),
        response.status == Status::BadRequest,
        json_parse(request.body) is None ==> error == DecodeError::MalformedBody,
        json_parse(request.body) matches Some(Json::Object(members)) && !members.contains_key(
            "username"@,
        ) ==> error == DecodeError::MissingField,
{
}

} // verus!
