use dispatch_core::codec::decode_user;
use dispatch_core::codec::CreateUser;
use dispatch_core::codec::User;
use dispatch_core::dispatch::answer;
use dispatch_core::dispatch::dispatch;
use dispatch_core::dispatch::internal_error;
use dispatch_core::dispatch::json_response;
use dispatch_core::dispatch::not_found;
use dispatch_core::dispatch::rejection;
use dispatch_core::dispatch::text_response;
use dispatch_core::dispatch::Handler;
use dispatch_core::dispatch::JsonHandler;
use dispatch_core::dispatch::TextHandler;
use dispatch_core::codec::DecodeError;
use dispatch_core::message::Headers;
use dispatch_core::message::Request;
use dispatch_core::message::Response;
use dispatch_core::method::Method;
use dispatch_core::router::DuplicatePolicy;
use dispatch_core::router::Router;
use dispatch_core::service::create_app;
use dispatch_core::service::create_user;
use dispatch_core::service::root;
use dispatch_core::service::service_with;
use dispatch_core::service::CreateUserHandler;
use dispatch_core::service::RootHandler;
use dispatch_core::service::USER_ID;
use dispatch_core::status::Status;
use std::cell::Cell;

struct CountingText<'a> {
    calls: &'a Cell<u32>,
    text: &'a str,
}

impl<'a> TextHandler for CountingText<'a> {
    fn call(&self) -> String {
        self.calls.set(self.calls.get() + 1);
        self.text.to_string()
    }
}

struct CountingJson<'a> {
    calls: &'a Cell<u32>,
    status: Status,
    id: u64,
}

impl<'a> JsonHandler for CountingJson<'a> {
    fn call(&self, input: CreateUser) -> (Status, User) {
        self.calls.set(self.calls.get() + 1);
        (self.status, User { id: self.id, username: input.username })
    }
}

fn post_users(body: &[u8]) -> Request {
    let mut request = Request::new(Method::Post, "/users", body.to_vec());
    request.headers.append("Content-Type", "application/json");
    request
}

#[test]
fn should_return_string() {
    let req = Request::new(Method::Get, "/", Vec::new());
    let res = dispatch(&create_app(), &req);
    let body: String = String::from_utf8(res.body.to_vec()).unwrap();
    assert_eq!(body, "Hello, World!");
}

#[test]
fn should_return_samedata_from_post() {
    let req = post_users(
        br#"{
                        "username": "CHOI SIYOUNG"
                    }"#,
    );
    let res = dispatch(&create_app(), &req);
    let user: User = decode_user(&res.body).expect("COULD NOT CONVERT!");
    assert_eq!(
        user,
        User {
            id: 1337,
            username: "CHOI SIYOUNG".to_string(),
        }
    );
}

#[test]
fn root_answers_whatever_the_body_and_headers() {
    let app = create_app();
    let bodies: [&[u8]; 4] = [b"", b"ignored", br#"{"username": "a"}"#, &[0xff, 0x00]];
    for body in bodies {
        let mut request = Request::new(Method::Get, "/", body.to_vec());
        let plain = dispatch(&app, &request);
        request.headers.append("Content-Type", "application/json");
        request.headers.append("Accept", "image/png");
        request.headers.append("X-Anything", "");
        let with_headers = dispatch(&app, &request);
        for response in [plain, with_headers] {
            assert_eq!(response.status, Status::Success);
            assert_eq!(response.status.code(), 200);
            assert_eq!(response.body, b"Hello, World!".to_vec());
            assert!(response.headers.fields.is_empty());
            assert_eq!(response.headers.get("content-type"), None);
        }
    }
}

#[test]
fn post_users_creates_the_user() {
    let response = dispatch(&create_app(), &post_users(br#"{"username": "CHOI SIYOUNG"}"#));
    assert_eq!(response.status, Status::Created);
    assert_eq!(response.status.code(), 201);
    assert_eq!(response.headers.get("Content-Type"), Some("application/json"));
    assert_eq!(response.headers.fields.len(), 1);
    assert_eq!(response.body, br#"{"id":1337,"username":"CHOI SIYOUNG"}"#.to_vec());
    let sent: serde_json::Value = serde_json::from_slice(&response.body).unwrap();
    let expected: serde_json::Value =
        serde_json::from_str(r#"{"id": 1337, "username": "CHOI SIYOUNG"}"#).unwrap();
    assert_eq!(sent, expected);
}

#[test]
fn post_users_needs_no_content_type() {
    let request = Request::new(Method::Post, "/users", br#"{"username": "a"}"#.to_vec());
    let response = dispatch(&create_app(), &request);
    assert_eq!(response.status, Status::Created);
    assert_eq!(decode_user(&response.body), Ok(User { id: 1337, username: "a".to_string() }));
}

#[test]
fn post_users_echoes_any_name() {
    let app = create_app();
    for name in ["", "최시영", "quote \" and \\ and \n"] {
        let body = serde_json::to_vec(&serde_json::Value::Object(
            [("username".to_string(), serde_json::Value::String(name.to_string()))]
                .into_iter()
                .collect(),
        ))
        .unwrap();
        let response = dispatch(&app, &post_users(&body));
        assert_eq!(response.status, Status::Created);
        assert_eq!(
            decode_user(&response.body),
            Ok(User { id: USER_ID, username: name.to_string() })
        );
    }
}

#[test]
fn undecodable_body_is_refused_without_calling_the_handler() {
    let texts = Cell::new(0);
    let creates = Cell::new(0);
    let app = service_with(
        CountingText { calls: &texts, text: "hi" },
        CountingJson { calls: &creates, status: Status::Created, id: 1 },
    );
    let cases: [(&[u8], &[u8]); 6] = [
        (b"not json", br#"{"error":"MalformedBody"}"#),
        (b"", br#"{"error":"MalformedBody"}"#),
        (br#"{"username": "a""#, br#"{"error":"MalformedBody"}"#),
        (b"{}", br#"{"error":"MissingField"}"#),
        (br#"{"name": "a"}"#, br#"{"error":"MissingField"}"#),
        (br#"{"username": 7}"#, br#"{"error":"TypeMismatch"}"#),
    ];
    for (body, expected) in cases {
        let response = dispatch(&app, &post_users(body));
        assert_eq!(response.status, Status::BadRequest);
        assert_eq!(response.status.code(), 400);
        assert_eq!(response.headers.get("content-type"), Some("application/json"));
        assert_eq!(response.body, expected.to_vec());
    }
    assert_eq!(creates.get(), 0);
    assert_eq!(texts.get(), 0);
}

#[test]
fn handler_is_called_once_for_each_request_it_answers() {
    let texts = Cell::new(0);
    let creates = Cell::new(0);
    let app = service_with(
        CountingText { calls: &texts, text: "counted" },
        CountingJson { calls: &creates, status: Status::Success, id: 9 },
    );
    let greeting = dispatch(&app, &Request::new(Method::Get, "/", Vec::new()));
    assert_eq!(greeting.status, Status::Success);
    assert_eq!(greeting.body, b"counted".to_vec());
    assert_eq!((texts.get(), creates.get()), (1, 0));
    let created = dispatch(&app, &post_users(br#"{"username": "a"}"#));
    assert_eq!(created.status, Status::Success);
    assert_eq!(created.body, br#"{"id":9,"username":"a"}"#.to_vec());
    assert_eq!(created.headers.get("Content-Type"), Some("application/json"));
    assert_eq!((texts.get(), creates.get()), (1, 1));
    let missing = dispatch(&app, &Request::new(Method::Get, "/nowhere", Vec::new()));
    assert_eq!(missing.status, Status::NotFound);
    assert_eq!((texts.get(), creates.get()), (1, 1));
}

#[test]
fn same_request_twice_gets_the_same_response() {
    let app = create_app();
    let request = post_users(br#"{"username": "CHOI SIYOUNG"}"#);
    let first = dispatch(&app, &request);
    let second = dispatch(&app, &request);
    assert_eq!(first, second);
    let first_user = decode_user(&first.body).unwrap();
    let second_user = decode_user(&second.body).unwrap();
    assert_eq!(first_user.id, second_user.id);
    assert_eq!(first_user.username, second_user.username);
    let refused = post_users(b"{");
    assert_eq!(dispatch(&app, &refused), dispatch(&app, &refused));
    let greeting = Request::new(Method::Get, "/", Vec::new());
    assert_eq!(dispatch(&app, &greeting), dispatch(&app, &greeting));
}

#[test]
fn unbound_requests_are_not_found() {
    let app = create_app();
    let requests = [
        Request::new(Method::Post, "/", Vec::new()),
        Request::new(Method::Get, "/users", Vec::new()),
        Request::new(Method::Put, "/users", br#"{"username": "a"}"#.to_vec()),
        Request::new(Method::Get, "/users/", Vec::new()),
        Request::new(Method::Get, "", Vec::new()),
        Request::new(Method::Get, "/missing", Vec::new()),
    ];
    for request in requests {
        let response = dispatch(&app, &request);
        assert_eq!(response.status, Status::NotFound);
        assert_eq!(response.status.code(), 404);
        assert!(response.body.is_empty());
        assert!(response.headers.fields.is_empty());
    }
}

#[test]
fn dispatch_follows_the_last_binding_of_an_overwriting_table() {
    let mut router: Router<Handler<RootHandler, CreateUserHandler>> =
        Router::with_policy(DuplicatePolicy::Overwrite);
    router.register(Method::Post, "/users", Handler::Text(RootHandler)).unwrap();
    let request = post_users(br#"{"username": "a"}"#);
    assert_eq!(dispatch(&router, &request).body, b"Hello, World!".to_vec());
    router.register(Method::Post, "/users", Handler::Json(CreateUserHandler)).unwrap();
    assert_eq!(dispatch(&router, &request).body, br#"{"id":1337,"username":"a"}"#.to_vec());
}

#[test]
fn service_table_has_two_routes() {
    let mut app = create_app();
    assert_eq!(app.len(), 2);
    assert!(app.resolve(Method::Get, "/").is_ok());
    assert!(app.resolve(Method::Post, "/users").is_ok());
    assert!(app.resolve(Method::Get, "/users").is_err());
    assert!(app.register(Method::Get, "/", Handler::Text(RootHandler)).is_err());
    assert_eq!(app.len(), 2);
}

#[test]
fn handlers_of_the_service() {
    assert_eq!(root(), "Hello, World!");
    assert_eq!(RootHandler.call(), "Hello, World!");
    let created = create_user(CreateUser { username: "CHOI SIYOUNG".to_string() });
    assert_eq!(created, (Status::Created, User { id: 1337, username: "CHOI SIYOUNG".to_string() }));
    let again = CreateUserHandler.call(CreateUser { username: String::new() });
    assert_eq!(again, (Status::Created, User { id: 1337, username: String::new() }));
    assert_eq!(USER_ID, 1337);
}

#[test]
fn fixed_responses() {
    let missing: Response = not_found();
    assert_eq!(missing.status, Status::NotFound);
    assert!(missing.body.is_empty());
    assert!(missing.headers.fields.is_empty());
    let fault = internal_error();
    assert_eq!(fault.status, Status::InternalServerError);
    assert_eq!(fault.status.code(), 500);
    assert!(fault.body.is_empty());
    assert!(fault.headers.fields.is_empty());
    let text = text_response("héllo");
    assert_eq!(text.status, Status::Success);
    assert_eq!(text.body, "héllo".as_bytes().to_vec());
    assert!(text.headers.fields.is_empty());
}

#[test]
fn json_responses() {
    let document: serde_json::Value = serde_json::from_str(r#"{"k": [1, "two"]}"#).unwrap();
    let response = json_response(Status::Created, &document);
    assert_eq!(response.status, Status::Created);
    assert_eq!(response.headers.get("content-type"), Some("application/json"));
    assert_eq!(response.body, br#"{"k":[1,"two"]}"#.to_vec());
    let refused = rejection(DecodeError::TypeMismatch);
    assert_eq!(refused.status, Status::BadRequest);
    assert_eq!(refused.headers.get("Content-Type"), Some("application/json"));
    assert_eq!(refused.body, br#"{"error":"TypeMismatch"}"#.to_vec());
    assert_eq!(rejection(DecodeError::MalformedBody).body, br#"{"error":"MalformedBody"}"#.to_vec());
    assert_eq!(rejection(DecodeError::MissingField).body, br#"{"error":"MissingField"}"#.to_vec());
}

#[test]
fn answer_reads_the_method_from_its_token() {
    let app = create_app();
    let greeting = answer(&app, "GET", "/", Headers::new(), Vec::new());
    assert_eq!(greeting.status, Status::Success);
    assert_eq!(greeting.body, b"Hello, World!".to_vec());
    let mut headers = Headers::new();
    headers.append("content-type", "application/json");
    let created = answer(&app, "POST", "/users", headers, br#"{"username": "a"}"#.to_vec());
    assert_eq!(created.status, Status::Created);
    assert_eq!(created.body, br#"{"id":1337,"username":"a"}"#.to_vec());
    for token in ["get", "Get", "TRACE", "", "GET /"] {
        let response = answer(&app, token, "/", Headers::new(), Vec::new());
        assert_eq!(response.status, Status::NotFound);
        assert!(response.body.is_empty());
    }
    let unbound = answer(&app, "DELETE", "/users", Headers::new(), Vec::new());
    assert_eq!(unbound.status, Status::NotFound);
}

fn shareable<T: Send + Sync>(_value: &T) -> bool {
    true
}

#[test]
fn service_table_can_be_shared_between_tasks() {
    let app = create_app();
    assert!(shareable(&app));
    let shared = std::sync::Arc::new(app);
    let other = shared.clone();
    let request = Request::new(Method::Get, "/", Vec::new());
    assert_eq!(dispatch(&shared, &request), dispatch(&other, &request));
}
