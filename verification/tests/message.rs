use dispatch_core::message::Headers;
use dispatch_core::message::Request;
use dispatch_core::method::Method;
use dispatch_core::status::Status;
use dispatch_core::text::lower;
use dispatch_core::text::same_text;
use dispatch_core::text::same_text_ignoring_case;

#[test]
fn method_is_read_from_its_exact_token() {
    assert_eq!(Method::parse("GET"), Some(Method::Get));
    assert_eq!(Method::parse("POST"), Some(Method::Post));
    assert_eq!(Method::parse("PUT"), Some(Method::Put));
    assert_eq!(Method::parse("DELETE"), Some(Method::Delete));
    assert_eq!(Method::parse("PATCH"), Some(Method::Patch));
    assert_eq!(Method::parse("HEAD"), Some(Method::Head));
    assert_eq!(Method::parse("OPTIONS"), Some(Method::Options));
    assert_eq!(Method::parse("get"), None);
    assert_eq!(Method::parse("Post"), None);
    assert_eq!(Method::parse("GET "), None);
    assert_eq!(Method::parse(""), None);
    assert_eq!(Method::parse("TRACE"), None);
}

#[test]
fn method_name_reads_back() {
    let all = [
        Method::Get,
        Method::Post,
        Method::Put,
        Method::Delete,
        Method::Patch,
        Method::Head,
        Method::Options,
    ];
    for method in all {
        assert_eq!(Method::parse(method.name()), Some(method));
    }
    assert_eq!(Method::Get.name(), "GET");
    assert_eq!(Method::Options.name(), "OPTIONS");
}

#[test]
fn status_codes() {
    assert_eq!(Status::Success.code(), 200);
    assert_eq!(Status::Created.code(), 201);
    assert_eq!(Status::BadRequest.code(), 400);
    assert_eq!(Status::NotFound.code(), 404);
    assert_eq!(Status::InternalServerError.code(), 500);
    assert_eq!(Status::from_code(200), Some(Status::Success));
    assert_eq!(Status::from_code(201), Some(Status::Created));
    assert_eq!(Status::from_code(400), Some(Status::BadRequest));
    assert_eq!(Status::from_code(404), Some(Status::NotFound));
    assert_eq!(Status::from_code(500), Some(Status::InternalServerError));
    assert_eq!(Status::from_code(204), None);
    assert_eq!(Status::from_code(0), None);
}

#[test]
fn header_names_ignore_letter_case() {
    let mut headers = Headers::new();
    assert_eq!(headers.get("Content-Type"), None);
    headers.append("Content-Type", "application/json");
    headers.append("X-Trace", "abc");
    assert_eq!(headers.get("Content-Type"), Some("application/json"));
    assert_eq!(headers.get("content-type"), Some("application/json"));
    assert_eq!(headers.get("CONTENT-TYPE"), Some("application/json"));
    assert_eq!(headers.get("x-trace"), Some("abc"));
    assert_eq!(headers.get("Content-Typ"), None);
    assert_eq!(headers.get("Content_Type"), None);
    assert_eq!(headers.get("Accept"), None);
}

#[test]
fn first_header_of_a_name_is_found() {
    let mut headers = Headers::new();
    headers.append("Accept", "text/plain");
    headers.append("accept", "application/json");
    assert_eq!(headers.get("ACCEPT"), Some("text/plain"));
    assert_eq!(headers.fields.len(), 2);
    assert_eq!(headers.fields[1].name, "accept");
    assert_eq!(headers.fields[1].value, "application/json");
}

#[test]
fn new_request_has_no_headers() {
    let request = Request::new(Method::Post, "/users", vec![1, 2, 3]);
    assert_eq!(request.method, Method::Post);
    assert_eq!(request.path, "/users");
    assert_eq!(request.body, vec![1, 2, 3]);
    assert!(request.headers.fields.is_empty());
}

#[test]
fn text_comparison() {
    assert!(same_text("", ""));
    assert!(same_text("/users", "/users"));
    assert!(!same_text("/users", "/Users"));
    assert!(!same_text("/users", "/user"));
    assert!(!same_text("a", "b"));
    assert!(same_text("최시영", "최시영"));
    assert!(!same_text("최시영", "최시"));
}

#[test]
fn text_comparison_ignoring_case() {
    assert!(same_text_ignoring_case("Content-Type", "content-type"));
    assert!(same_text_ignoring_case("", ""));
    assert!(same_text_ignoring_case("AZaz09", "azAZ09"));
    assert!(!same_text_ignoring_case("Content-Type", "Content-Typ"));
    assert!(!same_text_ignoring_case("a", "b"));
    assert!(!same_text_ignoring_case("@", "`"));
    assert!(!same_text_ignoring_case("[", "{"));
}

#[test]
fn lower_folds_only_ascii_capitals() {
    assert_eq!(lower(b'A'), b'a');
    assert_eq!(lower(b'Z'), b'z');
    assert_eq!(lower(b'a'), b'a');
    assert_eq!(lower(b'@'), b'@');
    assert_eq!(lower(b'['), b'[');
    assert_eq!(lower(0), 0);
    assert_eq!(lower(255), 255);
    assert_eq!(lower(0xC1), 0xC1);
}
