//! The payloads of the user service and their JSON form.
//!
//! A payload becomes a JSON document and a document becomes a payload in verified
//! code. Between a document and its text stands `serde_json`, which is trusted.

use crate::json::empty_object;
use crate::json::is_object;
use crate::json::json_model;
use crate::json::json_parse;
use crate::json::json_render;
use crate::json::member;
use crate::json::parse;
use crate::json::render;
use crate::json::set_member;
use crate::json::text_of;
use crate::json::text_value;
use crate::json::unsigned_of;
use crate::json::unsigned_value;
use crate::json::Json;
use vstd::prelude::*;

verus! {

/// Why a body could not be read as the payload that a handler expects.
#[derive(Clone, Copy, Debug, PartialEq, Eq, Structural)]
pub enum DecodeError {
    /// The body is not JSON text.
    MalformedBody,
    /// The document is an object that lacks a member of the payload.
    MissingField,
    /// The document is no object, or a member holds a value of another type.
    TypeMismatch,
}

impl DecodeError {
    /// The name under which the error is reported to a client.
    pub open spec fn label(self) -> Seq<char> {
        match self {
            DecodeError::MalformedBody => "MalformedBody"@,
            DecodeError::MissingField => "MissingField"@,
            DecodeError::TypeMismatch => "TypeMismatch"@,
        }
    }

    /// The name under which the error is reported to a client.
    pub fn name(self) -> (name: &'static str)
        ensures
            name@ == self.label(),
    {
        match self {
            DecodeError::MalformedBody => "MalformedBody",
            DecodeError::MissingField => "MissingField",
            DecodeError::TypeMismatch => "TypeMismatch",
        }
    }
}

/// A document could not be written as text.
#[derive(Clone, Copy, Debug, PartialEq, Eq, Structural)]
pub struct EncodingFault;

/// The model of a [`CreateUser`].
pub struct CreateUserView {
    pub username: Seq<char>,
}

/// What a client sends to have a user created.
#[derive(Clone, Debug, PartialEq, Eq)]
pub struct CreateUser {
    pub username: String,
}

impl View for CreateUser {
    type V = CreateUserView;

    open spec fn view(&self) -> CreateUserView {
        CreateUserView { username: self.username@ }
    }
}

/// The model of a [`User`].
pub struct UserView {
    pub id: u64,
    pub username: Seq<char>,
}

/// A user, as the service reports it.
#[derive(Clone, Debug, PartialEq, Eq)]
pub struct User {
    pub id: u64,
    pub username: String,
}

impl View for User {
    type V = UserView;

    open spec fn view(&self) -> UserView {
        UserView { id: self.id, username: self.username@ }
    }
}

/// The string that an object holds under a key.
pub open spec fn text_member(document: Json, key: Seq<char>) -> Result<Seq<char>, DecodeError> {
    match document {
        Json::Object(members) => if !members.contains_key(key) {
            Err(DecodeError::MissingField)
        } else {
            match members[key] {
                Json::Text(content) => Ok(content),
                _ => Err(DecodeError::TypeMismatch),
            }
        },
        _ => Err(DecodeError::TypeMismatch),
    }
}

/// The unsigned integer that an object holds under a key.
pub open spec fn unsigned_member(document: Json, key: Seq<char>) -> Result<u64, DecodeError> {
    match document {
        Json::Object(members) => if !members.contains_key(key) {
            Err(DecodeError::MissingField)
        } else {
            match members[key] {
                Json::Unsigned(number) => Ok(number),
                _ => Err(DecodeError::TypeMismatch),
            }
        },
        _ => Err(DecodeError::TypeMismatch),
    }
}

/// The request payload that a document stands for. Members other than `username` do not count.
pub open spec fn create_user_of_json(document: Json) -> Result<CreateUserView, DecodeError> {
    match text_member(document, "username"@) {
        Ok(username) => Ok(CreateUserView { username }),
        Err(error) => Err(error),
    }
}

/// The user that a document stands for. Members other than `id` and `username` do not
/// count; of two errors, the one about `id` is reported.
pub open spec fn user_of_json(document: Json) -> Result<UserView, DecodeError> {
    match unsigned_member(document, "id"@) {
        Err(error) => Err(error),
        Ok(id) => match text_member(document, "username"@) {
            Err(error) => Err(error),
            Ok(username) => Ok(UserView { id, username }),
        },
    }
}

/// The document that stands for a user: an object with the members `id` and `username`.
pub open spec fn json_of_user(user: UserView) -> Json {
    Json::Object(
        Map::<Seq<char>, Json>::empty().insert("id"@, Json::Unsigned(user.id)).insert(
            "username"@,
            Json::Text(user.username),
        ),
    )
}

/// The request payload that a JSON text stands for.
pub open spec fn create_user_of_text(text: Seq<u8>) -> Result<CreateUserView, DecodeError> {
    match json_parse(text) {
        None => Err(DecodeError::MalformedBody),
        Some(document) => create_user_of_json(document),
    }
}

/// The user that a JSON text stands for.
pub open spec fn user_of_text(text: Seq<u8>) -> Result<UserView, DecodeError> {
    match json_parse(text) {
        None => Err(DecodeError::MalformedBody),
        Some(document) => user_of_json(document),
    }
}

/// Reads the string that a document holds under a key.
pub fn text_field(document: &serde_json::Value, key: &str) -> (field: Result<String, DecodeError>)
    ensures
        match field {
            Ok(content) => text_member(json_model(*document), key@) == Ok::<
                Seq<char>,
                DecodeError,
            >(content@),
            Err(error) => text_member(json_model(*document), key@) == Err::<
                Seq<char>,
                DecodeError,
            >(error),
        },
{
    if !is_object(document) {
        return Err(DecodeError::TypeMismatch);
    }
    match member(document, key) {
        None => Err(DecodeError::MissingField),
        Some(inner) => match text_of(inner) {
            None => Err(DecodeError::TypeMismatch),
            Some(content) => Ok(content.to_owned()),
        },
    }
}

/// Reads the unsigned integer that a document holds under a key.
pub fn unsigned_field(document: &serde_json::Value, key: &str) -> (field: Result<u64, DecodeError>)
    ensures
        field == unsigned_member(json_model(*document), key@),
{
    if !is_object(document) {
        return Err(DecodeError::TypeMismatch);
    }
    match member(document, key) {
        None => Err(DecodeError::MissingField),
        Some(inner) => match unsigned_of(inner) {
            None => Err(DecodeError::TypeMismatch),
            Some(number) => Ok(number),
        },
    }
}

impl CreateUser {
    /// Reads the payload from a document.
    pub fn from_document(document: &serde_json::Value) -> (decoded: Result<CreateUser, DecodeError>)
        ensures
            match decoded {
                Ok(payload) => create_user_of_json(json_model(*document)) == Ok::<
                    CreateUserView,
                    DecodeError,
                >(payload@),
                Err(error) => create_user_of_json(json_model(*document)) == Err::<
                    CreateUserView,
                    DecodeError,
                >(error),
            },
    {
        match text_field(document, "username") {
            Ok(username) => Ok(CreateUser { username }),
            Err(error) => Err(error),
        }
    }
}

impl User {
    /// Reads a user from a document.
    pub fn from_document(document: &serde_json::Value) -> (decoded: Result<User, DecodeError>)
        ensures
            match decoded {
                Ok(user) => user_of_json(json_model(*document)) == Ok::<UserView, DecodeError>(
                    user@,
                ),
                Err(error) => user_of_json(json_model(*document)) == Err::<UserView, DecodeError>(
                    error,
                ),
            },
    {
        match unsigned_field(document, "id") {
            Err(error) => Err(error),
            Ok(id) => match text_field(document, "username") {
                Err(error) => Err(error),
                Ok(username) => Ok(User { id, username }),
            },
        }
    }

    /// The document that stands for the user.
    pub fn to_document(&self) -> (document: serde_json::Value)
        ensures
            json_model(document) == json_of_user(self@),
    {
        let mut document = empty_object();
        set_member(&mut document, "id", unsigned_value(self.id));
        set_member(&mut document, "username", text_value(self.username.clone()));
        document
    }
}

/// Reads the payload of a request for a new user from JSON text.
pub fn decode_create_user(body: &[u8]) -> (decoded: Result<CreateUser, DecodeError>)
    ensures
        match decoded {
            Ok(payload) => create_user_of_text(body@) == Ok::<CreateUserView, DecodeError>(
                payload@,
            ),
            Err(error) => create_user_of_text(body@) == Err::<CreateUserView, DecodeError>(error),
        },
{
    match parse(body) {
        Err(_) => Err(DecodeError::MalformedBody),
        Ok(document) => CreateUser::from_document(&document),
    }
}

/// Reads a user from JSON text.
pub fn decode_user(body: &[u8]) -> (decoded: Result<User, DecodeError>)
    ensures
        match decoded {
            Ok(user) => user_of_text(body@) == Ok::<UserView, DecodeError>(user@),
            Err(error) => user_of_text(body@) == Err::<UserView, DecodeError>(error),
        },
{
    match parse(body) {
        Err(_) => Err(DecodeError::MalformedBody),
        Ok(document) => User::from_document(&document),
    }
}

/// Writes a document as text.
pub fn write_document(document: &serde_json::Value) -> (written: Result<Vec<u8>, EncodingFault>)
    ensures
        match written {
            Ok(text) => json_render(json_model(*document)) == Some(text@),
            Err(_) => json_render(json_model(*document)) is None,
        },
{
    match render(document) {
        Ok(text) => Ok(text),
        Err(_) => Err(EncodingFault),
    }
}

/// Writes a user as JSON text.
pub fn encode_user(user: &User) -> (encoded: Result<Vec<u8>, EncodingFault>)
    ensures
        match encoded {
            Ok(text) => json_render(json_of_user(user@)) == Some(text@),
            Err(_) => json_render(json_of_user(user@)) is None,
        },
{
    let document = user.to_document();
    write_document(&document)
}

/// A user is read back from the document that stands for it, whatever its name
/// holds; and so it is from any text that denotes that document.
pub proof fn lemma_user_round_trip(user: UserView, text: Seq<u8>)
    ensures
        user_of_json(json_of_user(user)) == Ok::<UserView, DecodeError>(user),
        json_parse(text) == Some(json_of_user(user)) ==> user_of_text(text) == Ok::<
            UserView,
            DecodeError,
        >(user),
{
    reveal_strlit("id");
    reveal_strlit("username");
    assert("id"@.len() != "username"@.len());
}

} // verus!
