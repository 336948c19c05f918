//! The request methods that a route can be bound to.

use crate::text::same_text;
use vstd::prelude::*;

verus! {

/// A request method. The set is closed: a token outside it names no method.
#[derive(Clone, Copy, Debug, PartialEq, Eq, Structural)]
pub enum Method {
    Get,
    Post,
    Put,
    Delete,
    Patch,
    Head,
    Options,
}

impl Method {
    /// The token that stands for the method on the wire.
    pub open spec fn token(self) -> Seq<char> {
        match self {
            Method::Get => "GET"@,
            Method::Post => "POST"@,
            Method::Put => "PUT"@,
            Method::Delete => "DELETE"@,
            Method::Patch => "PATCH"@,
            Method::Head => "HEAD"@,
            Method::Options => "OPTIONS"@,
        }
    }

    /// The method that a token names, letter case included.
    pub open spec fn of_token(token: Seq<char>) -> Option<Method> {
        if token == "GET"@ {
            Some(Method::Get)
        } else if token == "POST"@ {
            Some(Method::Post)
        } else if token == "PUT"@ {
            Some(Method::Put)
        } else if token == "DELETE"@ {
            Some(Method::Delete)
        } else if token == "PATCH"@ {
            Some(Method::Patch)
        } else if token == "HEAD"@ {
            Some(Method::Head)
        } else if token == "OPTIONS"@ {
            Some(Method::Options)
        } else {
            None
        }
    }

    /// The token that stands for the method on the wire. It reads back as the method.
    pub fn name(self) -> (token: &'static str)
        ensures
            token@ == self.token(),
            Method::of_token(token@) == Some(self),
    {
        proof {
            lemma_token_names_its_method(self);
        }
        match self {
            Method::Get => "GET",
            Method::Post => "POST",
            Method::Put => "PUT",
            Method::Delete => "DELETE",
            Method::Patch => "PATCH",
            Method::Head => "HEAD",
            Method::Options => "OPTIONS",
        }
    }

    /// Reads a method from its token. The match is exact: `get` names nothing.
    pub fn parse(token: &str) -> (method: Option<Method>)
        ensures
            method == Method::of_token(token@),
    {
        if same_text(token, "GET") {
            Some(Method::Get)
        } else if same_text(token, "POST") {
            Some(Method::Post)
        } else if same_text(token, "PUT") {
            Some(Method::Put)
        } else if same_text(token, "DELETE") {
            Some(Method::Delete)
        } else if same_text(token, "PATCH") {
            Some(Method::Patch)
        } else if same_text(token, "HEAD") {
            Some(Method::Head)
        } else if same_text(token, "OPTIONS") {
            Some(Method::Options)
        } else {
            None
        }
    }
}

/// Every method is read back from its own token: no two tokens are the same.
pub proof fn lemma_token_names_its_method(method: Method)
    ensures
        Method::of_token(method.token()) == Some(method),
{
    reveal_strlit("GET");
    reveal_strlit("POST");
    reveal_strlit("PUT");
    reveal_strlit("DELETE");
    reveal_strlit("PATCH");
    reveal_strlit("HEAD");
    reveal_strlit("OPTIONS");
    assert("GET"@.len() == 3);
    assert("POST"@.len() == 4);
    assert("PUT"@[0] == 'P');
    assert("DELETE"@.len() == 6);
    assert("PATCH"@.len() == 5);
    assert("HEAD"@[0] == 'H');
    assert("POST"@[0] == 'P');
    assert("OPTIONS"@.len() == 7);
}

} // verus!
