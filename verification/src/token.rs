//! The token refresh exchange: a client sends its refresh token and gets a
//! new access token, or an error that tells what went wrong.

use vstd::prelude::*;

verus! {

/// A request for a new access token.
#[derive(Debug, Clone, PartialEq, Eq)]
pub struct Request {
    pub refresh_token: String,
}

/// The answer to a token request.
pub type Response = Result<ResponseBody, ResponseError>;

/// The tokens handed out on success.
#[derive(Debug, Clone, PartialEq, Eq)]
pub struct ResponseBody {
    pub refresh_token: Option<String>,
    pub access_token: String,
}

/// An error inside the server, with the text that describes it.
#[derive(Debug, Clone, PartialEq, Eq)]
pub struct InternalServerError(pub String);

/// A token that could not be decoded or verified, with the text that
/// describes why.
#[derive(Debug, Clone, PartialEq, Eq)]
pub struct DecodeError(pub String);

/// Why a token request failed.
#[derive(Debug, Clone, PartialEq, Eq)]
pub enum ResponseError {
    InternalError(InternalServerError),
    TokenError(DecodeError),
    TokenNotInStore,
}

impl ResponseError {
    /// The HTTP status that answers the error: 500 for an internal error,
    /// 401 (unauthorized) for a bad token or one that is not in the store.
    pub open spec fn status(self) -> u16 {
        match self {
            ResponseError::InternalError(_) => 500,
            ResponseError::TokenError(_) => 401,
            ResponseError::TokenNotInStore => 401,
        }
    }

    /// The text that describes the error.
    pub open spec fn message_text(self) -> Seq<char> {
        match self {
            ResponseError::InternalError(e) => "internal error: "@ + e.0@,
            ResponseError::TokenError(e) => "token error: "@ + e.0@,
            ResponseError::TokenNotInStore => "token not found in store"@,
        }
    }

    /// The HTTP status code that answers the error.
    pub fn status_code(&self) -> (code: u16)
        ensures
            code == self.status(),
            self matches ResponseError::InternalError(_) ==> code == 500,
            self matches ResponseError::TokenError(_) ==> code == 401,
            self matches ResponseError::TokenNotInStore ==> code == 401,
    {
        match self {
            ResponseError::InternalError(_) => 500,
            ResponseError::TokenError(_) => 401,
            ResponseError::TokenNotInStore => 401,
        }
    }

    /// Writes the text that describes the error.
    pub fn message(&self) -> (m: String)
        ensures
            m@ == self.message_text(),
    {
        match self {
            ResponseError::InternalError(e) => {
                let mut m = "internal error: ".to_owned();
                m.append(e.0.as_str());
                m
            },
            ResponseError::TokenError(e) => {
                let mut m = "token error: ".to_owned();
                m.append(e.0.as_str());
                m
            },
            ResponseError::TokenNotInStore => "token not found in store".to_owned(),
        }
    }
}

impl From<InternalServerError> for ResponseError {
    fn from(e: InternalServerError) -> (r: Self) {
        ResponseError::InternalError(e)
    }
}

impl vstd::std_specs::convert::FromSpecImpl<InternalServerError> for ResponseError {
    open spec fn obeys_from_spec() -> bool {
        true
    }

    open spec fn from_spec(e: InternalServerError) -> Self {
        ResponseError::InternalError(e)
    }
}

impl From<DecodeError> for ResponseError {
    fn from(e: DecodeError) -> (r: Self) {
        ResponseError::TokenError(e)
    }
}

impl vstd::std_specs::convert::FromSpecImpl<DecodeError> for ResponseError {
    open spec fn obeys_from_spec() -> bool {
        true
    }

    open spec fn from_spec(e: DecodeError) -> Self {
        ResponseError::TokenError(e)
    }
}

/// An internal error is answered with 500 (internal server error); a token
/// that cannot be decoded, whatever the reason, and a token that is not in
/// the store are answered with 401 (unauthorized).
pub proof fn lemma_status_of_errors(e: ResponseError)
    ensures
        e matches ResponseError::InternalError(_) ==> e.status() == 500,
        e matches ResponseError::TokenError(_) ==> e.status() == 401,
        e matches ResponseError::TokenNotInStore ==> e.status() == 401,
        e.status() == 401 <==> !(e is InternalError),
{
}

} // verus!
