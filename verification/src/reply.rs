//! Replies to HTTP requests.

use vstd::prelude::*;

use crate::auth::{auth_message, AuthError};
use crate::validation::{validation_message, ValidationError};

verus! {

/// A reply: an HTTP status and a text.
#[derive(Debug)]
pub struct Reply {
    pub status: u16,
    pub body: String,
}

impl Reply {
    pub fn new(status: u16, body: &str) -> (res: Self)
        ensures
            res.status == status,
            res.body@ == body@,
    {
        Reply { status, body: String::from_str(body) }
    }

    /// A reply without a text.
    pub fn empty(status: u16) -> (res: Self)
        ensures
            res.status == status,
            res.body@ == Seq::<char>::empty(),
    {
        Reply { status, body: String::new() }
    }
}

/// Whether an HTTP status reports success.
pub fn is_success(status: u16) -> (res: bool)
    ensures
        res == (200 <= status < 300),
{
    200 <= status && status < 300
}

/// The reply to a caller that is refused.
pub fn auth_error_response(error: &AuthError) -> (res: Reply)
    ensures
        res.status == 401,
        res.body@ == auth_message(error@),
{
    Reply { status: 401, body: error.message() }
}

/// The reply to a message that is refused.
pub fn validation_error_response(error: &ValidationError) -> (res: Reply)
    ensures
        res.status == 400,
        res.body@ == validation_message(error@),
{
    Reply { status: 400, body: error.message() }
}

} // verus!
