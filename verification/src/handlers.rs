use vstd::prelude::*;

verus! {

/// The body of an HTTP answer.
pub enum Body<T> {
    /// No body.
    Empty,
    /// A plain-text body.
    Text(String),
    /// A value sent as JSON.
    Json(T),
}

/// An HTTP answer: its status and its body.
pub struct Reply<T> {
    pub status: u16,
    pub body: Body<T>,
}

impl<T> Reply<T> {
    /// Whether the status is a success (2xx).
    pub fn is_success(&self) -> (ok: bool)
        ensures
            ok == (200 <= self.status < 300),
    {
        200 <= self.status && self.status < 300
    }
}

/// The answer to a health check: 200 with the text `OK`.
pub fn health_check() -> (reply: Reply<()>)
    ensures
        reply.status == 200,
        reply.body matches Body::Text(t) && t@ == "OK"@,
{
    Reply { status: 200, body: Body::Text(String::from_str("OK")) }
}

/// The answer to a subscription, given what storing it gave: the stored
/// subscription as JSON with 200, or 500 with no body where storing failed.
pub fn subscribe_reply<T, E>(stored: Result<T, E>) -> (reply: Reply<T>)
    ensures
        match stored {
            Ok(s) => reply.status == 200 && reply.body == Body::<T>::Json(s),
            Err(_) => reply.status == 500 && reply.body is Empty,
        },
{
    match stored {
        Ok(s) => Reply { status: 200, body: Body::Json(s) },
        Err(_) => Reply { status: 500, body: Body::Empty },
    }
}

/// The answer to a query for a subscription, given what the query gave: the
/// subscription found as JSON with 200, 404 with no body where none matched,
/// or 500 with the error's text where the query failed.
pub fn subscriptions_reply<T>(found: Result<Option<T>, String>) -> (reply: Reply<T>)
    ensures
        match found {
            Ok(Some(s)) => reply.status == 200 && reply.body == Body::<T>::Json(s),
            Ok(None) => reply.status == 404 && reply.body is Empty,
            Err(e) => reply.status == 500 && reply.body == Body::<T>::Text(e),
        },
{
    match found {
        Ok(Some(s)) => Reply { status: 200, body: Body::Json(s) },
        Ok(None) => Reply { status: 404, body: Body::Empty },
        Err(e) => Reply { status: 500, body: Body::Text(e) },
    }
}

} // verus!
