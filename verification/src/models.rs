use vstd::prelude::*;

verus! {

/// A stored subscription. The identifier is the 128-bit value of its UUID and
/// the two times are microseconds since the Unix epoch, in UTC.
#[derive(Debug, PartialEq, Eq)]
pub struct Subscription {
    pub id: u128,
    pub email: String,
    pub name: String,
    pub subscribed_at: i64,
    pub updated_at: i64,
}

/// The form of a new subscription, and of a query for one.
#[derive(Debug, PartialEq, Eq)]
pub struct NewSubscription {
    pub email: String,
    pub name: String,
}

} // verus!
