use vstd::prelude::*;
use secrecy::{ExposeSecret, SecretString};

verus! {

/// A string kept behind `secrecy::SecretString`, so that it is zeroed when
/// dropped and never printed by `Debug`. Verus does not read the field: it
/// refuses a declaration of `secrecy::SecretBox`, whose parameter is bounded
/// by an outside trait.
#[verifier::external_body]
pub struct Secret {
    inner: SecretString,
}

/// The text that a `Secret` keeps hidden.
pub uninterp spec fn secret_text(s: Secret) -> Seq<char>;

impl View for Secret {
    type V = Seq<char>;

    open spec fn view(&self) -> Seq<char> {
        secret_text(*self)
    }
}

/// Wraps `secrecy::SecretString::from(String)`: the secret holds exactly the
/// characters of `s` (the source boxes the string as it is).
#[verifier::external_body]
fn wrap_secret(s: String) -> (r: Secret)
    ensures
        secret_text(r) == s@,
{
    Secret { inner: SecretString::from(s) }
}

/// Wraps `secrecy::ExposeSecret::expose_secret`: it hands out the hidden
/// string itself.
#[verifier::external_body]
fn expose_inner(s: &Secret) -> (r: &str)
    ensures
        r@ == secret_text(*s),
{
    s.inner.expose_secret()
}

impl Secret {
    /// Hides `s`.
    pub fn new(s: String) -> (r: Secret)
        ensures
            r@ == s@,
    {
        wrap_secret(s)
    }

    /// The hidden text.
    pub fn expose_secret(&self) -> (r: &str)
        ensures
            r@ == self@,
    {
        expose_inner(self)
    }
}

} // verus!
