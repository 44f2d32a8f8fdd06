//! Secret bytes, held so that they are wiped when they are dropped and not shown
//! when they are printed.
use secrecy::{ExposeSecret, SecretBox};
use vstd::prelude::*;

verus! {

/// The bytes of a secret, in a `secrecy::SecretBox`, which wipes them when it is
/// dropped and does not print them. That it does so is left unsaid here: only
/// what it holds has a name.
#[verifier::external_body]
#[derive(Debug)]
pub struct SecretBytes {
    boxed: SecretBox<Vec<u8>>,
}

/// What the box holds.
pub uninterp spec fn secret_contents(secret: SecretBytes) -> Seq<u8>;

/// `secrecy::SecretBox::new`: the box holds the bytes that it was made with.
#[verifier::external_body]
fn seal(bytes: Vec<u8>) -> (r: SecretBytes)
    ensures
        secret_contents(r) == bytes@,
{
    SecretBytes { boxed: SecretBox::new(Box::new(bytes)) }
}

/// `secrecy::ExposeSecret::expose_secret` for `secrecy::SecretBox`: it lends out
/// what the box holds.
#[verifier::external_body]
fn expose(secret: &SecretBytes) -> (r: &Vec<u8>)
    ensures
        r@ == secret_contents(*secret),
{
    secret.boxed.expose_secret()
}

impl SecretBytes {
    /// The bytes themselves.
    pub open spec fn view(&self) -> Seq<u8> {
        secret_contents(*self)
    }

    pub fn new(bytes: Vec<u8>) -> (r: SecretBytes)
        ensures
            r@ == bytes@,
    {
        seal(bytes)
    }

    /// Lends the bytes out.
    pub fn expose_secret(&self) -> (r: &Vec<u8>)
        ensures
            r@ == self@,
    {
        expose(self)
    }
}

} // verus!
