//! Credential texts.
use vstd::prelude::*;

use crate::crypto::cipher::wipe_text;
use crate::text::owned;

verus! {

/// A credential text.
///
/// Every copy of a password or key passphrase goes through this type, so that
/// one place decides how it is shown and how it is wiped. It has no `Debug` and
/// no `Display`: a secret must not reach a log line or a panic message.
pub struct Secret {
    text: String,
}

impl View for Secret {
    type V = Seq<char>;

    closed spec fn view(&self) -> Seq<char> {
        self.text@
    }
}

impl Secret {
    /// The credential `text`.
    pub fn new(text: String) -> (r: Secret)
        ensures
            r@ == text@,
    {
        Secret { text }
    }

    /// The credential in the clear.
    pub fn as_str(&self) -> (r: &str)
        ensures
            r@ == self@,
    {
        self.text.as_str()
    }

    /// Whether there is no credential.
    pub fn is_empty(&self) -> (r: bool)
        ensures
            r == (self@.len() == 0),
    {
        self.text.as_str().is_empty()
    }

    /// Overwrites the credential. What is left is empty.
    pub fn zeroize(&mut self)
        ensures
            final(self)@.len() == 0,
    {
        wipe_text(&mut self.text);
    }

    /// How a credential is shown where a developer looks: never as it is.
    pub fn debug_text(&self) -> (r: String)
        ensures
            r@ == "<redacted>"@,
    {
        owned("<redacted>")
    }
}

impl Drop for Secret {
    /// A credential is overwritten before its memory is given back.
    fn drop(&mut self)
        opens_invariants none
        no_unwind
    {
        wipe_text(&mut self.text);
    }
}

impl Clone for Secret {
    fn clone(&self) -> (r: Self)
        ensures
            r == *self,
    {
        Secret { text: self.text.clone() }
    }
}

impl Default for Secret {
    fn default() -> (r: Self)
        ensures
            r@ == Seq::<char>::empty(),
    {
        Secret { text: String::new() }
    }
}

impl From<String> for Secret {
    fn from(text: String) -> (r: Self) {
        Secret { text }
    }
}

impl vstd::std_specs::convert::FromSpecImpl<String> for Secret {
    open spec fn obeys_from_spec() -> bool {
        true
    }

    closed spec fn from_spec(text: String) -> Self {
        Secret { text }
    }
}

/// A secret made from a text holds that text.
pub proof fn secret_from_text(text: String)
    ensures
        <Secret as vstd::std_specs::convert::FromSpec<String>>::from_spec(text)@ == text@,
{
}

} // verus!
