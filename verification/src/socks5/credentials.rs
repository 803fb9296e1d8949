//! The username and password that a session presents or expects.

use vstd::prelude::*;

verus! {

/// A username and a password, both opaque byte strings that are compared
/// byte for byte.
#[derive(Debug, Clone)]
pub struct Credentials {
    pub username: Vec<u8>,
    pub password: Vec<u8>,
}

/// [`Credentials`] as a mathematical value.
pub struct CredentialsView {
    pub username: Seq<u8>,
    pub password: Seq<u8>,
}

impl View for Credentials {
    type V = CredentialsView;

    open spec fn view(&self) -> CredentialsView {
        CredentialsView { username: self.username@, password: self.password@ }
    }
}

/// Whether two byte strings are the same, byte for byte.
pub fn bytes_equal(left: &[u8], right: &[u8]) -> (r: bool)
    ensures
        r == (left@ == right@),
{
    if left.len() != right.len() {
        return false;
    }
    let mut i: usize = 0;
    while i < left.len()
        invariant
            i <= left@.len(),
            left@.len() == right@.len(),
            left@.take(i as int) == right@.take(i as int),
        decreases left@.len() - i,
    {
        if left[i] != right[i] {
            return false;
        }
        i = i + 1;
    }
    proof {
        assert(left@.take(i as int) =~= left@);
        assert(right@.take(i as int) =~= right@);
    }
    true
}

impl Credentials {
    /// Credentials made of this username and this password.
    pub fn new(username: Vec<u8>, password: Vec<u8>) -> (r: Self)
        ensures
            r@ == (CredentialsView { username: username@, password: password@ }),
    {
        Credentials { username, password }
    }

    /// Whether `username` and `password` are exactly these credentials.
    pub fn matches(&self, username: &[u8], password: &[u8]) -> (r: bool)
        ensures
            r == (username@ == self@.username && password@ == self@.password),
    {
        let same_name = bytes_equal(username, self.username.as_slice());
        let same_password = bytes_equal(password, self.password.as_slice());
        same_name && same_password
    }
}

} // verus!
