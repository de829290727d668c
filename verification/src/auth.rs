//! Relay-engine authentication: one shared credential per boot.
//!
//! The relay engine asks, for each allocation request, which key a
//! username stands for.  This deployment knows a single user: the one
//! whose name and password the process generated at startup.  Exactly
//! that name is admitted, and it maps to the key the engine itself
//! derives from name, realm and password.

use vstd::prelude::*;

verus! {

/// The authentication key that a username, realm and password
/// determine, as the relay engine derives it.
pub uninterp spec fn auth_key_of(user: Seq<char>, realm: Seq<char>, pass: Seq<char>) -> Seq<u8>;

/// Relies on `turn::auth::generate_auth_key`: the MD5 digest of
/// `"user:realm:pass"`, a function of its three arguments alone.
#[verifier::external_body]
fn compute_auth_key(user: &String, realm: &String, pass: &String) -> (r: Vec<u8>)
    ensures
        r@ == auth_key_of(user@, realm@, pass@),
{
    turn::auth::generate_auth_key(user.as_str(), realm.as_str(), pass.as_str())
}

/// Why an authentication request was refused.
#[derive(Clone, Copy, Debug, PartialEq, Eq, Structural)]
pub enum AuthError {
    /// The username is not the one this deployment admits.
    InvalidUser,
}

/// Copies a key so each request gets its own.
fn clone_bytes(v: &Vec<u8>) -> (r: Vec<u8>)
    ensures
        r@ == v@,
{
    let mut r: Vec<u8> = Vec::new();
    let mut i: usize = 0;
    while i < v.len()
        invariant
            i <= v@.len(),
            r@ == v@.take(i as int),
        decreases v@.len() - i,
    {
        r.push(v[i]);
        proof {
            assert(r@ =~= v@.take(i + 1 as int));
        }
        i = i + 1;
    }
    proof {
        assert(r@ =~= v@);
    }
    r
}

/// The one credential this deployment admits: its username, and the
/// key the relay engine's derivation gives that username.
pub struct Authenticator {
    pub user: String,
    pub key: Vec<u8>,
}

impl Authenticator {
    /// Sets up the credential for this boot's generated username and
    /// password under the given realm.
    pub fn new(user: String, realm: &String, pass: &String) -> (r: Authenticator)
        ensures
            r.user@ == user@,
            r.key@ == auth_key_of(user@, realm@, pass@),
    {
        let key = compute_auth_key(&user, realm, pass);
        Authenticator { user, key }
    }

    /// Answers an authentication request: exactly the configured
    /// username is admitted, and it maps to the configured key; any
    /// other name is refused.
    pub fn auth_handle(&self, username: &String) -> (r: Result<Vec<u8>, AuthError>)
        ensures
            r is Ok <==> username@ == self.user@,
            r matches Ok(k) ==> k@ == self.key@,
            r matches Err(e) ==> e == AuthError::InvalidUser,
    {
        if *username == self.user {
            Result::Ok(clone_bytes(&self.key))
        } else {
            Result::Err(AuthError::InvalidUser)
        }
    }
}

} // verus!
