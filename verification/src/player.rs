//! Players: the runtime record behind a session, either a persisted account
//! or an ephemeral guest, and the credential primitives it leans on.

use vstd::prelude::*;

verus! {

/// Mathematical shape of a `Player`.
pub struct PlayerV {
    pub id: u128,
    pub name: Seq<char>,
    pub password: Seq<char>,
    pub email: Seq<char>,
    pub is_guest: bool,
    pub is_mod: bool,
    pub client_id: Option<u128>,
}

/// A player record: identity, display name, credential digest (or the raw
/// password for a guest, never persisted), email, flags, and the connection
/// the session is bound to, if any.
#[derive(Debug)]
pub struct Player {
    pub id: u128,
    pub name: String,
    pub password: String,
    pub email: String,
    pub is_guest: bool,
    pub is_mod: bool,
    pub client_id: Option<u128>,
}

impl View for Player {
    type V = PlayerV;

    open spec fn view(&self) -> PlayerV {
        PlayerV {
            id: self.id,
            name: self.name@,
            password: self.password@,
            email: self.email@,
            is_guest: self.is_guest,
            is_mod: self.is_mod,
            client_id: self.client_id,
        }
    }
}

/// What `bcrypt::verify` answers for a password against a digest:
/// `Some(b)` when verification runs and answers `b`, `None` when the digest
/// cannot be read. The answer depends on the two arguments alone.
pub uninterp spec fn bcrypt_verify_result(password: Seq<char>, digest: Seq<char>) -> Option<bool>;

/// Mint a fresh identity.
///
/// Relies on `uuid::Uuid::new_v4`: the value is random, so nothing is
/// promised of it.
#[verifier::external_body]
pub(crate) fn mint_id() -> u128 {
    uuid::Uuid::new_v4().as_u128()
}

impl Player {
    /// Rebuild the record of a persisted account, as loaded from storage:
    /// not a guest, not a moderator, bound to no connection.
    pub fn existing(id: u128, name: String, password: String, email: String) -> (r: Self)
        ensures
            r@ == (PlayerV {
                id,
                name: name@,
                password: password@,
                email: email@,
                is_guest: false,
                is_mod: false,
                client_id: None,
            }),
    {
        Player { id, name, password, email, is_guest: false, is_mod: false, client_id: None }
    }

    /// A brand-new player bound to the connection that created it. The
    /// identity is freshly minted and therefore unspecified.
    pub fn new(name: &str, password: &str, email: &str, client_id: u128, is_guest: bool) -> (r:
        Self)
        ensures
            r@.name == name@,
            r@.password == password@,
            r@.email == email@,
            r@.is_guest == is_guest,
            r@.is_mod == false,
            r@.client_id == Some(client_id),
    {
        Player {
            id: mint_id(),
            name: String::from_str(name),
            password: String::from_str(password),
            email: String::from_str(email),
            is_guest,
            is_mod: false,
            client_id: Some(client_id),
        }
    }

    /// Digest a password for persistence.
    ///
    /// Relies on `bcrypt::hash` with the default cost: on success the digest
    /// verifies against the password it was made from; the salt is random,
    /// so nothing more is promised.
    #[verifier::external_body]
    pub fn hash_password(password: String) -> (r: Result<String, bcrypt::BcryptError>)
        ensures
            r matches Ok(d) ==> bcrypt_verify_result(password@, d@) == Some(true),
    {
        bcrypt::hash(password, bcrypt::DEFAULT_COST)
    }

    /// Check a password against a stored digest.
    ///
    /// Relies on `bcrypt::verify`: the answer is a function of the password
    /// and the digest alone; it errs exactly when the digest is malformed.
    #[verifier::external_body]
    pub fn verify_password(password: String, hash: &str) -> (r: Result<bool, bcrypt::BcryptError>)
        ensures
            (match r {
                Ok(b) => bcrypt_verify_result(password@, hash@) == Some(b),
                Err(_) => bcrypt_verify_result(password@, hash@) is None,
            }),
    {
        bcrypt::verify(password, hash)
    }

    /// Bind this player to a connection.
    pub fn set_client(&mut self, client_id: u128)
        ensures
            final(self)@ == (PlayerV { client_id: Some(client_id), ..old(self)@ }),
    {
        self.client_id = Some(client_id);
    }

    /// The connection this player is bound to, if any.
    pub fn get_client(&self) -> (r: Option<u128>)
        ensures
            r == self@.client_id,
    {
        self.client_id
    }
}

/// The error type of `bcrypt`, carried through opaquely.
#[verifier::external_type_specification]
#[verifier::external_body]
pub struct ExBcryptError(bcrypt::BcryptError);

} // verus!
