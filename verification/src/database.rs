//! The persisted account store: a single table of players behind SQLite.
//! What the store answers depends on the file on disk, so the calls into it
//! promise nothing of the data; everything decided from an answer stands in
//! a verified function with a contract for every value of it.

use vstd::prelude::*;
use crate::error::HubError;
use crate::player::{bcrypt_verify_result, Player};

verus! {

/// Handle on the player table: where it lives and whether setup succeeded.
#[derive(Debug)]
pub struct Database {
    path: String,
    is_setup: bool,
}

/// Create the players table if it is missing.
///
/// Relies on `rusqlite::Connection::open` and `Connection::execute`; the
/// outcome depends on the file on disk, so nothing is promised.
#[verifier::external_body]
fn db_create_table(path: &String) -> (r: Result<(), rusqlite::Error>) {
    let db = rusqlite::Connection::open(path)?;
    db.execute(
        "CREATE TABLE if not exists players (
            id INTEGER PRIMARY KEY AUTOINCREMENT,
            uuid VARCHAR UNIQUE,
            name VARCHAR UNIQUE,
            password VARCHAR,
            email VARCHAR UNIQUE
        )",
        (),
    )?;
    Ok(())
}

/// Fetch the first row whose name matches, as plain text columns
/// (identity, name, digest, email).
///
/// Relies on `rusqlite::Connection::open`, `Connection::prepare`,
/// `Statement::query`, `Rows::next` and `Row::get`; the answer depends on
/// the file on disk, so nothing is promised of it.
#[verifier::external_body]
fn db_select_player(path: &String, user_name: &str) -> (r: Result<
    Option<(String, String, String, String)>,
    rusqlite::Error,
>) {
    let db = rusqlite::Connection::open(path)?;
    let mut stmt = db.prepare("SELECT uuid, name, password, email FROM players WHERE name LIKE (?1)")?;
    let mut rows = stmt.query((user_name,))?;
    match rows.next()? {
        None => Ok(None),
        Some(row) => Ok(Some((row.get(0)?, row.get(1)?, row.get(2)?, row.get(3)?))),
    }
}

/// Insert a player row; answers how many rows changed.
///
/// Relies on `rusqlite::Connection::open`, `Connection::prepare` and
/// `Statement::execute`; the outcome depends on the file on disk (the name
/// may already be stored), so nothing is promised of it.
#[verifier::external_body]
fn db_insert_player(
    path: &String,
    id_text: &String,
    name: &String,
    digest: &String,
    email: &String,
) -> (r: Result<usize, rusqlite::Error>) {
    let db = rusqlite::Connection::open(path)?;
    let mut stmt = db.prepare(
        "INSERT INTO players
            (uuid, name, password, email) VALUES
            (?1, ?2, ?3, ?4)",
    )?;
    let n = stmt.execute((id_text, name, digest, email))?;
    Ok(n)
}

/// The canonical hyphenated text of an identity, as the store holds it:
/// a function of the value alone.
pub uninterp spec fn uuid_text_of(id: u128) -> Seq<char>;

/// The canonical text of an identity, for storage.
///
/// Relies on the hyphenated display form of `uuid::Uuid`: deterministic in
/// the value.
#[verifier::external_body]
fn uuid_text(id: u128) -> (r: String)
    ensures
        r@ == uuid_text_of(id),
{
    uuid::Uuid::from_u128(id).to_string()
}

/// Read a stored identity back from its text.
///
/// Relies on `uuid::Uuid::parse_str`: it accepts the hyphenated form the
/// display form writes, and gives back the value it was written from.
#[verifier::external_body]
fn uuid_parse(s: &str) -> (r: Option<u128>)
    ensures
        forall|id: u128| s@ == uuid_text_of(id) ==> r == Some(id),
{
    match uuid::Uuid::parse_str(s) {
        Ok(u) => Some(u.as_u128()),
        Err(_) => None,
    }
}

impl Database {
    /// The file the store lives in.
    pub closed spec fn store_path(&self) -> Seq<char> {
        self.path@
    }

    /// Whether the schema setup succeeded when this handle was made; a
    /// handle that is not ready answers every call with an error.
    pub closed spec fn ready(&self) -> bool {
        self.is_setup
    }

    /// Open the store at its default path and try to set it up. The handle
    /// is ready exactly when the setup call succeeded; on failure it is
    /// still returned, not ready, and panics nowhere.
    pub fn new() -> (r: Self)
        ensures
            r.store_path() == "playtak_data.db"@,
    {
        let path = String::from_str("playtak_data.db");
        match Database::set_up(path.clone()) {
            Err(_) => Database { path, is_setup: false },
            Ok(_) => Database { path, is_setup: true },
        }
    }

    /// Create the schema at the given path.
    pub fn set_up(path: String) -> (r: Result<(), HubError>) {
        match db_create_table(&path) {
            Ok(_) => Ok(()),
            Err(e) => Err(HubError::from(e)),
        }
    }

    /// Rebuild the account a fetched row (identity text, name, digest,
    /// email) describes, for every row the store can answer: the fields
    /// carry over as stored, the record is a persisted account bound to no
    /// connection, and a canonically written identity reads back as the
    /// value it was written from. A row whose identity text is unreadable
    /// is refused.
    pub fn load_account(row: (String, String, String, String)) -> (r: Result<Player, HubError>)
        ensures
            (match r {
                Ok(p) => p@.name == row.1@ && p@.password == row.2@ && p@.email == row.3@
                    && p@.client_id is None && !p@.is_guest && !p@.is_mod,
                Err(e) => e is System,
            }),
            forall|id: u128|
                row.0@ == uuid_text_of(id) ==> (r matches Ok(p) && p@.id == id),
    {
        let (id_text, name, digest, email) = row;
        match uuid_parse(id_text.as_str()) {
            Some(id) => Ok(Player::existing(id, name, digest, email)),
            None => Err(HubError::System(String::from_str("stored identity unreadable"))),
        }
    }

    /// Look an account up by name. A handle that is not ready refuses; a
    /// record that comes back is always a persisted account: no guest, no
    /// moderator, bound to no connection.
    pub fn get_user(&self, user_name: &str) -> (r: Result<Player, HubError>)
        ensures
            !self.ready() ==> (r matches Err(e) && e is System),
            r matches Ok(p) ==> p@.client_id is None && !p@.is_guest && !p@.is_mod,
    {
        if !self.is_setup {
            return Err(HubError::System(String::from_str("database not yet set up")));
        }
        match db_select_player(&self.path, user_name) {
            Err(e) => Err(HubError::from(e)),
            Ok(None) => Err(HubError::System(String::from_str("could not find player"))),
            Ok(Some(row)) => Database::load_account(row),
        }
    }

    /// Insert the account row: the identity's canonical text, the name,
    /// the credential digest and the email. Only a digest that verifies
    /// against the player's password is accepted here, so the plaintext
    /// never reaches the store.
    fn commit_account(&self, player: &Player, digest: &String) -> (r: Result<bool, HubError>)
        requires
            bcrypt_verify_result(player@.password, digest@) == Some(true),
    {
        let id_text = uuid_text(player.id);
        match db_insert_player(&self.path, &id_text, &player.name, digest, &player.email) {
            Ok(n) => Ok(n > 0),
            Err(e) => Err(HubError::from(e)),
        }
    }

    /// Hash the player's password and persist the account; answers whether
    /// a row was written. A handle that is not ready refuses before
    /// touching the store; a hashing failure refuses before it too; what
    /// the store then receives is only the digest (see `commit_account`).
    pub fn write_player(&self, player: &Player) -> (r: Result<bool, HubError>)
        ensures
            !self.ready() ==> (r matches Err(e) && e is System),
    {
        if !self.is_setup {
            return Err(HubError::System(String::from_str("database not yet set up")));
        }
        match Player::hash_password(player.password.clone()) {
            Err(_) => Err(HubError::System(String::from_str("error hashing password"))),
            Ok(digest) => self.commit_account(player, &digest),
        }
    }
}

} // verus!
