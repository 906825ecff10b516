//! Where the session of an account on a chain is kept.

use crate::error::SessionError;
use crate::felt::{hex_digits, lemma_hex_round_trip, Felt};
use crate::model::Session;
use vstd::prelude::*;
use vstd::string::StringExecFns;

verus! {

/// The directory, below the local configuration directory, that holds every
/// account's sessions.
pub open spec fn namespace_text() -> Seq<char> {
    "slot"@
}

/// What every session file's name ends in.
pub open spec fn file_suffix_text() -> Seq<char> {
    "-session.json"@
}

/// The name of the file that holds the session for chain `chain`: the chain
/// id in lower-case hexadecimal after `0x`, then `-session.json`.
pub open spec fn file_name_text(chain: nat) -> Seq<char> {
    seq!['0', 'x'] + hex_digits(chain) + file_suffix_text()
}

/// The place of one session, as the path components below the local
/// configuration directory.
#[derive(Debug, Clone, PartialEq, Eq)]
pub struct SessionLocation {
    /// The directory of all sessions.
    pub namespace: String,
    /// The account's directory.
    pub account: String,
    /// The session file.
    pub file_name: String,
}

/// A location as text.
pub struct LocationText {
    pub namespace: Seq<char>,
    pub account: Seq<char>,
    pub file_name: Seq<char>,
}

impl View for SessionLocation {
    type V = LocationText;

    open spec fn view(&self) -> LocationText {
        LocationText { namespace: self.namespace@, account: self.account@, file_name: self.file_name@ }
    }
}

/// The location of the session of `account` on chain `chain`.
pub open spec fn location_of(account: Seq<char>, chain: nat) -> LocationText {
    LocationText { namespace: namespace_text(), account, file_name: file_name_text(chain) }
}

/// The directory, below the local configuration directory, that holds every
/// account's sessions.
pub fn namespace() -> (r: &'static str)
    ensures
        r@ == namespace_text(),
{
    "slot"
}

/// The name of the session file for a chain.
pub fn session_file_name(chain_id: &Felt) -> (r: String)
    ensures
        r@ == file_name_text(chain_id@),
{
    let mut name = chain_id.to_hex();
    name.append("-session.json");
    name
}

/// The place where the session of `username` on `chain_id` is kept.
pub fn get_file_path(username: &str, chain_id: &Felt) -> (r: SessionLocation)
    ensures
        r@ == location_of(username@, chain_id@),
{
    SessionLocation {
        namespace: String::from_str(namespace()),
        account: String::from_str(username),
        file_name: session_file_name(chain_id),
    }
}

/// The place of the signed-in account's session on `chain_id`. Without a
/// signed-in account there is no such place, and the answer is
/// `IdentityUnavailable`.
pub fn locate(account: Option<&str>, chain_id: &Felt) -> (r: Result<SessionLocation, SessionError>)
    ensures
        match account {
            Some(name) => r matches Ok(place) && place@ == location_of(name@, chain_id@),
            None => r == Err::<SessionLocation, SessionError>(SessionError::IdentityUnavailable),
        },
{
    match account {
        Some(name) => Ok(get_file_path(name, chain_id)),
        None => Err(SessionError::IdentityUnavailable),
    }
}

/// What reading a session file came to.
#[derive(Debug, PartialEq, Eq)]
pub enum ReadOutcome {
    /// There is no file, or it cannot be read.
    Missing,
    /// The file does not hold a session.
    Corrupt,
    /// The file holds this session.
    Found(Session),
}

/// The answer to a request for a stored session, for each outcome of
/// reading its file.
pub open spec fn loaded_result(outcome: ReadOutcome) -> Result<Session, SessionError> {
    match outcome {
        ReadOutcome::Missing => Err(SessionError::SessionNotFound),
        ReadOutcome::Corrupt => Err(SessionError::DeserializationError),
        ReadOutcome::Found(session) => Ok(session),
    }
}

/// The answer to a request for a stored session, once the file has been
/// read: the session as it was found, `SessionNotFound` where there is no
/// file, `DeserializationError` where the file holds no session.
pub fn loaded(outcome: ReadOutcome) -> (r: Result<Session, SessionError>)
    ensures
        r == loaded_result(outcome),
{
    match outcome {
        ReadOutcome::Missing => Err(SessionError::SessionNotFound),
        ReadOutcome::Corrupt => Err(SessionError::DeserializationError),
        ReadOutcome::Found(session) => Ok(session),
    }
}

/// The answer to a request to store a session, once the file system has
/// answered: `PersistenceWriteFailed` where the file was not written.
pub fn written(done: bool) -> (r: Result<(), SessionError>)
    ensures
        r == if done {
            Ok::<(), SessionError>(())
        } else {
            Err::<(), SessionError>(SessionError::PersistenceWriteFailed)
        },
{
    if done {
        Ok(())
    } else {
        Err(SessionError::PersistenceWriteFailed)
    }
}

/// Two chains share a file name only if they are the same chain.
pub proof fn lemma_file_name_identifies_chain(a: nat, b: nat)
    requires
        file_name_text(a) == file_name_text(b),
    ensures
        a == b,
{
    let suffix = file_suffix_text();
    let ha = hex_digits(a);
    let hb = hex_digits(b);
    let na = file_name_text(a);
    let nb = file_name_text(b);
    assert(na.len() == 2 + ha.len() + suffix.len());
    assert(ha =~= na.subrange(2, 2 + ha.len() as int));
    assert(hb =~= nb.subrange(2, 2 + hb.len() as int));
    lemma_hex_round_trip(a);
    lemma_hex_round_trip(b);
}

/// Two identity keys are kept at the same place only if they are the same
/// key: the same account and the same chain.
pub proof fn lemma_location_identifies_key(
    account_a: Seq<char>,
    chain_a: nat,
    account_b: Seq<char>,
    chain_b: nat,
)
    requires
        location_of(account_a, chain_a) == location_of(account_b, chain_b),
    ensures
        account_a == account_b,
        chain_a == chain_b,
{
    lemma_file_name_identifies_chain(chain_a, chain_b);
}

} // verus!
