//! Where the client keeps its persistent state.

use crate::text::{decimal_text, i64_text, i64_value, lemma_decimal_round_trip};
use vstd::prelude::*;
use vstd::string::StringExecFns;

verus! {

/// Directory that holds one session file per account.
pub const SESSIONS_FOLDER: &'static str = "sessions";

/// Line history of the interactive prompt.
pub const HISTORY_FILE: &'static str = ".auto-shit-history";

/// Configuration file with the connection credentials.
pub const CONFIG_FILE: &'static str = "auto-shit.toml";

/// The name of the session file of account `id`: the identifier in decimal
/// notation.
pub open spec fn session_name(id: i64) -> Seq<char> {
    decimal_text(id as int)
}

/// The path of the session file of account `id`, relative to the working
/// directory.
pub open spec fn session_path(id: i64) -> Seq<char> {
    SESSIONS_FOLDER@ + seq!['/'] + session_name(id)
}

/// Where the session of account `id` is kept.
pub fn session(id: i64) -> (path: String)
    ensures
        path@ == session_path(id),
{
    let mut path = SESSIONS_FOLDER.to_owned();
    path.push('/');
    let name = i64_text(id);
    path.append(name.as_str());
    path
}

/// A session file's name leads back to the account it was written for, and
/// two accounts never share a file.
pub proof fn lemma_session_name_identifies(id: i64, other: i64)
    ensures
        i64_value(session_name(id)) == Some(id),
        session_name(id) == session_name(other) ==> id == other,
        session_path(id) == session_path(other) ==> id == other,
{
    lemma_decimal_round_trip(id as int);
    lemma_decimal_round_trip(other as int);
    if session_path(id) == session_path(other) {
        let prefix = SESSIONS_FOLDER@ + seq!['/'];
        assert(session_path(id).skip(prefix.len() as int) =~= session_name(id));
        assert(session_path(other).skip(prefix.len() as int) =~= session_name(other));
    }
}

} // verus!
