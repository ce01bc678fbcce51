//! Loading the persisted sessions at startup.
//!
//! The caller walks the sessions folder and probes each session file:
//! reads it, connects with it, asks the platform whether it is authorized
//! and who it belongs to. This module decides which files are session files
//! at all, which probes yield a usable client, and what the registry holds
//! once all of them are in. One bad session never keeps another from
//! loading.

use crate::state::{
    format_roster, is_snapshot, listing_of, roster_text, Account, AccountRegistry, AutoShitClient,
};
use crate::text::{chars_of, decimal_text, i64_text, i64_value, parse_i64, usize_text};
use std::sync::Arc;
use vstd::prelude::*;
use vstd::string::StringExecFns;

verus! {

/// The account whose session an entry of the sessions folder holds: the
/// entry is a regular file, and its name is the account's identifier in
/// decimal notation. Anything else in the folder is no session file.
pub open spec fn candidate_of(is_file: bool, name: Seq<char>) -> Option<i64> {
    if is_file {
        i64_value(name)
    } else {
        None
    }
}

/// Decides whether an entry of the sessions folder is a session file, and
/// whose.
pub fn session_candidate(is_file: bool, name: &str) -> (peer_id: Option<i64>)
    ensures
        peer_id == candidate_of(is_file, name@),
{
    if !is_file {
        return None;
    }
    let chars = chars_of(name);
    parse_i64(&chars)
}

/// The step of a probe that the outside world failed at.
#[derive(Debug, Clone, Copy, PartialEq, Eq)]
pub enum ProbeStep {
    /// Reading the session file.
    Load,
    /// Connecting with the session.
    Connect,
    /// Asking whether the session is authorized.
    AuthorizationCheck,
    /// Asking who the session belongs to.
    Identity,
}

/// What probing one session file gave.
#[derive(Debug, Clone, PartialEq, Eq)]
pub enum Probe {
    /// A step failed.
    Failed(ProbeStep),
    /// The platform says the session is not authorized.
    Unauthorized,
    /// The session is authorized, and belongs to this account.
    Identified(Account),
}

/// Why a session was not loaded.
#[derive(Debug, Clone, Copy, PartialEq, Eq)]
pub enum LoadError {
    /// A step of the probe failed.
    ProbeFailed { peer_id: i64, step: ProbeStep },
    /// The session is not authorized.
    NotAuthorized { peer_id: i64 },
    /// The session belongs to another account than its file is named for.
    IdentityMismatch { peer_id: i64, found: i64 },
}

/// The session files of a folder, each with what its probe gave.
pub type Probes = Vec<(i64, Probe)>;

/// The client that a probe yields for the session file of `peer_id`, or why
/// it yields none: the session must be authorized, and must belong to the
/// account that its file is named for.
pub open spec fn accepted(peer_id: i64, probe: Probe) -> Result<AutoShitClient, LoadError> {
    match probe {
        Probe::Failed(step) => Err(LoadError::ProbeFailed { peer_id, step }),
        Probe::Unauthorized => Err(LoadError::NotAuthorized { peer_id }),
        Probe::Identified(me) => if me.id == peer_id {
            Ok(AutoShitClient { me })
        } else {
            Err(LoadError::IdentityMismatch { peer_id, found: me.id })
        },
    }
}

/// The registry after the sessions of `probes` were loaded into `entries`:
/// each accepted client is registered under its account, in the order of
/// the probes.
pub open spec fn loaded(entries: Map<i64, AutoShitClient>, probes: Seq<(i64, Probe)>) -> Map<
    i64,
    AutoShitClient,
>
    decreases probes.len(),
{
    if probes.len() == 0 {
        entries
    } else {
        let before = loaded(entries, probes.drop_last());
        match accepted(probes.last().0, probes.last().1) {
            Ok(client) => before.insert(probes.last().0, client),
            Err(_) => before,
        }
    }
}

/// The sessions of `probes` that were not loaded, in the order of the
/// probes, each with its reason.
pub open spec fn failures(probes: Seq<(i64, Probe)>) -> Seq<LoadError>
    decreases probes.len(),
{
    if probes.len() == 0 {
        Seq::empty()
    } else {
        let before = failures(probes.drop_last());
        match accepted(probes.last().0, probes.last().1) {
            Ok(_) => before,
            Err(error) => before.push(error),
        }
    }
}

/// Decides whether the probe of the session file of `peer_id` yields a
/// usable client.
pub fn accept(peer_id: i64, probe: &Probe) -> (outcome: Result<AutoShitClient, LoadError>)
    ensures
        outcome == accepted(peer_id, *probe),
{
    match probe {
        Probe::Failed(step) => Err(LoadError::ProbeFailed { peer_id, step: *step }),
        Probe::Unauthorized => Err(LoadError::NotAuthorized { peer_id }),
        Probe::Identified(me) => {
            if me.id == peer_id {
                Ok(AutoShitClient { me: me.duplicate() })
            } else {
                Err(LoadError::IdentityMismatch { peer_id, found: me.id })
            }
        },
    }
}

/// Loads the probed sessions into `registry`, and returns the failures for
/// the caller to log. Every probe is looked at, whatever became of the ones
/// before it.
pub fn load_sessions(registry: &mut AccountRegistry, probes: &Probes) -> (failed: Vec<LoadError>)
    requires
        old(registry).wf(),
    ensures
        final(registry).wf(),
        final(registry)@ == loaded(old(registry)@, probes@),
        failed@ == failures(probes@),
{
    let mut failed: Vec<LoadError> = Vec::new();
    let n: usize = probes.len();
    let mut i: usize = 0;
    while i < n
        invariant
            n == probes@.len(),
            i <= n,
            registry.wf(),
            registry@ == loaded(old(registry)@, probes@.take(i as int)),
            failed@ == failures(probes@.take(i as int)),
        decreases n - i,
    {
        proof {
            let upto = probes@.take(i + 1);
            assert(upto.drop_last() =~= probes@.take(i as int));
            assert(upto.last() == probes@[i as int]);
        }
        match accept(probes[i].0, &probes[i].1) {
            Ok(client) => {
                let registered = registry.insert(probes[i].0, Arc::new(client));
                assert(registered is Ok);
            },
            Err(error) => {
                failed.push(error);
            },
        }
        i = i + 1;
    }
    proof {
        assert(probes@.take(n as int) =~= probes@);
    }
    failed
}

/// What the operator is told once the sessions are loaded: how many
/// accounts are logged in, and who they are.
pub open spec fn summary_text(count: nat, roster: Seq<char>) -> Seq<char> {
    decimal_text(count as int) + " telegram accounts are logged in: "@ + roster
}

/// Writes the startup summary of `registry`.
pub fn login_summary(registry: &AccountRegistry) -> (text: String)
    requires
        registry.wf(),
    ensures
        exists|clients: Seq<AutoShitClient>| #[trigger]
            is_snapshot(clients, registry@) && text@ == summary_text(
                registry@.dom().len(),
                roster_text(listing_of(clients)),
            ),
{
    let mut text = usize_text(registry.len());
    text.append(" telegram accounts are logged in: ");
    let list = registry.list();
    let roster = format_roster(&list);
    text.append(roster.as_str());
    text
}

/// Whether the probe of a session file yields no client.
pub open spec fn is_invalid(probe: (i64, Probe)) -> bool {
    accepted(probe.0, probe.1) is Err
}

/// Whether the sessions that load are of accounts that `entries` does not
/// hold yet, and no two of them of the same account.
pub open spec fn loads_new_accounts(entries: Map<i64, AutoShitClient>, probes: Seq<(i64, Probe)>) -> bool {
    &&& forall|i: int|
        0 <= i < probes.len() && !is_invalid(#[trigger] probes[i]) ==> !entries.dom().contains(
            probes[i].0,
        )
    &&& forall|i: int, j: int|
        0 <= i < j < probes.len() && !is_invalid(#[trigger] probes[i]) && !is_invalid(
            #[trigger] probes[j],
        ) ==> probes[i].0 != probes[j].0
}

/// After loading, the registry holds what it held before and the accounts
/// of the valid sessions, and nothing else.
pub proof fn lemma_loaded_accounts(entries: Map<i64, AutoShitClient>, probes: Seq<(i64, Probe)>)
    ensures
        forall|id: i64| #[trigger]
            loaded(entries, probes).dom().contains(id) <==> entries.dom().contains(id) || exists|
                i: int,
            |
                0 <= i < probes.len() && !is_invalid(#[trigger] probes[i]) && probes[i].0 == id,
    decreases probes.len(),
{
    if probes.len() > 0 {
        let rest = probes.drop_last();
        let last = probes.last();
        let n = probes.len() - 1;
        lemma_loaded_accounts(entries, rest);
        assert(probes[n] == last);
        assert forall|id: i64| #[trigger]
            loaded(entries, probes).dom().contains(id) implies entries.dom().contains(id) || exists|
                i: int,
            |
                0 <= i < probes.len() && !is_invalid(#[trigger] probes[i]) && probes[i].0 == id by {
            if !is_invalid(last) && id == last.0 {
                assert(!is_invalid(probes[n]) && probes[n].0 == id);
            } else {
                assert(loaded(entries, rest).dom().contains(id));
                if !entries.dom().contains(id) {
                    let i = choose|i: int|
                        0 <= i < rest.len() && !is_invalid(#[trigger] rest[i]) && rest[i].0 == id;
                    assert(probes[i] == rest[i]);
                    assert(!is_invalid(probes[i]) && probes[i].0 == id);
                }
            }
        }
        assert forall|id: i64|
            entries.dom().contains(id) || (exists|i: int|
                0 <= i < probes.len() && !is_invalid(#[trigger] probes[i]) && probes[i].0
                    == id) implies #[trigger] loaded(entries, probes).dom().contains(id) by {
            if entries.dom().contains(id) {
                assert(loaded(entries, rest).dom().contains(id));
            } else {
                let i = choose|i: int|
                    0 <= i < probes.len() && !is_invalid(#[trigger] probes[i]) && probes[i].0
                        == id;
                if i < n {
                    assert(rest[i] == probes[i]);
                    assert(!is_invalid(rest[i]) && rest[i].0 == id);
                    assert(loaded(entries, rest).dom().contains(id));
                }
            }
        }
    }
}

/// Of N probed sessions of which M are invalid, exactly N − M are loaded
/// and exactly M failures are returned, where the valid sessions are of
/// different accounts that were not registered before.
pub proof fn lemma_load_counts(entries: Map<i64, AutoShitClient>, probes: Seq<(i64, Probe)>)
    requires
        entries.dom().finite(),
        loads_new_accounts(entries, probes),
    ensures
        loaded(entries, probes).dom().finite(),
        failures(probes).len() == probes.filter(|probe: (i64, Probe)| is_invalid(probe)).len(),
        failures(probes).len() <= probes.len(),
        loaded(entries, probes).dom().len() == entries.dom().len() + probes.len() - failures(
            probes,
        ).len(),
    decreases probes.len(),
{
    reveal(Seq::filter);
    if probes.len() > 0 {
        let rest = probes.drop_last();
        let last = probes.last();
        assert(loads_new_accounts(entries, rest)) by {
            assert forall|i: int| 0 <= i < rest.len() implies rest[i] == probes[i] by {}
        }
        lemma_load_counts(entries, rest);
        lemma_loaded_accounts(entries, rest);
        if !is_invalid(last) {
            assert(probes[probes.len() - 1] == last);
            assert(!loaded(entries, rest).dom().contains(last.0)) by {
                if loaded(entries, rest).dom().contains(last.0) {
                    let i = choose|i: int|
                        0 <= i < rest.len() && !is_invalid(#[trigger] rest[i]) && rest[i].0
                            == last.0;
                    assert(probes[i] == rest[i]);
                }
            }
        }
    }
}

/// What a failed step of a probe is called.
pub open spec fn step_text(step: ProbeStep) -> Seq<char> {
    match step {
        ProbeStep::Load => "Failed to load session"@,
        ProbeStep::Connect => "Failed to setup telegram client"@,
        ProbeStep::AuthorizationCheck => "Failed to check if authorized"@,
        ProbeStep::Identity => "Failed to call get me"@,
    }
}

/// What is logged for a session that was not loaded: the reason, and the
/// account that the session file is named for.
pub open spec fn load_error_text(error: LoadError) -> Seq<char> {
    match error {
        LoadError::ProbeFailed { peer_id, step } => step_text(step) + " of "@ + decimal_text(
            peer_id as int,
        ),
        LoadError::NotAuthorized { peer_id } => decimal_text(peer_id as int)
            + " is not authorized"@,
        LoadError::IdentityMismatch { peer_id, found } => "session identity mismatch: "@
            + decimal_text(peer_id as int) + " belongs to "@ + decimal_text(found as int),
    }
}

impl ProbeStep {
    /// What the failure of this step is called.
    pub fn message(&self) -> (text: &'static str)
        ensures
            text@ == step_text(*self),
    {
        match self {
            ProbeStep::Load => "Failed to load session",
            ProbeStep::Connect => "Failed to setup telegram client",
            ProbeStep::AuthorizationCheck => "Failed to check if authorized",
            ProbeStep::Identity => "Failed to call get me",
        }
    }
}

impl LoadError {
    /// What went wrong, for the log.
    pub fn message(&self) -> (text: String)
        ensures
            text@ == load_error_text(*self),
    {
        match self {
            LoadError::ProbeFailed { peer_id, step } => {
                let mut text = step.message().to_owned();
                text.append(" of ");
                let id = i64_text(*peer_id);
                text.append(id.as_str());
                text
            },
            LoadError::NotAuthorized { peer_id } => {
                let mut text = i64_text(*peer_id);
                text.append(" is not authorized");
                text
            },
            LoadError::IdentityMismatch { peer_id, found } => {
                let mut text = "session identity mismatch: ".to_owned();
                let id = i64_text(*peer_id);
                text.append(id.as_str());
                text.append(" belongs to ");
                let other = i64_text(*found);
                text.append(other.as_str());
                text
            },
        }
    }
}

} // verus!
