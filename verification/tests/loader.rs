use auto_shit::loader::{
    accept, load_sessions, login_summary, session_candidate, LoadError, Probe, ProbeStep,
};
use auto_shit::paths::session;
use auto_shit::state::{Account, AccountRegistry, AutoShitClient};

fn account(id: i64) -> Account {
    Account { id, name: format!("user{id}"), username: None }
}

#[test]
fn only_regular_files_named_by_an_integer_are_session_files() {
    assert_eq!(session_candidate(true, "4711"), Some(4711));
    assert_eq!(session_candidate(true, "-4711"), Some(-4711));
    assert_eq!(session_candidate(true, "+5"), Some(5));
    assert_eq!(session_candidate(false, "4711"), None);
    assert_eq!(session_candidate(true, "4711.session"), None);
    assert_eq!(session_candidate(true, "sessions"), None);
    assert_eq!(session_candidate(true, ""), None);
    assert_eq!(session_candidate(true, "9223372036854775808"), None);
}

#[test]
fn a_saved_session_is_found_again() {
    for id in [0, 1, -1, 4711, i64::MAX, i64::MIN] {
        let path = session(id);
        let name = path.strip_prefix("sessions/").unwrap();
        assert_eq!(session_candidate(true, name), Some(id));
    }
}

#[test]
fn accept_checks_authorization_and_identity() {
    assert_eq!(accept(5, &Probe::Identified(account(5))), Ok(AutoShitClient { me: account(5) }));
    assert_eq!(
        accept(5, &Probe::Identified(account(6))),
        Err(LoadError::IdentityMismatch { peer_id: 5, found: 6 })
    );
    assert_eq!(accept(5, &Probe::Unauthorized), Err(LoadError::NotAuthorized { peer_id: 5 }));
    for step in [ProbeStep::Load, ProbeStep::Connect, ProbeStep::AuthorizationCheck, ProbeStep::Identity] {
        assert_eq!(accept(5, &Probe::Failed(step)), Err(LoadError::ProbeFailed { peer_id: 5, step }));
    }
}

#[test]
fn bad_sessions_do_not_keep_the_others_from_loading() {
    let probes = vec![
        (1, Probe::Identified(account(1))),
        (2, Probe::Failed(ProbeStep::Load)),
        (3, Probe::Identified(account(3))),
        (4, Probe::Unauthorized),
        (5, Probe::Identified(account(55))),
        (6, Probe::Identified(account(6))),
        (7, Probe::Failed(ProbeStep::Connect)),
    ];
    let mut registry = AccountRegistry::new();
    let failed = load_sessions(&mut registry, &probes);
    assert_eq!(
        failed,
        vec![
            LoadError::ProbeFailed { peer_id: 2, step: ProbeStep::Load },
            LoadError::NotAuthorized { peer_id: 4 },
            LoadError::IdentityMismatch { peer_id: 5, found: 55 },
            LoadError::ProbeFailed { peer_id: 7, step: ProbeStep::Connect },
        ]
    );
    assert_eq!(registry.len(), probes.len() - failed.len());
    assert_eq!(registry.len(), 3);
    for id in [1, 3, 6] {
        assert_eq!(registry.get(id).unwrap().me, account(id));
    }
    for id in [2, 4, 5, 55, 7] {
        assert!(registry.get(id).is_none());
    }
}

#[test]
fn all_sessions_bad_leaves_the_registry_empty() {
    let probes = vec![(1, Probe::Unauthorized), (2, Probe::Failed(ProbeStep::Identity))];
    let mut registry = AccountRegistry::new();
    assert_eq!(load_sessions(&mut registry, &probes).len(), 2);
    assert!(registry.is_empty());
}

#[test]
fn two_files_of_one_account_load_as_one() {
    let probes = vec![(5, Probe::Identified(account(5))), (5, Probe::Identified(account(5)))];
    let mut registry = AccountRegistry::new();
    assert!(load_sessions(&mut registry, &probes).is_empty());
    assert_eq!(registry.len(), 1);
}

#[test]
fn empty_folder_reports_no_accounts() {
    let mut registry = AccountRegistry::new();
    assert!(load_sessions(&mut registry, &Vec::new()).is_empty());
    assert_eq!(login_summary(&registry), "0 telegram accounts are logged in: ");
}

#[test]
fn summary_counts_and_lists() {
    let mut registry = AccountRegistry::new();
    let probes = vec![(12, Probe::Identified(Account { id: 12, name: "Ann".to_string(), username: Some("ann".to_string()) }))];
    load_sessions(&mut registry, &probes);
    assert_eq!(login_summary(&registry), "1 telegram accounts are logged in: @ann (12)");
}

#[test]
fn load_errors_are_worded() {
    assert_eq!(LoadError::NotAuthorized { peer_id: 5 }.message(), "5 is not authorized");
    assert_eq!(
        LoadError::IdentityMismatch { peer_id: 5, found: -6 }.message(),
        "session identity mismatch: 5 belongs to -6"
    );
    assert_eq!(
        LoadError::ProbeFailed { peer_id: 5, step: ProbeStep::Load }.message(),
        "Failed to load session of 5"
    );
    assert_eq!(ProbeStep::Connect.message(), "Failed to setup telegram client");
    assert_eq!(ProbeStep::AuthorizationCheck.message(), "Failed to check if authorized");
    assert_eq!(ProbeStep::Identity.message(), "Failed to call get me");
}
