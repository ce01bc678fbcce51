use auto_shit::login::{
    FolderState, LoginAction, LoginEvent, LoginFailure, LoginFlow, LoginStage, CODE_PROMPT,
    PHONE_PROMPT,
};
use auto_shit::paths::session;
use auto_shit::state::{Account, AccountRegistry, AutoShitClient};
use std::sync::Arc;

fn ann() -> Account {
    Account { id: 4711, name: "Ann Lee".to_string(), username: Some("ann".to_string()) }
}

fn walk(flow: &mut LoginFlow, registry: &mut AccountRegistry, events: Vec<LoginEvent>) -> Vec<LoginAction> {
    events.into_iter().map(|event| flow.step(registry, event)).collect()
}

#[test]
fn login_from_an_empty_registry_saves_and_registers() {
    let mut registry = AccountRegistry::new();
    assert_eq!(auto_shit::loader::login_summary(&registry), "0 telegram accounts are logged in: ");
    let (mut flow, first) = LoginFlow::begin(None);
    assert_eq!(first, LoginAction::AskPhone);
    assert_eq!(flow.stage, LoginStage::AwaitingPhone);
    let actions = walk(
        &mut flow,
        &mut registry,
        vec![
            LoginEvent::Text("+4915".to_string()),
            LoginEvent::Connected { authorized: false },
            LoginEvent::CodeRequested,
            LoginEvent::Text("12345".to_string()),
            LoginEvent::SignedIn,
            LoginEvent::Identity(ann()),
            LoginEvent::Folder(FolderState::Missing),
            LoginEvent::FolderCreated,
        ],
    );
    assert_eq!(
        actions,
        vec![
            LoginAction::Connect,
            LoginAction::RequestCode { phone: "+4915".to_string() },
            LoginAction::AskCode,
            LoginAction::SignIn { code: "12345".to_string() },
            LoginAction::FetchIdentity,
            LoginAction::InspectFolder,
            LoginAction::CreateFolder,
            LoginAction::SaveSession { account: 4711 },
        ]
    );
    assert_eq!(session(4711), "sessions/4711");
    assert!(registry.is_empty());
    assert_eq!(flow.step(&mut registry, LoginEvent::Saved), LoginAction::Done { registered: Some(4711) });
    assert_eq!(flow.stage, LoginStage::Authorized);
    assert_eq!(registry.len(), 1);
    assert_eq!(*registry.get(4711).unwrap(), AutoShitClient { me: ann() });
    assert_eq!(auto_shit::loader::login_summary(&registry), "1 telegram accounts are logged in: @ann (4711)");
}

#[test]
fn login_with_phone_connects_at_once() {
    let (flow, first) = LoginFlow::begin(Some("+4915".to_string()));
    assert_eq!(first, LoginAction::Connect);
    assert_eq!(flow.stage, LoginStage::Connecting);
    assert_eq!(flow.phone, Some("+4915".to_string()));
}

#[test]
fn existing_folder_is_used_as_it_is() {
    let mut registry = AccountRegistry::new();
    let mut flow = LoginFlow { stage: LoginStage::FetchingIdentity, phone: Some("1".to_string()), me: None };
    assert_eq!(flow.step(&mut registry, LoginEvent::Identity(ann())), LoginAction::InspectFolder);
    assert_eq!(
        flow.step(&mut registry, LoginEvent::Folder(FolderState::Directory)),
        LoginAction::SaveSession { account: 4711 }
    );
}

#[test]
fn a_file_in_place_of_the_folder_fails_the_login() {
    let mut registry = AccountRegistry::new();
    let mut flow = LoginFlow { stage: LoginStage::FetchingIdentity, phone: Some("1".to_string()), me: None };
    flow.step(&mut registry, LoginEvent::Identity(ann()));
    assert_eq!(
        flow.step(&mut registry, LoginEvent::Folder(FolderState::NotADirectory)),
        LoginAction::Abort(LoginFailure::NotADirectory)
    );
    assert_eq!(flow.step(&mut registry, LoginEvent::Saved), LoginAction::Abort(LoginFailure::NotADirectory));
    assert!(registry.is_empty());
}

#[test]
fn an_authorized_session_short_circuits() {
    let mut registry = AccountRegistry::new();
    let (mut flow, _) = LoginFlow::begin(Some("1".to_string()));
    assert_eq!(
        flow.step(&mut registry, LoginEvent::Connected { authorized: true }),
        LoginAction::Done { registered: None }
    );
    assert_eq!(flow.stage, LoginStage::Authorized);
    assert!(registry.is_empty());
}

#[test]
fn each_failing_step_has_its_own_failure() {
    let cases = vec![
        (LoginStage::AwaitingPhone, LoginFailure::Prompt),
        (LoginStage::Connecting, LoginFailure::Connect),
        (LoginStage::RequestingCode, LoginFailure::RequestCode),
        (LoginStage::AwaitingCode, LoginFailure::Prompt),
        (LoginStage::SigningIn, LoginFailure::SignIn),
        (LoginStage::FetchingIdentity, LoginFailure::Identity),
        (LoginStage::InspectingFolder, LoginFailure::InspectFolder),
        (LoginStage::CreatingFolder, LoginFailure::CreateFolder),
        (LoginStage::Saving, LoginFailure::Save),
    ];
    for (stage, failure) in cases {
        let mut registry = AccountRegistry::new();
        let mut flow = LoginFlow {
            stage,
            phone: Some("1".to_string()),
            me: Some(Arc::new(AutoShitClient { me: ann() })),
        };
        assert_eq!(flow.step(&mut registry, LoginEvent::Failed), LoginAction::Abort(failure));
        assert_eq!(flow.stage, LoginStage::Failed(failure));
        assert!(registry.is_empty());
    }
}

#[test]
fn an_outcome_out_of_turn_fails_the_login() {
    let mut registry = AccountRegistry::new();
    let (mut flow, _) = LoginFlow::begin(None);
    assert_eq!(flow.step(&mut registry, LoginEvent::SignedIn), LoginAction::Abort(LoginFailure::OutOfTurn));
}

#[test]
fn login_again_replaces_the_client() {
    let mut registry = AccountRegistry::new();
    let old = Account { id: 4711, name: "Old".to_string(), username: None };
    assert!(registry.insert(4711, Arc::new(AutoShitClient { me: old })).is_ok());
    let mut flow = LoginFlow {
        stage: LoginStage::Saving,
        phone: Some("1".to_string()),
        me: Some(Arc::new(AutoShitClient { me: ann() })),
    };
    assert_eq!(flow.account_id(), Some(4711));
    assert_eq!(flow.step(&mut registry, LoginEvent::Saved), LoginAction::Done { registered: Some(4711) });
    assert_eq!(registry.len(), 1);
    assert_eq!(registry.get(4711).unwrap().me.name, "Ann Lee");
}

#[test]
fn prompts() {
    assert_eq!(PHONE_PROMPT, "Enter phone number: ");
    assert_eq!(CODE_PROMPT, "Enter code: ");
}

#[test]
fn failures_are_worded() {
    assert_eq!(LoginFailure::RequestCode.message(), "Failed to request login code");
    assert_eq!(LoginFailure::SignIn.message(), "Failed to sign in");
    assert_eq!(LoginFailure::Identity.message(), "Failed to call get me api");
    assert_eq!(LoginFailure::NotADirectory.message(), "The sessions folder is not a valid dir path");
    assert_eq!(LoginFailure::CreateFolder.message(), "Failed to create folder");
    assert_eq!(LoginFailure::Connect.message(), "Failed to connect");
    assert_eq!(LoginFailure::Prompt.message(), "Failed to read the answer");
    assert_eq!(LoginFailure::InspectFolder.message(), "Failed to look at the sessions folder");
    assert_eq!(LoginFailure::Save.message(), "Failed to save the session");
    assert_eq!(LoginFailure::OutOfTurn.message(), "Outcome reported out of turn");
}
