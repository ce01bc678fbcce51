//! Logging in a new account: the steps from the phone number to a saved
//! session and a registered client.
//!
//! The prompts, the network calls and the file system are the caller's.
//! This module decides what is done next: `LoginFlow::step` takes the
//! outcome of the last action and gives the next one, and registers the new
//! client once its session is saved.

use crate::state::{share, Account, AccountRegistry, AutoShitClient};
use std::sync::Arc;
use vstd::prelude::*;

verus! {

/// What the operator is asked for the phone number with.
pub const PHONE_PROMPT: &'static str = "Enter phone number: ";

/// What the operator is asked for the login code with.
pub const CODE_PROMPT: &'static str = "Enter code: ";

/// Why a login ended before the account was authorized.
#[derive(Debug, Clone, Copy, PartialEq, Eq)]
pub enum LoginFailure {
    /// The operator's answer could not be read.
    Prompt,
    /// No connection could be made, or the platform did not say whether the
    /// session is authorized.
    Connect,
    /// The platform sent no login code.
    RequestCode,
    /// The platform refused the phone number and code.
    SignIn,
    /// The platform did not say who the account is.
    Identity,
    /// The sessions folder could not be looked at.
    InspectFolder,
    /// Something that is no directory stands where the sessions folder
    /// belongs.
    NotADirectory,
    /// The sessions folder could not be created.
    CreateFolder,
    /// The session could not be written.
    Save,
    /// The caller reported an outcome that answers no action of the login.
    OutOfTurn,
}

/// Where a login stands.
#[derive(Debug, Clone, Copy, PartialEq, Eq)]
pub enum LoginStage {
    AwaitingPhone,
    Connecting,
    RequestingCode,
    AwaitingCode,
    SigningIn,
    FetchingIdentity,
    InspectingFolder,
    CreatingFolder,
    Saving,
    Authorized,
    Failed(LoginFailure),
}

/// What was found where the sessions folder belongs.
#[derive(Debug, Clone, Copy, PartialEq, Eq)]
pub enum FolderState {
    Missing,
    Directory,
    NotADirectory,
}

/// The outcome of the action that was last asked for.
#[derive(Debug, Clone, PartialEq, Eq)]
pub enum LoginEvent {
    /// The operator's answer to a prompt.
    Text(String),
    /// The connection stands; `authorized` says whether its session is
    /// logged in already.
    Connected { authorized: bool },
    /// The platform has sent a login code to the operator.
    CodeRequested,
    /// The platform accepted the code.
    SignedIn,
    /// Who the account is.
    Identity(Account),
    /// What stands where the sessions folder belongs.
    Folder(FolderState),
    /// The sessions folder was created.
    FolderCreated,
    /// The session was written.
    Saved,
    /// The action failed.
    Failed,
}

/// What the caller does next.
#[derive(Debug, Clone, PartialEq, Eq)]
pub enum LoginAction {
    /// Ask the operator for the phone number, with `PHONE_PROMPT`.
    AskPhone,
    /// Connect with a fresh session, and ask whether it is authorized.
    Connect,
    /// Ask the platform to send a login code to `phone`.
    RequestCode { phone: String },
    /// Ask the operator for the code, with `CODE_PROMPT`.
    AskCode,
    /// Sign in with `code` and what the request for it returned.
    SignIn { code: String },
    /// Ask the platform who the account is.
    FetchIdentity,
    /// Look at what stands where the sessions folder belongs.
    InspectFolder,
    /// Create the sessions folder, and the folders above it.
    CreateFolder,
    /// Write the session to the session file of `account`.
    SaveSession { account: i64 },
    /// The login is complete. `registered` is the account that was logged
    /// in and registered; none where the session was authorized from the
    /// start.
    Done { registered: Option<i64> },
    /// The login has failed; nothing more is to be done.
    Abort(LoginFailure),
}

/// A login under way.
#[derive(Debug, Clone, PartialEq, Eq)]
pub struct LoginFlow {
    pub stage: LoginStage,
    /// The phone number, once it is known.
    pub phone: Option<String>,
    /// The client of the account, once the platform has said who it is.
    pub me: Option<Arc<AutoShitClient>>,
}

/// The failure that a failed action means at `stage`.
pub open spec fn failure_at(stage: LoginStage) -> LoginFailure {
    match stage {
        LoginStage::AwaitingPhone | LoginStage::AwaitingCode => LoginFailure::Prompt,
        LoginStage::Connecting => LoginFailure::Connect,
        LoginStage::RequestingCode => LoginFailure::RequestCode,
        LoginStage::SigningIn => LoginFailure::SignIn,
        LoginStage::FetchingIdentity => LoginFailure::Identity,
        LoginStage::InspectingFolder => LoginFailure::InspectFolder,
        LoginStage::CreatingFolder => LoginFailure::CreateFolder,
        LoginStage::Saving => LoginFailure::Save,
        LoginStage::Authorized => LoginFailure::OutOfTurn,
        LoginStage::Failed(failure) => failure,
    }
}

impl LoginFlow {
    /// The login at another stage.
    pub open spec fn at(self, stage: LoginStage) -> LoginFlow {
        LoginFlow { stage, ..self }
    }

    /// The login and the action after it failed with `failure`.
    pub open spec fn failed(self, failure: LoginFailure) -> (LoginFlow, LoginAction) {
        (self.at(LoginStage::Failed(failure)), LoginAction::Abort(failure))
    }

    /// The account that is being logged in, once it is known.
    pub open spec fn account(self) -> Option<i64> {
        match self.me {
            Some(client) => Some(client.me.id),
            None => None,
        }
    }

    /// The login and its first action: with a phone number it connects at
    /// once, without one it asks for it.
    pub open spec fn begun(phone: Option<String>) -> (LoginFlow, LoginAction) {
        match phone {
            Some(_) => (
                LoginFlow { stage: LoginStage::Connecting, phone, me: None },
                LoginAction::Connect,
            ),
            None => (
                LoginFlow { stage: LoginStage::AwaitingPhone, phone, me: None },
                LoginAction::AskPhone,
            ),
        }
    }

    /// The login and the next action after `event`.
    pub open spec fn step_of(self, event: LoginEvent) -> (LoginFlow, LoginAction) {
        match (self.stage, event) {
            (LoginStage::Authorized, _) => (self, LoginAction::Done { registered: self.account() }),
            (LoginStage::Failed(failure), _) => (self, LoginAction::Abort(failure)),
            (stage, LoginEvent::Failed) => self.failed(failure_at(stage)),
            (LoginStage::AwaitingPhone, LoginEvent::Text(phone)) => (
                LoginFlow { stage: LoginStage::Connecting, phone: Some(phone), ..self },
                LoginAction::Connect,
            ),
            (LoginStage::Connecting, LoginEvent::Connected { authorized }) => if authorized {
                (self.at(LoginStage::Authorized), LoginAction::Done { registered: self.account() })
            } else {
                match self.phone {
                    Some(phone) => (
                        self.at(LoginStage::RequestingCode),
                        LoginAction::RequestCode { phone },
                    ),
                    None => self.failed(LoginFailure::OutOfTurn),
                }
            },
            (LoginStage::RequestingCode, LoginEvent::CodeRequested) => (
                self.at(LoginStage::AwaitingCode),
                LoginAction::AskCode,
            ),
            (LoginStage::AwaitingCode, LoginEvent::Text(code)) => (
                self.at(LoginStage::SigningIn),
                LoginAction::SignIn { code },
            ),
            (LoginStage::SigningIn, LoginEvent::SignedIn) => (
                self.at(LoginStage::FetchingIdentity),
                LoginAction::FetchIdentity,
            ),
            (LoginStage::FetchingIdentity, LoginEvent::Identity(me)) => (
                LoginFlow {
                    stage: LoginStage::InspectingFolder,
                    me: Some(Arc::new(AutoShitClient { me })),
                    ..self
                },
                LoginAction::InspectFolder,
            ),
            (LoginStage::InspectingFolder, LoginEvent::Folder(found)) => match (found, self.me) {
                (FolderState::Missing, Some(_)) => (
                    self.at(LoginStage::CreatingFolder),
                    LoginAction::CreateFolder,
                ),
                (FolderState::Directory, Some(client)) => (
                    self.at(LoginStage::Saving),
                    LoginAction::SaveSession { account: client.me.id },
                ),
                (FolderState::NotADirectory, Some(_)) => self.failed(LoginFailure::NotADirectory),
                (_, None) => self.failed(LoginFailure::OutOfTurn),
            },
            (LoginStage::CreatingFolder, LoginEvent::FolderCreated) => match self.me {
                Some(client) => (
                    self.at(LoginStage::Saving),
                    LoginAction::SaveSession { account: client.me.id },
                ),
                None => self.failed(LoginFailure::OutOfTurn),
            },
            (LoginStage::Saving, LoginEvent::Saved) => match self.me {
                Some(client) => (
                    self.at(LoginStage::Authorized),
                    LoginAction::Done { registered: Some(client.me.id) },
                ),
                None => self.failed(LoginFailure::OutOfTurn),
            },
            _ => self.failed(LoginFailure::OutOfTurn),
        }
    }

    /// The registry after `event`: the new client is registered under its
    /// account when its session has been saved, and at no other time.
    pub open spec fn registers(self, event: LoginEvent, entries: Map<i64, AutoShitClient>) -> Map<
        i64,
        AutoShitClient,
    > {
        match (self.stage, event, self.me) {
            (LoginStage::Saving, LoginEvent::Saved, Some(client)) => entries.insert(
                client.me.id,
                *client,
            ),
            _ => entries,
        }
    }
}

/// The failure that a failed action means at `stage`.
fn failure_in(stage: LoginStage) -> (failure: LoginFailure)
    ensures
        failure == failure_at(stage),
{
    match stage {
        LoginStage::AwaitingPhone => LoginFailure::Prompt,
        LoginStage::AwaitingCode => LoginFailure::Prompt,
        LoginStage::Connecting => LoginFailure::Connect,
        LoginStage::RequestingCode => LoginFailure::RequestCode,
        LoginStage::SigningIn => LoginFailure::SignIn,
        LoginStage::FetchingIdentity => LoginFailure::Identity,
        LoginStage::InspectingFolder => LoginFailure::InspectFolder,
        LoginStage::CreatingFolder => LoginFailure::CreateFolder,
        LoginStage::Saving => LoginFailure::Save,
        LoginStage::Authorized => LoginFailure::OutOfTurn,
        LoginStage::Failed(failure) => failure,
    }
}

impl LoginFlow {
    /// Begins a login, with the phone number if the operator gave one.
    pub fn begin(phone: Option<String>) -> (begun: (LoginFlow, LoginAction))
        ensures
            begun == LoginFlow::begun(phone),
    {
        if phone.is_some() {
            (LoginFlow { stage: LoginStage::Connecting, phone, me: None }, LoginAction::Connect)
        } else {
            (LoginFlow { stage: LoginStage::AwaitingPhone, phone, me: None }, LoginAction::AskPhone)
        }
    }

    fn fail(&mut self, failure: LoginFailure) -> (action: LoginAction)
        ensures
            (*final(self), action) == old(self).failed(failure),
    {
        self.stage = LoginStage::Failed(failure);
        LoginAction::Abort(failure)
    }

    /// The account that is being logged in, once it is known.
    pub fn account_id(&self) -> (id: Option<i64>)
        ensures
            id == self.account(),
    {
        match &self.me {
            Some(client) => Some(client.me.id),
            None => None,
        }
    }

    /// Takes the outcome of the last action and gives the next action. Once
    /// the session is saved, the new client is registered in `registry`
    /// under its account, in place of an earlier client of that account.
    pub fn step(&mut self, registry: &mut AccountRegistry, event: LoginEvent) -> (action:
        LoginAction)
        requires
            old(registry).wf(),
        ensures
            (*final(self), action) == old(self).step_of(event),
            final(registry).wf(),
            final(registry)@ == old(self).registers(event, old(registry)@),
    {
        match self.stage {
            LoginStage::Authorized => {
                return LoginAction::Done { registered: self.account_id() };
            },
            LoginStage::Failed(failure) => {
                return LoginAction::Abort(failure);
            },
            _ => {},
        }
        match (self.stage, event) {
            (stage, LoginEvent::Failed) => self.fail(failure_in(stage)),
            (LoginStage::AwaitingPhone, LoginEvent::Text(phone)) => {
                self.stage = LoginStage::Connecting;
                self.phone = Some(phone);
                LoginAction::Connect
            },
            (LoginStage::Connecting, LoginEvent::Connected { authorized }) => {
                if authorized {
                    self.stage = LoginStage::Authorized;
                    LoginAction::Done { registered: self.account_id() }
                } else {
                    match &self.phone {
                        Some(phone) => {
                            let phone = phone.clone();
                            self.stage = LoginStage::RequestingCode;
                            LoginAction::RequestCode { phone }
                        },
                        None => self.fail(LoginFailure::OutOfTurn),
                    }
                }
            },
            (LoginStage::RequestingCode, LoginEvent::CodeRequested) => {
                self.stage = LoginStage::AwaitingCode;
                LoginAction::AskCode
            },
            (LoginStage::AwaitingCode, LoginEvent::Text(code)) => {
                self.stage = LoginStage::SigningIn;
                LoginAction::SignIn { code }
            },
            (LoginStage::SigningIn, LoginEvent::SignedIn) => {
                self.stage = LoginStage::FetchingIdentity;
                LoginAction::FetchIdentity
            },
            (LoginStage::FetchingIdentity, LoginEvent::Identity(me)) => {
                self.stage = LoginStage::InspectingFolder;
                self.me = Some(Arc::new(AutoShitClient { me }));
                LoginAction::InspectFolder
            },
            (LoginStage::InspectingFolder, LoginEvent::Folder(found)) => {
                match self.account_id() {
                    None => self.fail(LoginFailure::OutOfTurn),
                    Some(account) => match found {
                        FolderState::Missing => {
                            self.stage = LoginStage::CreatingFolder;
                            LoginAction::CreateFolder
                        },
                        FolderState::Directory => {
                            self.stage = LoginStage::Saving;
                            LoginAction::SaveSession { account }
                        },
                        FolderState::NotADirectory => self.fail(LoginFailure::NotADirectory),
                    },
                }
            },
            (LoginStage::CreatingFolder, LoginEvent::FolderCreated) => {
                match self.account_id() {
                    None => self.fail(LoginFailure::OutOfTurn),
                    Some(account) => {
                        self.stage = LoginStage::Saving;
                        LoginAction::SaveSession { account }
                    },
                }
            },
            (LoginStage::Saving, LoginEvent::Saved) => {
                let client = match &self.me {
                    Some(client) => Some(share(client)),
                    None => None,
                };
                match client {
                    None => self.fail(LoginFailure::OutOfTurn),
                    Some(client) => {
                        let account = client.me.id;
                        let registered = registry.insert(account, client);
                        assert(registered is Ok);
                        self.stage = LoginStage::Authorized;
                        LoginAction::Done { registered: Some(account) }
                    },
                }
            },
            _ => self.fail(LoginFailure::OutOfTurn),
        }
    }
}

/// A login that meets no failure ends with the account authorized, its
/// session saved under its own identifier and its client registered under
/// that identifier.
pub proof fn lemma_login_registers_the_account(
    flow: LoginFlow,
    entries: Map<i64, AutoShitClient>,
)
    requires
        flow.stage == LoginStage::Saving,
        flow.me is Some,
    ensures
        flow.step_of(LoginEvent::Saved).0.stage == LoginStage::Authorized,
        flow.step_of(LoginEvent::Saved).1 == (LoginAction::Done { registered: flow.account() }),
        flow.registers(LoginEvent::Saved, entries).contains_pair(
            flow.account()->0,
            *flow.me->0,
        ),
        forall|event: LoginEvent| !(event is Saved) ==> #[trigger] flow.registers(event, entries)
            == entries,
{
}

/// A failure ends the login for good, and a login that has failed has
/// registered nothing.
pub proof fn lemma_failed_login_registers_nothing(
    flow: LoginFlow,
    event: LoginEvent,
    entries: Map<i64, AutoShitClient>,
)
    requires
        flow.stage is Failed || (event is Failed && flow.stage != LoginStage::Authorized),
    ensures
        flow.step_of(event).0.stage is Failed,
        flow.step_of(event).1 is Abort,
        flow.registers(event, entries) == entries,
{
}

/// What the operator is told when a login has failed.
pub open spec fn failure_text(failure: LoginFailure) -> Seq<char> {
    match failure {
        LoginFailure::Prompt => "Failed to read the answer"@,
        LoginFailure::Connect => "Failed to connect"@,
        LoginFailure::RequestCode => "Failed to request login code"@,
        LoginFailure::SignIn => "Failed to sign in"@,
        LoginFailure::Identity => "Failed to call get me api"@,
        LoginFailure::InspectFolder => "Failed to look at the sessions folder"@,
        LoginFailure::NotADirectory => "The sessions folder is not a valid dir path"@,
        LoginFailure::CreateFolder => "Failed to create folder"@,
        LoginFailure::Save => "Failed to save the session"@,
        LoginFailure::OutOfTurn => "Outcome reported out of turn"@,
    }
}

impl LoginFailure {
    /// What went wrong, for the operator to read.
    pub fn message(&self) -> (text: &'static str)
        ensures
            text@ == failure_text(*self),
    {
        match self {
            LoginFailure::Prompt => "Failed to read the answer",
            LoginFailure::Connect => "Failed to connect",
            LoginFailure::RequestCode => "Failed to request login code",
            LoginFailure::SignIn => "Failed to sign in",
            LoginFailure::Identity => "Failed to call get me api",
            LoginFailure::InspectFolder => "Failed to look at the sessions folder",
            LoginFailure::NotADirectory => "The sessions folder is not a valid dir path",
            LoginFailure::CreateFolder => "Failed to create folder",
            LoginFailure::Save => "Failed to save the session",
            LoginFailure::OutOfTurn => "Outcome reported out of turn",
        }
    }
}

} // verus!
