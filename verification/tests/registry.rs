use auto_shit::state::{
    format_roster, get_clients_by_id, list_clients, resolve_targets, setup_client, Account,
    AccountRegistry, AutoShitClient, ClientSetup, Config, RegistryError, TargetError,
};
use std::sync::Arc;

fn client(id: i64, name: &str, username: Option<&str>) -> Arc<AutoShitClient> {
    Arc::new(AutoShitClient {
        me: Account { id, name: name.to_string(), username: username.map(|u| u.to_string()) },
    })
}

fn registry_of(ids: &[i64]) -> AccountRegistry {
    let mut registry = AccountRegistry::new();
    for id in ids {
        assert_eq!(registry.insert(*id, client(*id, &format!("user{id}"), None)), Ok(()));
    }
    registry
}

fn ids(found: Result<Vec<Arc<AutoShitClient>>, TargetError>) -> Result<Vec<i64>, TargetError> {
    found.map(|clients| clients.iter().map(|c| c.me.id).collect())
}

fn sorted(found: Result<Vec<i64>, TargetError>) -> Result<Vec<i64>, TargetError> {
    found.map(|mut ids| {
        ids.sort();
        ids
    })
}

#[test]
fn new_registry_is_empty() {
    let registry = AccountRegistry::new();
    assert_eq!(registry.len(), 0);
    assert!(registry.is_empty());
    assert!(registry.get(1).is_none());
    assert!(registry.clients().is_empty());
    assert!(registry.list().is_empty());
    assert_eq!(list_clients(&registry), "");
}

#[test]
fn insert_then_get_returns_the_client() {
    let mut registry = AccountRegistry::new();
    assert!(registry.insert(111, client(111, "Ann", None)).is_ok());
    assert_eq!(registry.len(), 1);
    assert!(!registry.is_empty());
    assert_eq!(registry.get(111).unwrap().me.name, "Ann");
    assert!(registry.get(222).is_none());
}

#[test]
fn insert_overwrites_the_earlier_client() {
    let mut registry = AccountRegistry::new();
    assert!(registry.insert(111, client(111, "Ann", None)).is_ok());
    assert!(registry.insert(111, client(111, "Ann again", None)).is_ok());
    assert_eq!(registry.len(), 1);
    assert_eq!(registry.get(111).unwrap().me.name, "Ann again");
}

#[test]
fn insert_refuses_a_client_of_another_account() {
    let mut registry = registry_of(&[5]);
    assert_eq!(
        registry.insert(7, client(8, "Eve", None)),
        Err(RegistryError::IdentityMismatch { key: 7, account: 8 })
    );
    assert_eq!(registry.len(), 1);
    assert!(registry.get(7).is_none());
    assert!(registry.get(8).is_none());
}

#[test]
fn clients_lists_every_account_once() {
    let registry = registry_of(&[3, 1, 2, -9]);
    let mut seen: Vec<i64> = registry.clients().iter().map(|c| c.me.id).collect();
    seen.sort();
    assert_eq!(seen, vec![-9, 1, 2, 3]);
}

#[test]
fn get_clients_by_id_follows_the_list() {
    let registry = registry_of(&[111, 222, 333]);
    assert_eq!(ids(get_clients_by_id(&registry, &[333, 111])), Ok(vec![333, 111]));
    assert_eq!(ids(get_clients_by_id(&registry, &[222])), Ok(vec![222]));
}

#[test]
fn get_clients_by_id_gives_each_named_account_once() {
    let registry = registry_of(&[111, 222, 333]);
    assert_eq!(ids(get_clients_by_id(&registry, &[222, 222])), Ok(vec![222]));
    assert_eq!(ids(get_clients_by_id(&registry, &[333, 111, 333, 222, 111, 111])), Ok(vec![333, 111, 222]));
    assert_eq!(ids(get_clients_by_id(&registry_of(&[111]), &[111, 111])), Ok(vec![111]));
    assert_eq!(ids(resolve_targets(&registry, &[111, 111])), Ok(vec![111]));
}

#[test]
fn get_clients_by_id_without_identifiers() {
    assert_eq!(ids(get_clients_by_id(&registry_of(&[111]), &[])), Ok(vec![111]));
    assert_eq!(ids(get_clients_by_id(&registry_of(&[-7]), &[])), Ok(vec![-7]));
    assert_eq!(ids(get_clients_by_id(&registry_of(&[111, 222]), &[])), Ok(vec![]));
    assert_eq!(ids(get_clients_by_id(&AccountRegistry::new(), &[])), Ok(vec![]));
}

#[test]
fn get_clients_by_id_reports_an_unknown_account_behind_a_repetition() {
    let registry = registry_of(&[111, 222]);
    assert_eq!(ids(get_clients_by_id(&registry, &[111, 111, 999, 222])), Err(TargetError::UnknownAccount(999)));
}

#[test]
fn get_clients_by_id_names_the_first_unknown_account() {
    let registry = registry_of(&[111, 222]);
    assert_eq!(ids(get_clients_by_id(&registry, &[111, 999, 888])), Err(TargetError::UnknownAccount(999)));
    assert_eq!(ids(get_clients_by_id(&registry, &[777])), Err(TargetError::UnknownAccount(777)));
}

#[test]
fn zero_selects_all_accounts_whatever_else_is_listed() {
    let registry = registry_of(&[111, 222, 333]);
    let all = Ok(vec![111, 222, 333]);
    assert_eq!(sorted(ids(get_clients_by_id(&registry, &[0]))), all);
    assert_eq!(sorted(ids(get_clients_by_id(&registry, &[111, 0]))), all);
    assert_eq!(sorted(ids(get_clients_by_id(&registry, &[0, 111, 111, 0]))), all);
    assert_eq!(sorted(ids(get_clients_by_id(&registry, &[999, 0]))), all);
    assert_eq!(sorted(ids(resolve_targets(&registry, &[222, 0, 222]))), all);
}

#[test]
fn single_account_is_the_default_target() {
    let registry = registry_of(&[111]);
    assert_eq!(ids(resolve_targets(&registry, &[])), Ok(vec![111]));
}

#[test]
fn no_account_fails_every_command() {
    let registry = AccountRegistry::new();
    assert_eq!(ids(resolve_targets(&registry, &[])), Err(TargetError::NoAccount));
    assert_eq!(ids(resolve_targets(&registry, &[0])), Err(TargetError::NoAccount));
    assert_eq!(ids(resolve_targets(&registry, &[111])), Err(TargetError::NoAccount));
}

#[test]
fn several_accounts_need_a_target() {
    let registry = registry_of(&[111, 222]);
    assert_eq!(ids(resolve_targets(&registry, &[])), Err(TargetError::NotSpecified));
    assert_eq!(ids(resolve_targets(&registry, &[222])), Ok(vec![222]));
    assert_eq!(ids(resolve_targets(&registry, &[333])), Err(TargetError::UnknownAccount(333)));
}

#[test]
fn shown_name_prefers_the_handle() {
    assert_eq!(client(1, "Ann Lee", Some("ann")).me.shown_name(), "@ann");
    assert_eq!(client(1, "Ann Lee", None).me.shown_name(), "Ann Lee");
}

#[test]
fn roster_is_joined_with_commas() {
    let list = vec![("@ann".to_string(), 111), ("Bob B".to_string(), -5), ("".to_string(), 0)];
    assert_eq!(format_roster(&list), "@ann (111), Bob B (-5),  (0)");
    assert_eq!(format_roster(&list[..1].to_vec()), "@ann (111)");
    assert_eq!(format_roster(&Vec::new()), "");
}

#[test]
fn list_clients_of_one_account() {
    let mut registry = AccountRegistry::new();
    assert!(registry.insert(42, client(42, "Ann Lee", Some("ann"))).is_ok());
    assert_eq!(registry.list(), vec![("@ann".to_string(), 42)]);
    assert_eq!(list_clients(&registry), "@ann (42)");
}

#[test]
fn list_clients_of_two_accounts_in_either_order() {
    let mut registry = AccountRegistry::new();
    assert!(registry.insert(1, client(1, "Ann", None)).is_ok());
    assert!(registry.insert(2, client(2, "Bob", Some("bob"))).is_ok());
    let text = list_clients(&registry);
    assert!(text == "Ann (1), @bob (2)" || text == "@bob (2), Ann (1)", "{text}");
}

#[test]
fn account_duplicate_is_equal() {
    let me = Account { id: 9, name: "Ann".to_string(), username: Some("ann".to_string()) };
    assert_eq!(me.duplicate(), me);
}

#[test]
fn config_get_shares_the_configuration() {
    let shared = Arc::new(Config { api_id: 7, api_hash: "abc".to_string() });
    let got = Config::get(Some(&shared));
    assert!(Arc::ptr_eq(&got, &shared));
    assert_eq!(got.api_id, 7);
}

#[test]
fn setup_client_takes_the_credentials_and_catches_up() {
    let config = Config { api_id: 7, api_hash: "abc".to_string() };
    assert_eq!(setup_client(&config), ClientSetup { api_id: 7, api_hash: "abc".to_string(), catch_up: true });
}

#[test]
fn target_errors_name_the_account() {
    assert_eq!(TargetError::NoAccount.message(), "No account for operation, please login first");
    assert_eq!(TargetError::UnknownAccount(-42).message(), "There is no client with peer id = -42");
    assert_eq!(TargetError::NotSpecified.message(), "Please specify which account to operate");
}
