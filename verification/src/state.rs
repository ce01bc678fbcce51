//! Accounts and the registry of live clients.

use crate::text::{decimal_text, i64_text};
use ahash::RandomState;
use dashmap::DashMap;
use std::sync::Arc;
use vstd::prelude::*;
use vstd::string::StringExecFns;

verus! {

/// The concurrent hash map of the `dashmap` crate, opaque to the verifier.
#[verifier::external_type_specification]
#[verifier::external_body]
#[verifier::reject_recursive_types(K)]
#[verifier::reject_recursive_types(V)]
#[verifier::reject_recursive_types(S)]
pub struct ExDashMap<K, V, S>(DashMap<K, V, S>);

/// The hasher state of the `ahash` crate, opaque to the verifier.
#[verifier::external_type_specification]
#[verifier::external_body]
pub struct ExRandomState(RandomState);

/// One authenticated identity on the messaging platform.
#[derive(Debug, Clone, PartialEq, Eq)]
pub struct Account {
    /// Identifier assigned by the platform.
    pub id: i64,
    /// Display name.
    pub name: String,
    /// Public handle, without the leading `@`.
    pub username: Option<String>,
}

/// A connected client, bound to the account it is logged in as.
///
/// The connection itself lives with whoever performs the network calls; the
/// registry keeps what the decisions of this library read.
#[derive(Debug, Clone, PartialEq, Eq)]
pub struct AutoShitClient {
    pub me: Account,
}

/// The credentials needed to connect to the platform.
#[derive(Debug, Clone, PartialEq, Eq)]
pub struct Config {
    pub api_id: i32,
    pub api_hash: String,
}

/// What a connection is opened with.
#[derive(Debug, Clone, PartialEq, Eq)]
pub struct ClientSetup {
    pub api_id: i32,
    pub api_hash: String,
    /// Whether to fetch the updates missed while offline.
    pub catch_up: bool,
}

/// Why a client was not registered.
#[derive(Debug, Clone, Copy, PartialEq, Eq)]
pub enum RegistryError {
    /// The client is logged in as `account`, not as the identifier `key` it
    /// was to be registered under.
    IdentityMismatch { key: i64, account: i64 },
}

/// Why a list of account identifiers did not resolve to clients.
#[derive(Debug, Clone, Copy, PartialEq, Eq)]
pub enum TargetError {
    /// No account is registered at all.
    NoAccount,
    /// No account is registered under this identifier.
    UnknownAccount(i64),
    /// No account was named, and there is more than one to choose from.
    NotSpecified,
}

/// The identifier that stands for every registered account.
pub const ALL_ACCOUNTS: i64 = 0;

/// What a `DashMap` of clients holds: the entry under each key.
pub uninterp spec fn map_entries(map: DashMap<i64, Arc<AutoShitClient>, RandomState>) -> Map<i64, AutoShitClient>;

/// `DashMap::with_hasher` on a default `ahash` state: a map with no entries.
#[verifier::external_body]
fn map_new() -> (created: DashMap<i64, Arc<AutoShitClient>, RandomState>)
    ensures
        map_entries(created) == (Map::<i64, AutoShitClient>::empty()),
{
    DashMap::with_hasher(RandomState::default())
}

/// `DashMap::insert`: the entry under `key` becomes `value`, the others stay,
/// and the value that was under `key` before comes back.
#[verifier::external_body]
fn map_insert(
    map: &mut DashMap<i64, Arc<AutoShitClient>, RandomState>,
    key: i64,
    value: Arc<AutoShitClient>,
) -> (previous: Option<Arc<AutoShitClient>>)
    ensures
        map_entries(*final(map)) == map_entries(*old(map)).insert(key, *value),
        previous matches Some(p) ==> map_entries(*old(map)).contains_pair(key, *p),
        previous is None ==> !map_entries(*old(map)).dom().contains(key),
{
    map.insert(key, value)
}

/// `DashMap::get`: a share of the value under `key`, if there is one.
#[verifier::external_body]
fn map_get(map: &DashMap<i64, Arc<AutoShitClient>, RandomState>, key: i64) -> (found: Option<Arc<AutoShitClient>>)
    ensures
        found matches Some(v) ==> map_entries(*map).contains_pair(key, *v),
        found is None ==> !map_entries(*map).dom().contains(key),
{
    map.get(&key).map(|entry| Arc::clone(entry.value()))
}

/// `DashMap::len`: the number of entries.
#[verifier::external_body]
fn map_len(map: &DashMap<i64, Arc<AutoShitClient>, RandomState>) -> (n: usize)
    ensures
        n == map_entries(*map).dom().len(),
{
    map.len()
}

/// Whether `pairs` lists the entries of `entries`, each exactly once.
pub open spec fn lists_entries(
    pairs: Seq<(i64, Arc<AutoShitClient>)>,
    entries: Map<i64, AutoShitClient>,
) -> bool {
    &&& forall|i: int|
        0 <= i < pairs.len() ==> entries.contains_pair((#[trigger] pairs[i]).0, *pairs[i].1)
    &&& forall|i: int, j: int|
        0 <= i < j < pairs.len() ==> (#[trigger] pairs[i]).0 != (#[trigger] pairs[j]).0
    &&& forall|key: i64| #[trigger]
        entries.dom().contains(key) ==> exists|i: int|
            0 <= i < pairs.len() && (#[trigger] pairs[i]).0 == key
}

/// `DashMap::iter`, each entry copied out as its key and a share of its
/// value: every entry comes once, in an order that is not fixed.
#[verifier::external_body]
fn map_pairs(map: &DashMap<i64, Arc<AutoShitClient>, RandomState>) -> (pairs: Vec<
    (i64, Arc<AutoShitClient>),
>)
    ensures
        lists_entries(pairs@, map_entries(*map)),
{
    map.iter().map(|entry| (*entry.key(), Arc::clone(entry.value()))).collect()
}

/// `Arc::clone`: another handle to the same value.
#[verifier::external_body]
pub(crate) fn share<T>(handle: &Arc<T>) -> (shared: Arc<T>)
    ensures
        shared == *handle,
{
    Arc::clone(handle)
}

/// The registry of live clients: which accounts are usable, and through
/// which client. It is the single source of truth for both.
///
/// Writing takes `&mut self`: whoever shares a registry between tasks puts
/// it behind a lock of their choosing, and no reader ever sees a registry
/// that is being written.
pub struct AccountRegistry {
    map: DashMap<i64, Arc<AutoShitClient>, RandomState>,
}

impl View for AccountRegistry {
    type V = Map<i64, AutoShitClient>;

    /// The client registered under each account identifier.
    closed spec fn view(&self) -> Map<i64, AutoShitClient> {
        map_entries(self.map)
    }
}

/// Whether `clients` is a snapshot of `entries`: every registered client
/// once, in some order.
pub open spec fn is_snapshot(clients: Seq<AutoShitClient>, entries: Map<i64, AutoShitClient>) -> bool {
    &&& forall|i: int|
        0 <= i < clients.len() ==> entries.contains_pair(
            (#[trigger] clients[i]).me.id,
            clients[i],
        )
    &&& forall|i: int, j: int|
        0 <= i < j < clients.len() ==> (#[trigger] clients[i]).me.id != (#[trigger] clients[j]).me.id
    &&& forall|id: i64| #[trigger]
        entries.dom().contains(id) ==> exists|i: int|
            0 <= i < clients.len() && (#[trigger] clients[i]).me.id == id
}

/// Whether `entries` can be the contents of a registry: finitely many
/// entries, each filed under the identifier of its own account.
pub open spec fn is_registry(entries: Map<i64, AutoShitClient>) -> bool {
    &&& entries.dom().finite()
    &&& forall|id: i64| #[trigger] entries.dom().contains(id) ==> entries[id].me.id == id
}

/// The clients behind a list of handles.
pub open spec fn clients_of(handles: Seq<Arc<AutoShitClient>>) -> Seq<AutoShitClient> {
    handles.map_values(|handle: Arc<AutoShitClient>| *handle)
}

impl AccountRegistry {
    /// Every entry is filed under the identifier of its own account, and
    /// there are finitely many.
    pub open spec fn wf(&self) -> bool {
        is_registry(self@)
    }

    /// A registry with no account in it.
    pub fn new() -> (registry: Self)
        ensures
            registry.wf(),
            registry@ == Map::<i64, AutoShitClient>::empty(),
    {
        AccountRegistry { map: map_new() }
    }

    /// Registers `client` under `id`, in place of any client that was
    /// registered there before. A client that is logged in as another account
    /// than `id` is refused, and the registry stays as it was.
    pub fn insert(&mut self, id: i64, client: Arc<AutoShitClient>) -> (done: Result<
        (),
        RegistryError,
    >)
        requires
            old(self).wf(),
        ensures
            final(self).wf(),
            client.me.id == id ==> done is Ok && final(self)@ == old(self)@.insert(id, *client),
            client.me.id != id ==> done == Err::<(), RegistryError>(
                RegistryError::IdentityMismatch { key: id, account: client.me.id },
            ) && final(self)@ == old(self)@,
    {
        if client.me.id != id {
            return Err(RegistryError::IdentityMismatch { key: id, account: client.me.id });
        }
        let _ = map_insert(&mut self.map, id, client);
        Ok(())
    }

    /// The client registered under `id`, if there is one.
    pub fn get(&self, id: i64) -> (found: Option<Arc<AutoShitClient>>)
        ensures
            match found {
                Some(client) => self@.contains_pair(id, *client),
                None => !self@.dom().contains(id),
            },
    {
        map_get(&self.map, id)
    }

    /// The number of registered accounts.
    pub fn len(&self) -> (n: usize)
        ensures
            n == self@.dom().len(),
    {
        map_len(&self.map)
    }

    /// Whether no account is registered.
    pub fn is_empty(&self) -> (empty: bool)
        requires
            self.wf(),
        ensures
            empty <==> self@.dom().is_empty(),
    {
        let n = map_len(&self.map);
        proof {
            if n == 0 {
                self@.dom().lemma_len0_is_empty();
            }
        }
        n == 0
    }

    /// Every registered client once, in the order in which the map is walked.
    pub fn clients(&self) -> (handles: Vec<Arc<AutoShitClient>>)
        requires
            self.wf(),
        ensures
            is_snapshot(clients_of(handles@), self@),
    {
        let pairs = map_pairs(&self.map);
        let mut handles: Vec<Arc<AutoShitClient>> = Vec::new();
        let n: usize = pairs.len();
        let mut i: usize = 0;
        while i < n
            invariant
                n == pairs@.len(),
                i <= n,
                handles@.len() == i,
                forall|k: int| 0 <= k < i ==> *(#[trigger] handles@[k]) == *pairs@[k].1,
            decreases n - i,
        {
            handles.push(share(&pairs[i].1));
            i = i + 1;
        }
        proof {
            let clients = clients_of(handles@);
            assert forall|k: int| 0 <= k < clients.len() implies (#[trigger] clients[k]).me.id
                == pairs@[k].0 && self@.contains_pair(clients[k].me.id, clients[k]) by {
                assert(self@.contains_pair(pairs@[k].0, *pairs@[k].1));
                assert(self@.dom().contains(pairs@[k].0));
            }
            assert forall|id: i64| #[trigger] self@.dom().contains(id) implies exists|k: int|
                0 <= k < clients.len() && (#[trigger] clients[k]).me.id == id by {
                let k = choose|k: int| 0 <= k < pairs@.len() && (#[trigger] pairs@[k]).0 == id;
                assert(clients[k].me.id == id);
            }
        }
        handles
    }
}

/// The first position of `ids` that names no entry of `entries`, if `at`
/// is that position.
pub open spec fn first_unknown(ids: Seq<i64>, entries: Map<i64, AutoShitClient>, at: int) -> bool {
    &&& 0 <= at < ids.len()
    &&& !entries.dom().contains(ids[at])
    &&& forall|j: int| 0 <= j < at ==> entries.dom().contains(#[trigger] ids[j])
}

/// The identifiers that `ids` names, each once, in the order in which they
/// are first mentioned.
pub open spec fn first_mentions(ids: Seq<i64>) -> Seq<i64>
    decreases ids.len(),
{
    if ids.len() == 0 {
        Seq::empty()
    } else {
        let before = first_mentions(ids.drop_last());
        if before.contains(ids.last()) {
            before
        } else {
            before.push(ids.last())
        }
    }
}

/// What a list of identifiers resolves to. The identifiers name a set of
/// accounts:
///
/// - a zero anywhere in the list selects every registered account;
/// - a list that names nothing selects the only account, where exactly one
///   is registered, and no account otherwise;
/// - any other list selects each account that it names, once, in the order
///   of first mention, and the first identifier that names no account is
///   the error.
pub open spec fn resolves_to(
    ids: Seq<i64>,
    entries: Map<i64, AutoShitClient>,
    outcome: Result<Seq<AutoShitClient>, TargetError>,
) -> bool {
    match outcome {
        Ok(clients) => if ids.contains(ALL_ACCOUNTS) {
            is_snapshot(clients, entries)
        } else if ids.len() == 0 && entries.dom().len() == 1 {
            clients.len() == 1 && is_snapshot(clients, entries)
        } else {
            &&& clients.len() == first_mentions(ids).len()
            &&& forall|i: int|
                0 <= i < clients.len() ==> entries.contains_pair(
                    first_mentions(ids)[i],
                    #[trigger] clients[i],
                )
        },
        Err(TargetError::UnknownAccount(id)) => {
            &&& !ids.contains(ALL_ACCOUNTS)
            &&& exists|at: int| first_unknown(ids, entries, at) && ids[at] == id
        },
        Err(_) => false,
    }
}

/// The outcome of a resolution, with each handle replaced by its client.
pub open spec fn outcome_of(found: Result<Vec<Arc<AutoShitClient>>, TargetError>) -> Result<
    Seq<AutoShitClient>,
    TargetError,
> {
    match found {
        Ok(handles) => Ok(clients_of(handles@)),
        Err(e) => Err(e),
    }
}

/// Whether `ids` holds `id`.
fn mentions(ids: &[i64], id: i64) -> (found: bool)
    ensures
        found == ids@.contains(id),
{
    let n: usize = ids.len();
    let mut i: usize = 0;
    while i < n
        invariant
            n == ids@.len(),
            i <= n,
            forall|j: int| 0 <= j < i ==> ids@[j] != id,
        decreases n - i,
    {
        if ids[i] == id {
            return true;
        }
        i = i + 1;
    }
    false
}

/// The clients that `ids` names in `registry`.
pub fn get_clients_by_id(registry: &AccountRegistry, ids: &[i64]) -> (found: Result<
    Vec<Arc<AutoShitClient>>,
    TargetError,
>)
    requires
        registry.wf(),
    ensures
        resolves_to(ids@, registry@, outcome_of(found)),
{
    if mentions(ids, ALL_ACCOUNTS) {
        return Ok(registry.clients());
    }
    let n: usize = ids.len();
    if n == 0 && registry.len() == 1 {
        let only = registry.clients();
        proof {
            lemma_snapshot_len(clients_of(only@), registry@);
        }
        return Ok(only);
    }
    let mut handles: Vec<Arc<AutoShitClient>> = Vec::new();
    let mut named: Vec<i64> = Vec::new();
    let mut i: usize = 0;
    while i < n
        invariant
            n == ids@.len(),
            i <= n,
            !ids@.contains(ALL_ACCOUNTS),
            named@ == first_mentions(ids@.take(i as int)),
            handles@.len() == named@.len(),
            forall|k: int|
                0 <= k < named@.len() ==> registry@.contains_pair(
                    named@[k],
                    *#[trigger] handles@[k],
                ),
            forall|j: int| 0 <= j < i ==> registry@.dom().contains(#[trigger] ids@[j]),
        decreases n - i,
    {
        let id = ids[i];
        proof {
            let upto = ids@.take(i + 1);
            assert(upto.drop_last() =~= ids@.take(i as int));
            assert(upto.last() == id);
        }
        if mentions(named.as_slice(), id) {
            proof {
                let k = choose|k: int| 0 <= k < named@.len() && named@[k] == id;
                assert(registry@.contains_pair(named@[k], *handles@[k]));
            }
        } else {
            match registry.get(id) {
                Some(handle) => {
                    handles.push(handle);
                    named.push(id);
                },
                None => {
                    proof {
                        assert(first_unknown(ids@, registry@, i as int));
                    }
                    return Err(TargetError::UnknownAccount(id));
                },
            }
        }
        i = i + 1;
    }
    proof {
        assert(ids@.take(n as int) =~= ids@);
        let clients = clients_of(handles@);
        assert forall|k: int| 0 <= k < clients.len() implies registry@.contains_pair(
            first_mentions(ids@)[k],
            #[trigger] clients[k],
        ) by {
            assert(registry@.contains_pair(named@[k], *handles@[k]));
        }
    }
    Ok(handles)
}

/// What a command's list of targets selects. With no account registered
/// nothing can be selected; otherwise the list is resolved, and selecting
/// no account is an error.
pub open spec fn targets_of(
    ids: Seq<i64>,
    entries: Map<i64, AutoShitClient>,
    outcome: Result<Seq<AutoShitClient>, TargetError>,
) -> bool {
    if entries.dom().is_empty() {
        outcome == Err::<Seq<AutoShitClient>, TargetError>(TargetError::NoAccount)
    } else if ids.len() == 0 && entries.dom().len() != 1 {
        outcome == Err::<Seq<AutoShitClient>, TargetError>(TargetError::NotSpecified)
    } else {
        resolves_to(ids, entries, outcome)
    }
}

/// The clients that a command with the targets `ids` runs against.
pub fn resolve_targets(registry: &AccountRegistry, ids: &[i64]) -> (found: Result<
    Vec<Arc<AutoShitClient>>,
    TargetError,
>)
    requires
        registry.wf(),
    ensures
        targets_of(ids@, registry@, outcome_of(found)),
{
    if registry.is_empty() {
        return Err(TargetError::NoAccount);
    }
    match get_clients_by_id(registry, ids) {
        Err(error) => Err(error),
        Ok(handles) => {
            proof {
                lemma_first_mentions(ids@);
                if ids@.contains(ALL_ACCOUNTS) {
                    lemma_snapshot_len(clients_of(handles@), registry@);
                }
                if ids@.len() > 0 {
                    assert(ids@.contains(ids@[0]));
                    assert(first_mentions(ids@).len() > 0) by {
                        let k = choose|k: int|
                            0 <= k < first_mentions(ids@).len() && first_mentions(ids@)[k]
                                == ids@[0];
                    }
                }
            }
            if handles.len() == 0 {
                Err(TargetError::NotSpecified)
            } else {
                Ok(handles)
            }
        },
    }
}

/// The first mentions of a list hold what the list holds, and nothing
/// twice.
pub proof fn lemma_first_mentions(ids: Seq<i64>)
    ensures
        first_mentions(ids).no_duplicates(),
        forall|id: i64|
            #![trigger first_mentions(ids).contains(id)]
            #![trigger ids.contains(id)]
            first_mentions(ids).contains(id) <==> ids.contains(id),
    decreases ids.len(),
{
    if ids.len() > 0 {
        let rest = ids.drop_last();
        let last = ids.last();
        let before = first_mentions(rest);
        lemma_first_mentions(rest);
        assert forall|id: i64|
            #![trigger first_mentions(ids).contains(id)]
            #![trigger ids.contains(id)]
            first_mentions(ids).contains(id) <==> ids.contains(id) by {
            assert(before.contains(id) <==> rest.contains(id));
            if first_mentions(ids).contains(id) {
                if before.contains(id) {
                    let j = choose|j: int| 0 <= j < rest.len() && rest[j] == id;
                    assert(ids[j] == id);
                } else {
                    let k = choose|k: int|
                        0 <= k < first_mentions(ids).len() && first_mentions(ids)[k] == id;
                    assert(k == before.len() && id == last);
                    assert(ids[ids.len() - 1] == id);
                }
            }
            if ids.contains(id) {
                let j = choose|j: int| 0 <= j < ids.len() && ids[j] == id;
                if j < rest.len() {
                    assert(rest[j] == id);
                    assert(before.contains(id));
                    let k = choose|k: int| 0 <= k < before.len() && before[k] == id;
                    if !before.contains(last) {
                        assert(before.push(last)[k] == id);
                    }
                } else {
                    if !before.contains(last) {
                        assert(before.push(last)[before.len() as int] == last);
                    }
                }
            }
        }
    }
}

/// The identifiers of the clients in `clients`, as a set.
pub open spec fn ids_of(clients: Seq<AutoShitClient>) -> Set<i64> {
    Set::new(|id: i64| exists|i: int| 0 <= i < clients.len() && (#[trigger] clients[i]).me.id == id)
}

/// A snapshot has as many clients as the registry has entries, and names
/// exactly the registered identifiers.
pub proof fn lemma_snapshot_len(clients: Seq<AutoShitClient>, entries: Map<i64, AutoShitClient>)
    requires
        entries.dom().finite(),
        is_snapshot(clients, entries),
    ensures
        clients.len() == entries.dom().len(),
        ids_of(clients) == entries.dom(),
    decreases clients.len(),
{
    assert(ids_of(clients) =~= entries.dom()) by {
        assert forall|id: i64| ids_of(clients).contains(id) implies entries.dom().contains(id) by {
            let i = choose|i: int| 0 <= i < clients.len() && (#[trigger] clients[i]).me.id == id;
            assert(entries.contains_pair(clients[i].me.id, clients[i]));
        }
    }
    if clients.len() == 0 {
        assert(entries.dom() =~= Set::<i64>::empty()) by {
            assert forall|id: i64| !entries.dom().contains(id) by {
                if entries.dom().contains(id) {
                    let i = choose|i: int| 0 <= i < clients.len() && (#[trigger] clients[i]).me.id == id;
                }
            }
        }
    } else {
        let last = clients.last();
        let rest = clients.drop_last();
        let fewer = entries.remove(last.me.id);
        assert(entries.contains_pair(last.me.id, last));
        assert(is_snapshot(rest, fewer)) by {
            assert forall|i: int| 0 <= i < rest.len() implies fewer.contains_pair(
                (#[trigger] rest[i]).me.id,
                rest[i],
            ) by {
                assert(rest[i] == clients[i]);
                assert(entries.contains_pair(clients[i].me.id, clients[i]));
                assert(clients[i].me.id != clients[clients.len() - 1].me.id);
            }
            assert forall|i: int, j: int| 0 <= i < j < rest.len() implies (#[trigger] rest[i]).me.id
                != (#[trigger] rest[j]).me.id by {
                assert(rest[i] == clients[i] && rest[j] == clients[j]);
            }
            assert forall|id: i64| #[trigger] fewer.dom().contains(id) implies exists|i: int|
                0 <= i < rest.len() && (#[trigger] rest[i]).me.id == id by {
                assert(entries.dom().contains(id));
                let i = choose|i: int| 0 <= i < clients.len() && (#[trigger] clients[i]).me.id == id;
                assert(i < clients.len() - 1);
                assert(rest[i] == clients[i]);
            }
        }
        lemma_snapshot_len(rest, fewer);
    }
}

/// The name an account is shown under: its handle behind an `@` where it
/// has one, else its display name.
pub open spec fn shown_name(account: Account) -> Seq<char> {
    match account.username {
        Some(handle) => "@"@ + handle@,
        None => account.name@,
    }
}

/// One entry of the roster: the shown name, then the identifier in
/// parentheses.
pub open spec fn roster_entry(name: Seq<char>, id: i64) -> Seq<char> {
    name + " ("@ + decimal_text(id as int) + ")"@
}

/// The roster of `list`: its entries in order, with `, ` between them.
pub open spec fn roster_text(list: Seq<(Seq<char>, i64)>) -> Seq<char>
    decreases list.len(),
{
    if list.len() == 0 {
        Seq::empty()
    } else if list.len() == 1 {
        roster_entry(list[0].0, list[0].1)
    } else {
        roster_text(list.drop_last()) + ", "@ + roster_entry(list.last().0, list.last().1)
    }
}

/// The shown name and the identifier of each client.
pub open spec fn listing_of(clients: Seq<AutoShitClient>) -> Seq<(Seq<char>, i64)> {
    clients.map_values(|client: AutoShitClient| (shown_name(client.me), client.me.id))
}

/// A list of names and identifiers, with each name as its characters.
pub open spec fn listing_view(list: Seq<(String, i64)>) -> Seq<(Seq<char>, i64)> {
    list.map_values(|pair: (String, i64)| (pair.0@, pair.1))
}

impl Account {
    /// A copy of this account.
    pub fn duplicate(&self) -> (copy: Account)
        ensures
            copy == *self,
    {
        Account {
            id: self.id,
            name: self.name.clone(),
            username: match &self.username {
                Some(handle) => Some(handle.clone()),
                None => None,
            },
        }
    }

    /// The name this account is shown under.
    pub fn shown_name(&self) -> (name: String)
        ensures
            name@ == shown_name(*self),
    {
        match &self.username {
            Some(handle) => {
                let mut name = "@".to_owned();
                name.append(handle.as_str());
                name
            },
            None => self.name.clone(),
        }
    }
}

impl AccountRegistry {
    /// The shown name and the identifier of every registered account, in
    /// the order in which the map is walked.
    pub fn list(&self) -> (list: Vec<(String, i64)>)
        requires
            self.wf(),
        ensures
            exists|clients: Seq<AutoShitClient>| #[trigger]
                is_snapshot(clients, self@) && listing_view(list@) == listing_of(clients),
    {
        let handles = self.clients();
        let mut list: Vec<(String, i64)> = Vec::new();
        let n: usize = handles.len();
        let mut i: usize = 0;
        while i < n
            invariant
                n == handles@.len(),
                i <= n,
                list@.len() == i,
                forall|k: int|
                    0 <= k < i ==> (#[trigger] list@[k]).0@ == shown_name(handles@[k].me)
                        && list@[k].1 == handles@[k].me.id,
            decreases n - i,
        {
            let name = handles[i].me.shown_name();
            list.push((name, handles[i].me.id));
            i = i + 1;
        }
        proof {
            let clients = clients_of(handles@);
            assert(listing_view(list@) =~= listing_of(clients));
        }
        list
    }
}

/// Writes a roster: `name (id)` for each entry, joined by `, `.
pub fn format_roster(list: &Vec<(String, i64)>) -> (text: String)
    ensures
        text@ == roster_text(listing_view(list@)),
{
    let mut text = String::new();
    let n: usize = list.len();
    let mut i: usize = 0;
    let ghost whole = listing_view(list@);
    while i < n
        invariant
            n == list@.len(),
            i <= n,
            whole == listing_view(list@),
            text@ == roster_text(whole.take(i as int)),
        decreases n - i,
    {
        let ghost before = text@;
        if i > 0 {
            text.append(", ");
        }
        text.append(list[i].0.as_str());
        text.append(" (");
        let id = i64_text(list[i].1);
        text.append(id.as_str());
        text.append(")");
        proof {
            let upto = whole.take(i + 1);
            assert(upto.drop_last() =~= whole.take(i as int));
            assert(upto.last() == (list@[i as int].0@, list@[i as int].1));
            let entry = roster_entry(list@[i as int].0@, list@[i as int].1);
            if i == 0 {
                assert(before =~= Seq::<char>::empty());
                assert(text@ =~= entry);
            } else {
                assert(text@ =~= before + ", "@ + entry);
            }
        }
        i = i + 1;
    }
    proof {
        assert(whole.take(n as int) =~= whole);
    }
    text
}

/// The roster of the registered accounts, for display.
pub fn list_clients(registry: &AccountRegistry) -> (text: String)
    requires
        registry.wf(),
    ensures
        exists|clients: Seq<AutoShitClient>| #[trigger]
            is_snapshot(clients, registry@) && text@ == roster_text(listing_of(clients)),
{
    let list = registry.list();
    format_roster(&list)
}

impl Config {
    /// The configuration that was set at startup. It must have been set.
    pub fn get(shared: Option<&Arc<Config>>) -> (config: Arc<Config>)
        requires
            shared is Some,
        ensures
            Some(&config) == shared,
    {
        match shared {
            Some(config) => share(config),
            None => vstd::pervasive::unreached(),
        }
    }
}

/// What a client connects with under `config`: its credentials, and the
/// request to catch up on what was missed while offline.
pub fn setup_client(config: &Config) -> (setup: ClientSetup)
    ensures
        setup.api_id == config.api_id,
        setup.api_hash == config.api_hash,
        setup.catch_up,
{
    ClientSetup { api_id: config.api_id, api_hash: config.api_hash.clone(), catch_up: true }
}

/// With exactly one account registered, a command that names no target
/// runs against that account and no other.
pub proof fn lemma_single_account_is_default(
    entries: Map<i64, AutoShitClient>,
    id: i64,
    outcome: Result<Seq<AutoShitClient>, TargetError>,
)
    requires
        entries.dom() == set![id],
        targets_of(Seq::empty(), entries, outcome) || resolves_to(Seq::empty(), entries, outcome),
    ensures
        outcome == Ok::<Seq<AutoShitClient>, TargetError>(seq![entries[id]]),
{
    assert(entries.dom().contains(id));
    assert(entries.dom().len() == 1) by {
        assert(set![id] =~= Set::<i64>::empty().insert(id));
    }
    let clients = outcome->Ok_0;
    assert(entries.contains_pair(clients[0].me.id, clients[0]));
    assert(clients[0].me.id == id);
    assert(clients =~= seq![entries[id]]);
}

/// With no account registered, every command fails for want of an account,
/// whatever targets it names.
pub proof fn lemma_no_account(
    ids: Seq<i64>,
    entries: Map<i64, AutoShitClient>,
    outcome: Result<Seq<AutoShitClient>, TargetError>,
)
    requires
        entries.dom().is_empty(),
        targets_of(ids, entries, outcome),
    ensures
        outcome == Err::<Seq<AutoShitClient>, TargetError>(TargetError::NoAccount),
{
}

/// A zero among the targets selects all registered accounts: each of them
/// once and nothing else, wherever the zero stands and whatever else,
/// known or unknown, repeated or not, is listed beside it.
pub proof fn lemma_wildcard_selects_all(
    ids: Seq<i64>,
    entries: Map<i64, AutoShitClient>,
    outcome: Result<Seq<AutoShitClient>, TargetError>,
)
    requires
        entries.dom().finite(),
        ids.contains(ALL_ACCOUNTS),
        resolves_to(ids, entries, outcome) || (!entries.dom().is_empty() && targets_of(
            ids,
            entries,
            outcome,
        )),
    ensures
        outcome is Ok,
        is_snapshot(outcome->Ok_0, entries),
        outcome->Ok_0.len() == entries.dom().len(),
        ids_of(outcome->Ok_0) == entries.dom(),
{
    assert(ids.len() > 0);
    lemma_snapshot_len(outcome->Ok_0, entries);
}

/// Two lists that both hold a zero select the same accounts, however
/// either is ordered or repeats itself.
pub proof fn lemma_wildcard_ignores_the_rest(
    ids: Seq<i64>,
    others: Seq<i64>,
    entries: Map<i64, AutoShitClient>,
    outcome: Result<Seq<AutoShitClient>, TargetError>,
    other_outcome: Result<Seq<AutoShitClient>, TargetError>,
)
    requires
        entries.dom().finite(),
        ids.contains(ALL_ACCOUNTS),
        others.contains(ALL_ACCOUNTS),
        resolves_to(ids, entries, outcome),
        resolves_to(others, entries, other_outcome),
    ensures
        outcome is Ok,
        other_outcome is Ok,
        ids_of(outcome->Ok_0) == ids_of(other_outcome->Ok_0),
        outcome->Ok_0.len() == other_outcome->Ok_0.len(),
        resolves_to(others, entries, outcome),
{
    lemma_wildcard_selects_all(ids, entries, outcome);
    lemma_wildcard_selects_all(others, entries, other_outcome);
}

/// The targets of a command are a set: however often and in whatever order
/// the accounts are named, no account is selected twice, and without a zero
/// exactly the named accounts are selected, in the order of first mention.
pub proof fn lemma_each_account_once(
    ids: Seq<i64>,
    entries: Map<i64, AutoShitClient>,
    clients: Seq<AutoShitClient>,
)
    requires
        is_registry(entries),
        resolves_to(ids, entries, Ok::<Seq<AutoShitClient>, TargetError>(clients)),
    ensures
        forall|i: int, j: int|
            0 <= i < j < clients.len() ==> (#[trigger] clients[i]).me.id != (
            #[trigger] clients[j]).me.id,
        !ids.contains(ALL_ACCOUNTS) && ids.len() > 0 ==> clients.len() == first_mentions(
            ids,
        ).len() && forall|i: int|
            0 <= i < clients.len() ==> (#[trigger] clients[i]).me.id == first_mentions(ids)[i],
{
    lemma_first_mentions(ids);
    if !ids.contains(ALL_ACCOUNTS) && !(ids.len() == 0 && entries.dom().len() == 1) {
        let named = first_mentions(ids);
        assert forall|i: int| 0 <= i < clients.len() implies (#[trigger] clients[i]).me.id
            == named[i] by {
            assert(entries.contains_pair(named[i], clients[i]));
        }
    }
}

/// What the operator is told when the targets of a command do not resolve.
/// An unknown account is named.
pub open spec fn target_error_text(error: TargetError) -> Seq<char> {
    match error {
        TargetError::NoAccount => "No account for operation, please login first"@,
        TargetError::UnknownAccount(id) => "There is no client with peer id = "@ + decimal_text(
            id as int,
        ),
        TargetError::NotSpecified => "Please specify which account to operate"@,
    }
}

impl TargetError {
    /// What went wrong, for the operator to read.
    pub fn message(&self) -> (text: String)
        ensures
            text@ == target_error_text(*self),
    {
        match self {
            TargetError::NoAccount => "No account for operation, please login first".to_owned(),
            TargetError::UnknownAccount(id) => {
                let mut text = "There is no client with peer id = ".to_owned();
                let id = i64_text(*id);
                text.append(id.as_str());
                text
            },
            TargetError::NotSpecified => "Please specify which account to operate".to_owned(),
        }
    }
}

} // verus!
