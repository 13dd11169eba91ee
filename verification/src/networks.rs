//! The chain registry and the chain session: which networks are known,
//! which one is active, and how the session switches between them.

use crate::lists::lemma_index_of_unique;
use crate::session::Session;
use crate::wallet::{
    identity_of, lemma_address_independent_of_chain, IdentityError, SigningIdentity,
};
use vstd::prelude::*;

verus! {

/// One entry of the chain registry.
#[derive(Debug, PartialEq, Eq)]
pub struct Network {
    /// The display name.
    pub name: String,
    /// The RPC endpoint.
    pub url: String,
    /// The base URL of the block explorer.
    pub explorer: String,
    /// The symbol of the native asset.
    pub coin: String,
}

/// A [`Network`] as plain sequences of characters.
pub struct NetworkView {
    pub name: Seq<char>,
    pub url: Seq<char>,
    pub explorer: Seq<char>,
    pub coin: Seq<char>,
}

impl View for Network {
    type V = NetworkView;

    open spec fn view(&self) -> NetworkView {
        NetworkView {
            name: self.name@,
            url: self.url@,
            explorer: self.explorer@,
            coin: self.coin@,
        }
    }
}

impl Clone for Network {
    fn clone(&self) -> (r: Network)
        ensures
            r@ == self@,
    {
        Network {
            name: self.name.clone(),
            url: self.url.clone(),
            explorer: self.explorer.clone(),
            coin: self.coin.clone(),
        }
    }
}

/// The networks that the wallet knows, by chain id. No chain id occurs
/// twice; the entries keep the order in which they were registered.
pub struct ChainRegistry {
    ids: Vec<u32>,
    networks: Vec<Network>,
}

impl ChainRegistry {
    /// The chain ids, in registration order.
    pub closed spec fn ids(&self) -> Seq<u32> {
        self.ids@
    }

    /// The networks, in registration order.
    pub closed spec fn networks(&self) -> Seq<NetworkView> {
        Seq::new(self.networks@.len(), |i: int| self.networks@[i]@)
    }

    /// Every chain id has one network, and no chain id occurs twice.
    pub open spec fn wf(&self) -> bool {
        self.ids().len() == self.networks().len() && self.ids().no_duplicates()
    }

    /// Whether `chain_id` is registered.
    pub open spec fn contains(&self, chain_id: u32) -> bool {
        self.ids().contains(chain_id)
    }

    /// The network registered for `chain_id`.
    pub open spec fn network(&self, chain_id: u32) -> NetworkView {
        self.networks()[self.ids().index_of(chain_id)]
    }

    /// An empty registry.
    pub fn new() -> (r: ChainRegistry)
        ensures
            r.wf(),
            r.ids().len() == 0,
    {
        ChainRegistry { ids: Vec::new(), networks: Vec::new() }
    }

    /// Number of registered chains.
    pub fn len(&self) -> (r: usize)
        requires
            self.wf(),
        ensures
            r == self.ids().len(),
    {
        self.ids.len()
    }

    /// Where `chain_id` stands in the registry, if it is registered.
    pub fn position(&self, chain_id: u32) -> (r: Option<usize>)
        requires
            self.wf(),
        ensures
            match r {
                Some(i) => self.contains(chain_id) && i < self.ids().len() && i
                    == self.ids().index_of(chain_id) && self.ids()[i as int] == chain_id,
                None => !self.contains(chain_id),
            },
    {
        let n: usize = self.ids.len();
        let mut i: usize = 0;
        while i < n
            invariant
                i <= n,
                n == self.ids@.len(),
                self.ids@.no_duplicates(),
                forall|j: int| 0 <= j < i ==> self.ids@[j] != chain_id,
            decreases n - i,
        {
            if self.ids[i] == chain_id {
                proof {
                    lemma_index_of_unique(self.ids@, i as int);
                }
                return Some(i);
            }
            i = i + 1;
        }
        None
    }

    /// Registers `network` under `chain_id`. An entry that is already
    /// there for this chain id is replaced; every other entry stays.
    pub fn register(&mut self, chain_id: u32, network: Network)
        requires
            old(self).wf(),
        ensures
            final(self).wf(),
            final(self).contains(chain_id),
            final(self).network(chain_id) == network@,
            forall|other: u32|
                other != chain_id ==> final(self).contains(other) == old(self).contains(other),
            forall|other: u32|
                other != chain_id && old(self).contains(other) ==> final(self).network(other)
                    == old(self).network(other),
            old(self).contains(chain_id) ==> final(self).ids() == old(self).ids(),
            !old(self).contains(chain_id) ==> final(self).ids() == old(self).ids().push(chain_id),
    {
        let ghost before = *self;
        match self.position(chain_id) {
            Some(i) => {
                self.networks.set(i, network);
                proof {
                    assert(self.ids() == before.ids());
                    assert(self.networks() =~= before.networks().update(i as int, network@));
                    assert forall|other: u32|
                        other != chain_id && before.contains(other) implies self.network(other)
                        == before.network(other) by {
                        let k = before.ids().index_of(other);
                        assert(0 <= k < before.ids().len() && before.ids()[k] == other);
                        assert(k != i as int);
                    }
                }
            },
            None => {
                self.ids.push(chain_id);
                self.networks.push(network);
                proof {
                    let n = before.ids().len() as int;
                    assert(self.ids() =~= before.ids().push(chain_id));
                    assert(self.networks() =~= before.networks().push(network@));
                    assert(self.ids()[n] == chain_id);
                    assert(self.ids().contains(chain_id));
                    assert forall|a: int, b: int|
                        0 <= a < self.ids().len() && 0 <= b < self.ids().len() && a
                            != b implies self.ids()[a] != self.ids()[b] by {
                        if a < n && b < n {
                            assert(before.ids()[a] != before.ids()[b]);
                        } else if a < n {
                            assert(before.ids().contains(before.ids()[a]));
                        } else {
                            assert(before.ids().contains(before.ids()[b]));
                        }
                    }
                    lemma_index_of_unique(self.ids(), n);
                    assert forall|other: u32| other != chain_id implies self.contains(other)
                        == before.contains(other) by {
                        if before.contains(other) {
                            let k = before.ids().index_of(other);
                            assert(0 <= k < n && before.ids()[k] == other);
                            assert(self.ids()[k] == other);
                        } else if self.ids().contains(other) {
                            let k = self.ids().index_of(other);
                            assert(0 <= k < self.ids().len() && self.ids()[k] == other);
                            assert(k < n);
                            assert(before.ids()[k] == other);
                        }
                    }
                    assert forall|other: u32|
                        other != chain_id && before.contains(other) implies self.network(other)
                        == before.network(other) by {
                        let k = before.ids().index_of(other);
                        assert(0 <= k < n && before.ids()[k] == other);
                        assert(self.ids()[k] == other);
                        lemma_index_of_unique(self.ids(), k);
                    }
                }
            },
        }
    }

    /// The network registered for `chain_id`, if there is one.
    pub fn get(&self, chain_id: u32) -> (r: Option<&Network>)
        requires
            self.wf(),
        ensures
            match r {
                Some(network) => self.contains(chain_id) && network@ == self.network(chain_id),
                None => !self.contains(chain_id),
            },
    {
        match self.position(chain_id) {
            Some(i) => Some(&self.networks[i]),
            None => None,
        }
    }
}

/// The RPC endpoint of the chain `chain_id`.
pub fn get_network_url_by_chain_id(registry: &ChainRegistry, chain_id: &u32) -> (r: String)
    requires
        registry.wf(),
        registry.contains(*chain_id),
    ensures
        r@ == registry.network(*chain_id).url,
{
    let network: &Network = registry.get(*chain_id).unwrap();
    network.url.clone()
}

/// The display name of the chain `chain_id`.
pub fn get_network_name_by_chain_id(registry: &ChainRegistry, chain_id: &u32) -> (r: String)
    requires
        registry.wf(),
        registry.contains(*chain_id),
    ensures
        r@ == registry.network(*chain_id).name,
{
    let network: &Network = registry.get(*chain_id).unwrap();
    network.name.clone()
}

/// The block explorer of the chain `chain_id`.
pub fn get_network_explorer_by_chain_id(registry: &ChainRegistry, chain_id: &u32) -> (r: String)
    requires
        registry.wf(),
        registry.contains(*chain_id),
    ensures
        r@ == registry.network(*chain_id).explorer,
{
    let network: &Network = registry.get(*chain_id).unwrap();
    network.explorer.clone()
}

/// The native asset of the chain `chain_id`.
pub fn get_network_coin_by_chain_id(registry: &ChainRegistry, chain_id: &u32) -> (r: String)
    requires
        registry.wf(),
        registry.contains(*chain_id),
    ensures
        r@ == registry.network(*chain_id).coin,
{
    let network: &Network = registry.get(*chain_id).unwrap();
    network.coin.clone()
}

/// The active chain id of the session.
pub fn get_selected_chain_id(session: &Session) -> (r: u32)
    ensures
        r == session.selected_chain,
{
    session.selected_chain
}

/// The display name of the active chain.
pub fn get_selected_chain_name(session: &Session, registry: &ChainRegistry) -> (r: String)
    requires
        registry.wf(),
        registry.contains(session.selected_chain),
    ensures
        r@ == registry.network(session.selected_chain).name,
{
    let chain_id: u32 = get_selected_chain_id(session);
    get_network_name_by_chain_id(registry, &chain_id)
}

/// The block explorer of the active chain.
pub fn get_selected_chain_explorer(session: &Session, registry: &ChainRegistry) -> (r: String)
    requires
        registry.wf(),
        registry.contains(session.selected_chain),
    ensures
        r@ == registry.network(session.selected_chain).explorer,
{
    let chain_id: u32 = get_selected_chain_id(session);
    get_network_explorer_by_chain_id(registry, &chain_id)
}

/// The native asset of the active chain.
pub fn get_selected_chain_coin(session: &Session, registry: &ChainRegistry) -> (r: String)
    requires
        registry.wf(),
        registry.contains(session.selected_chain),
    ensures
        r@ == registry.network(session.selected_chain).coin,
{
    let chain_id: u32 = get_selected_chain_id(session);
    get_network_coin_by_chain_id(registry, &chain_id)
}

/// The registered chain ids, in registration order.
pub fn get_chain_ids(registry: &ChainRegistry) -> (r: Vec<u32>)
    requires
        registry.wf(),
    ensures
        r@ == registry.ids(),
{
    registry.ids.clone()
}

/// The display names of the registered chains, in the order of
/// [`get_chain_ids`].
pub fn get_chain_names(registry: &ChainRegistry) -> (r: Vec<String>)
    requires
        registry.wf(),
    ensures
        r@.len() == registry.ids().len(),
        forall|i: int| 0 <= i < r@.len() ==> r@[i]@ == registry.networks()[i].name,
{
    let n: usize = registry.networks.len();
    let mut names: Vec<String> = Vec::new();
    let mut i: usize = 0;
    while i < n
        invariant
            i <= n,
            n == registry.networks@.len(),
            names@.len() == i,
            forall|j: int| 0 <= j < i ==> names@[j]@ == registry.networks@[j].name@,
        decreases n - i,
    {
        names.push(registry.networks[i].name.clone());
        i = i + 1;
    }
    names
}

/// The chain that a selection from the list of [`get_chain_names`] stands
/// for: none when nothing was selected or the index is off the list.
pub fn change_network_request(registry: &ChainRegistry, selection: Option<usize>) -> (r: Option<u32>)
    requires
        registry.wf(),
    ensures
        r == match selection {
            Some(i) => if i < registry.ids().len() {
                Some(registry.ids()[i as int])
            } else {
                None
            },
            None => None,
        },
{
    match selection {
        Some(i) => {
            if i < registry.ids.len() {
                Some(registry.ids[i])
            } else {
                None
            }
        },
        None => None,
    }
}

/// Why the session did not switch to another chain.
#[derive(Clone, Copy, Debug, PartialEq, Eq, Structural)]
pub enum SwitchError {
    /// The registry has no such chain.
    UnknownChain,
    /// No account is unlocked, so there is no secret to rebuild from.
    Locked,
    /// The identity could not be rebuilt.
    Identity(IdentityError),
}

/// What a switch to another chain comes to: where to connect, which asset
/// to fetch a rate for, and the identity on the new chain.
#[derive(Debug, PartialEq, Eq)]
pub struct NetworkSwitch {
    /// The chain that is switched to.
    pub chain_id: u32,
    /// The RPC endpoint of that chain.
    pub url: String,
    /// The native asset of that chain.
    pub coin: String,
    /// The identity of the unlocked account on that chain.
    pub wallet: SigningIdentity,
}

/// What a switch of `session` to `chain_id` comes to: the network must be
/// registered, an account must be unlocked, and its secret must give an
/// identity on the new chain.
pub open spec fn switch_plan(session: &Session, registry: &ChainRegistry, chain_id: u32) -> Result<
    (NetworkView, SigningIdentity),
    SwitchError,
> {
    if !registry.contains(chain_id) {
        Err(SwitchError::UnknownChain)
    } else {
        match session.account_key {
            None => Err(SwitchError::Locked),
            Some(key) => match identity_of(key@, chain_id) {
                Ok(identity) => Ok((registry.network(chain_id), identity)),
                Err(e) => Err(SwitchError::Identity(e)),
            },
        }
    }
}

/// Whether `switch` is what [`switch_plan`] gives.
pub open spec fn is_planned_switch(
    switch: &NetworkSwitch,
    session: &Session,
    registry: &ChainRegistry,
    chain_id: u32,
) -> bool {
    &&& switch_plan(session, registry, chain_id) matches Ok(plan)
    &&& switch.chain_id == chain_id
    &&& switch.url@ == plan.0.url
    &&& switch.coin@ == plan.0.coin
    &&& switch.wallet == plan.1
}

/// Works out a switch to the chain `chain_id` without changing the
/// session, so that the caller can connect before it commits.
pub fn plan_network_switch(session: &Session, registry: &ChainRegistry, chain_id: u32) -> (r:
    Result<NetworkSwitch, SwitchError>)
    requires
        registry.wf(),
    ensures
        match r {
            Ok(switch) => is_planned_switch(&switch, session, registry, chain_id),
            Err(e) => switch_plan(session, registry, chain_id) matches Err(cause) && cause == e,
        },
{
    let network: &Network = match registry.get(chain_id) {
        Some(network) => network,
        None => {
            return Err(SwitchError::UnknownChain);
        },
    };
    match &session.account_key {
        None => Err(SwitchError::Locked),
        Some(key) => match SigningIdentity::build(key.as_str(), chain_id) {
            Ok(wallet) => Ok(
                NetworkSwitch {
                    chain_id,
                    url: network.url.clone(),
                    coin: network.coin.clone(),
                    wallet,
                },
            ),
            Err(e) => Err(SwitchError::Identity(e)),
        },
    }
}

/// Switches the session to the chain `value`: the active chain id
/// becomes `value` and the identity is rebuilt from the secret that the
/// session holds, without asking for the password again. The new identity
/// has the address of the old one and is bound to the new chain. The
/// switch is all or nothing: where it fails, the session stays exactly as
/// it was.
pub fn set_network(session: &mut Session, registry: &ChainRegistry, value: u32) -> (r: Result<
    NetworkSwitch,
    SwitchError,
>)
    requires
        registry.wf(),
    ensures
        match r {
            Ok(switch) => is_planned_switch(&switch, old(session), registry, value)
                && final(session).selected_chain == value
                && final(session).wallet == Some(switch.wallet)
                && final(session).account_key == old(session).account_key
                && final(session).account_name == old(session).account_name,
            Err(e) => (switch_plan(old(session), registry, value) matches Err(cause) && cause == e)
                && *final(session) == *old(session),
        },
        old(session).wf() ==> final(session).wf(),
        r is Ok && old(session).wf() ==> (old(session).wallet matches Some(before)
            && final(session).wallet matches Some(after) && after.address == before.address
            && after.chain_id == value),
{
    proof {
        if old(session).account_key is Some {
            lemma_address_independent_of_chain(
                old(session).account_key->0@,
                old(session).selected_chain,
                value,
            );
        }
    }
    match plan_network_switch(session, registry, value) {
        Ok(switch) => {
            session.selected_chain = value;
            session.wallet = Some(switch.wallet);
            Ok(switch)
        },
        Err(e) => Err(e),
    }
}

} // verus!
