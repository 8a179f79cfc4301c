//! A federation whose members generate their keys together, without a dealer.

use crate::client::{view_modules, ClientConfig, ClientConfigView};
use crate::dealer::{can_generate, dealt_federation, DealtModule};
use crate::generation::{by_name, server_of, ModuleConfigGenParams, PerModule};
use crate::ids::{one_honest, one_honest_spec, threshold, threshold_spec, PeerId};
use crate::keys::{KeyType, ThresholdKeys};
use crate::modules::{ClientModuleConfig, ModuleKind, ServerModuleConfig};
use crate::params::{api_scheme, ServerConfigParams, ServerConfigParamsView};
use crate::peer_map::view_map;
use crate::server::{ServerConfig, ServerConfigView};
use std::collections::{BTreeMap, HashMap};
use vstd::prelude::*;

verus! {

broadcast use {
    vstd::std_specs::hash::group_hash_axioms,
    vstd::std_specs::btree::group_btree_axioms,
    vstd::laws_cmp::group_laws_cmp,
};

/// A key that the members have to generate, and how many of them it takes to use it.
#[derive(Clone, Copy, Debug, PartialEq, Eq, Structural)]
pub struct KeyGenRequest {
    pub key_type: KeyType,
    pub threshold: usize,
}

/// One member's share of the generated keys.
pub struct GroupKeys {
    pub hbbft: ThresholdKeys,
    pub epoch: ThresholdKeys,
}

/// One member's part of a module, and the part for clients.
#[derive(Debug, PartialEq, Eq)]
pub struct ModulePart {
    pub server: ServerModuleConfig,
    pub client: ClientModuleConfig,
}

/// How far the generation has come.
pub enum DkgState {
    /// Nothing has happened yet.
    Start,
    /// The members are generating keys.
    AwaitKeys,
    /// The members are generating the wallet.
    AwaitWallet(GroupKeys),
    /// The members are generating the mint; the wallet is there.
    AwaitMint(GroupKeys, ModulePart),
    /// The members are generating the lightning module; the wallet and the mint are there.
    AwaitLn(GroupKeys, ModulePart, ModulePart),
    /// There is nothing left to do.
    Over,
}

/// What has happened.
pub enum DkgEvent<E> {
    /// The generation begins.
    Begin,
    /// The key generation has ended, with keys unless it was cancelled.
    Keys(Option<GroupKeys>),
    /// A module's generation has ended: with its part, cancelled, or with an error.
    Module(Result<Option<ModulePart>, E>),
}

/// What is to be done next.
pub enum DkgAction<E> {
    /// We are alone: let a dealer generate everything.
    Deal,
    /// Generate these keys together with the other members.
    RunKeyGen(Vec<KeyGenRequest>),
    /// Generate the module together with the other members.
    GenerateModule(ModuleKind, ModuleConfigGenParams),
    /// Return these configurations.
    Finish(ServerConfig, ClientConfig),
    /// Give up: an API address in the settings is not a URL.
    InvalidAddress,
    /// Return that the generation was cancelled.
    Cancel,
    /// Return the error.
    Fail(E),
}

/// The keys that `total` members generate. The consensus protocol uses a lower threshold of
/// signing keys than the epochs.
pub open spec fn key_gen_plan(total: int) -> Seq<KeyGenRequest> {
    seq![
        KeyGenRequest { key_type: KeyType::Hbbft, threshold: one_honest_spec(total) as usize },
        KeyGenRequest { key_type: KeyType::Epoch, threshold: threshold_spec(total) as usize },
    ]
}

/// Whether the event can happen in the state.
pub open spec fn in_turn<E>(state: DkgState, event: DkgEvent<E>) -> bool {
    match state {
        DkgState::Start => event is Begin,
        DkgState::AwaitKeys => event is Keys,
        DkgState::AwaitWallet(_) => event is Module,
        DkgState::AwaitMint(_, _) => event is Module,
        DkgState::AwaitLn(_, _, _) => event is Module,
        DkgState::Over => false,
    }
}

/// Whether the event brings the last part.
pub open spec fn completes<E>(state: DkgState, event: DkgEvent<E>) -> bool {
    &&& state is AwaitLn
    &&& event matches DkgEvent::Module(Ok(Some(_)))
}

impl ServerConfigParamsView {
    /// Whether the settings describe each peer, and name each peer that clients may ask.
    pub open spec fn nodes_named(self) -> bool {
        self.complete() && self.api.peers.dom().subset_of(self.tls.peer_names.dom())
    }

    /// Whether all API addresses are URLs.
    pub open spec fn all_urls_parse(self) -> bool {
        self.peer_urls_parse() && self.api.addresses_parse(api_scheme())
    }
}

/// The member's own configuration.
pub open spec fn distributed_server(
    params: ServerConfigParamsView,
    our_id: PeerId,
    keys: GroupKeys,
    modules: PerModule<ServerModuleConfig>,
) -> ServerConfigView {
    server_of(
        params,
        our_id,
        params.peers(),
        keys.hbbft@,
        keys.epoch@,
        view_modules(by_name(modules)),
    )
}

/// The configuration for clients.
pub open spec fn distributed_client(
    params: ServerConfigParamsView,
    modules: PerModule<ClientModuleConfig>,
) -> ClientConfigView {
    ClientConfigView {
        federation_name: params.federation_name,
        nodes: params.api.nodes(api_scheme(), params.tls.peer_names),
        modules: view_modules(by_name(modules)),
    }
}

/// Whether the action asks for the module.
pub open spec fn asks_for<E>(
    action: DkgAction<E>,
    kind: ModuleKind,
    params: ServerConfigParamsView,
) -> bool {
    action matches DkgAction::GenerateModule(asked, module_params) && asked == kind
        && module_params@ == params.module_params()
}

/// Whether the action ends the generation with what was gathered.
pub open spec fn ends_with<E>(
    action: DkgAction<E>,
    params: ServerConfigParamsView,
    our_id: PeerId,
    keys: GroupKeys,
    wallet: ModulePart,
    mint: ModulePart,
    ln: ModulePart,
) -> bool {
    match action {
        DkgAction::Finish(server, client) => {
            &&& params.all_urls_parse()
            &&& server@ == distributed_server(
                params,
                our_id,
                keys,
                PerModule { wallet: wallet.server, mint: mint.server, ln: ln.server },
            )
            &&& client@ == distributed_client(
                params,
                PerModule { wallet: wallet.client, mint: mint.client, ln: ln.client },
            )
        },
        DkgAction::InvalidAddress => !params.all_urls_parse(),
        _ => false,
    }
}

/// What the event leads to: the next state and what is to be done.
pub open spec fn is_step<E>(
    state: DkgState,
    event: DkgEvent<E>,
    our_id: PeerId,
    total: int,
    params: ServerConfigParamsView,
    next: DkgState,
    action: DkgAction<E>,
) -> bool {
    match (state, event) {
        (DkgState::Start, DkgEvent::Begin) => if total == 1 {
            next is Over && action is Deal
        } else {
            &&& next is AwaitKeys
            &&& action matches DkgAction::RunKeyGen(plan)
            &&& plan@ == key_gen_plan(total)
        },
        (DkgState::AwaitKeys, DkgEvent::Keys(None)) => next is Over && action is Cancel,
        (DkgState::AwaitKeys, DkgEvent::Keys(Some(keys))) => next == DkgState::AwaitWallet(keys)
            && asks_for(action, ModuleKind::Wallet, params),
        (_, DkgEvent::Module(Err(e))) => next is Over && action == DkgAction::Fail(e),
        (_, DkgEvent::Module(Ok(None))) => next is Over && action is Cancel,
        (DkgState::AwaitWallet(keys), DkgEvent::Module(Ok(Some(wallet)))) => next
            == DkgState::AwaitMint(keys, wallet) && asks_for(action, ModuleKind::Mint, params),
        (DkgState::AwaitMint(keys, wallet), DkgEvent::Module(Ok(Some(mint)))) => next
            == DkgState::AwaitLn(keys, wallet, mint) && asks_for(action, ModuleKind::Ln, params),
        (DkgState::AwaitLn(keys, wallet, mint), DkgEvent::Module(Ok(Some(ln)))) => next is Over
            && ends_with(action, params, our_id, keys, wallet, mint, ln),
        _ => false,
    }
}

/// Whether the configurations are those of a federation that `our_id` makes up alone, as a
/// dealer may have given them.
pub open spec fn dealt_alone<
    G: Fn(ModuleKind, &[PeerId], &ModuleConfigGenParams) -> DealtModule,
>(
    our_id: PeerId,
    peers: &[PeerId],
    params: ServerConfigParamsView,
    generate: G,
    server: ServerConfigView,
    client: ClientConfigView,
) -> bool {
    exists|servers: Map<PeerId, ServerConfigView>|
        {
            &&& server == servers[our_id]
            &&& #[trigger] dealt_federation(
                peers,
                map![our_id => params],
                generate,
                servers,
                client,
            )
        }
}

/// The keys that the members have to generate.
fn plan_keys(peers: &[PeerId]) -> (plan: Vec<KeyGenRequest>)
    requires
        peers@.len() > 0,
    ensures
        plan@ == key_gen_plan(peers@.len() as int),
{
    let mut plan: Vec<KeyGenRequest> = Vec::new();
    plan.push(KeyGenRequest { key_type: KeyType::Hbbft, threshold: one_honest(peers) });
    plan.push(KeyGenRequest { key_type: KeyType::Epoch, threshold: threshold(peers) });
    proof {
        assert(plan@ =~= key_gen_plan(peers@.len() as int));
    }
    plan
}

/// Puts together what was gathered.
fn finish<E>(
    our_id: PeerId,
    params: &ServerConfigParams,
    keys: GroupKeys,
    wallet: ModulePart,
    mint: ModulePart,
    ln: ModulePart,
) -> (action: DkgAction<E>)
    requires
        params@.nodes_named(),
    ensures
        ends_with(action, params@, our_id, keys, wallet, mint, ln),
{
    proof {
        assert(params@.tls.peer_names.dom() =~= params.tls.peer_names@.dom());
    }
    let peers = match params.try_peers() {
        Some(peers) => peers,
        None => {
            return DkgAction::InvalidAddress;
        },
    };
    let nodes = match params.api.try_nodes("ws://", &params.tls.peer_names) {
        Some(nodes) => nodes,
        None => {
            return DkgAction::InvalidAddress;
        },
    };
    let server = ServerConfig::assemble(
        params,
        our_id,
        peers,
        keys.hbbft,
        keys.epoch,
        PerModule { wallet: wallet.server, mint: mint.server, ln: ln.server },
    );
    let client = ClientConfig::assemble(
        params,
        nodes,
        PerModule { wallet: wallet.client, mint: mint.client, ln: ln.client },
    );
    DkgAction::Finish(server, client)
}

impl ServerConfig {
    /// One step of the generation of the configurations of `our_id` together with the other
    /// `peers`: what is to be done after the event, and the state in which to wait for the next
    /// one. The generation begins with the event `Begin` in the state `Start`.
    pub fn distributed_gen<E>(
        state: DkgState,
        event: DkgEvent<E>,
        our_id: PeerId,
        peers: &[PeerId],
        params: &ServerConfigParams,
    ) -> (step: (DkgState, DkgAction<E>))
        requires
            peers@.len() > 0,
            in_turn(state, event),
            completes(state, event) ==> params@.nodes_named(),
        ensures
            is_step(state, event, our_id, peers@.len() as int, params@, step.0, step.1),
    {
        match event {
            DkgEvent::Begin => {
                // in case we are running by ourselves, avoid DKG
                if peers.len() == 1 {
                    (DkgState::Over, DkgAction::Deal)
                } else {
                    (DkgState::AwaitKeys, DkgAction::RunKeyGen(plan_keys(peers)))
                }
            },
            DkgEvent::Keys(None) => (DkgState::Over, DkgAction::Cancel),
            DkgEvent::Keys(Some(keys)) => (
                DkgState::AwaitWallet(keys),
                DkgAction::GenerateModule(ModuleKind::Wallet, params.module_params()),
            ),
            DkgEvent::Module(Err(e)) => (DkgState::Over, DkgAction::Fail(e)),
            DkgEvent::Module(Ok(None)) => (DkgState::Over, DkgAction::Cancel),
            DkgEvent::Module(Ok(Some(part))) => match state {
                DkgState::AwaitWallet(keys) => (
                    DkgState::AwaitMint(keys, part),
                    DkgAction::GenerateModule(ModuleKind::Mint, params.module_params()),
                ),
                DkgState::AwaitMint(keys, wallet) => (
                    DkgState::AwaitLn(keys, wallet, part),
                    DkgAction::GenerateModule(ModuleKind::Ln, params.module_params()),
                ),
                DkgState::AwaitLn(keys, wallet, mint) => (
                    DkgState::Over,
                    finish(our_id, params, keys, wallet, mint, part),
                ),
                _ => (DkgState::Over, DkgAction::Cancel),
            },
        }
    }

    /// Our own configuration and the one for clients, of what a dealer gave the federation.
    pub fn own_of(
        our_id: PeerId,
        configs: (BTreeMap<PeerId, ServerConfig>, ClientConfig),
    ) -> (own: (ServerConfig, ClientConfig))
        requires
            configs.0@.contains_key(our_id),
        ensures
            own.0@ == configs.0@[our_id]@,
            own.1 == configs.1,
    {
        (configs.0.get(&our_id).unwrap().clone(), configs.1)
    }

    /// The configurations of a federation that has no member but us, as a dealer gives them.
    /// `None` if an API address in the settings is not a URL.
    pub fn alone_gen<G: Fn(ModuleKind, &[PeerId], &ModuleConfigGenParams) -> DealtModule>(
        our_id: PeerId,
        peers: &[PeerId],
        params: &ServerConfigParams,
        rng: &mut rand::rngs::StdRng,
        generate: G,
    ) -> (res: Option<(ServerConfig, ClientConfig)>)
        requires
            our_id == 0,
            peers@ == seq![our_id],
            params@.complete(),
            params@.api.peers.dom().subset_of(set![our_id]),
            can_generate(generate, peers, params@.module_params()),
        ensures
            match res {
                Some((server, client)) => params@.all_urls_parse() && dealt_alone(
                    our_id,
                    peers,
                    params@,
                    generate,
                    server@,
                    client@,
                ),
                None => !params@.all_urls_parse(),
            },
    {
        let mut settings: HashMap<PeerId, ServerConfigParams> = HashMap::new();
        settings.insert(our_id, params.clone());
        let ghost ours = map![our_id => params@];
        proof {
            assert(view_map(settings@) =~= ours);
            assert(peers@.to_set() =~= set![our_id]) by {
                assert(peers@[0] == our_id);
            }
            assert(crate::dealer::dealer_urls_parse(peers@.to_set(), ours)
                == params@.all_urls_parse()) by {
                assert(set![our_id].contains(our_id));
            }
        }
        match ServerConfig::try_trusted_dealer_gen(peers, &settings, rng, generate) {
            Some(configs) => {
                let ghost views = view_map(configs.0@);
                let ghost client = configs.1@;
                proof {
                    assert(views.contains_key(our_id));
                }
                let own = ServerConfig::own_of(our_id, configs);
                proof {
                    assert(own.0@ == views[our_id]);
                    assert(dealt_federation(peers, ours, generate, views, client));
                }
                Some(own)
            },
            None => None,
        }
    }
}

} // verus!
