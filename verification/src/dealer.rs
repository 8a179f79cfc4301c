//! A federation whose keys one trusted dealer hands out.

use crate::client::{view_modules, ClientConfig, ClientConfigView};
use crate::generation::{
    by_name, server_of, ModuleConfigGenParams, ModuleConfigGenParamsView, PerModule,
};
use crate::ids::PeerId;
use crate::keys::{deal_keys, one_key_for, ThresholdKeys, ThresholdKeysView};
use crate::modules::{kind_of, ClientModuleConfig, ModuleKind, ServerModuleConfig};
use crate::params::{api_scheme, ServerConfigParams, ServerConfigParamsView};
use crate::peer_map::{collect_hash_map, collect_map, view_map};
use crate::server::{ServerConfig, ServerConfigView};
use crate::text::{peer_name, peer_name_spec};
use std::collections::{BTreeMap, HashMap};
use vstd::prelude::*;

verus! {

broadcast use {
    vstd::std_specs::hash::group_hash_axioms,
    vstd::std_specs::btree::group_btree_axioms,
    vstd::laws_cmp::group_laws_cmp,
};

/// What a module hands out: each peer's own part, and the part for clients.
#[derive(Debug, PartialEq, Eq)]
pub struct DealtModule {
    pub servers: BTreeMap<PeerId, ServerModuleConfig>,
    pub client: ClientModuleConfig,
}

/// Everything that a dealer hands out.
pub struct Deal {
    pub hbbft: Map<PeerId, ThresholdKeysView>,
    pub epoch: Map<PeerId, ThresholdKeysView>,
    pub modules: PerModule<DealtModule>,
}

/// The peer's parts of the modules, under the modules' names.
pub open spec fn server_modules(modules: PerModule<DealtModule>, id: PeerId) -> Map<
    Seq<char>,
    Seq<char>,
> {
    Map::new(
        |name: Seq<char>| kind_of(name) is Some,
        |name: Seq<char>| modules.of(kind_of(name)->0).servers@[id]@,
    )
}

/// The clients' parts of the modules, under the modules' names.
pub open spec fn client_modules(modules: PerModule<DealtModule>) -> Map<Seq<char>, Seq<char>> {
    Map::new(
        |name: Seq<char>| kind_of(name) is Some,
        |name: Seq<char>| modules.of(kind_of(name)->0).client@,
    )
}

/// How the dealer calls the peers.
pub open spec fn dealer_names(peers: Set<PeerId>) -> Map<PeerId, Seq<char>> {
    Map::new(|id: PeerId| peers.contains(id), |id: PeerId| peer_name_spec(id))
}

/// The configuration of each peer.
pub open spec fn dealer_servers(
    peers: Set<PeerId>,
    params: Map<PeerId, ServerConfigParamsView>,
    deal: Deal,
) -> Map<PeerId, ServerConfigView> {
    Map::new(
        |id: PeerId| peers.contains(id),
        |id: PeerId|
            server_of(
                params[id],
                id,
                params[id].peers(),
                deal.hbbft[id],
                deal.epoch[id],
                server_modules(deal.modules, id),
            ),
    )
}

/// The configuration for clients. It follows the settings of peer 0.
pub open spec fn dealer_client(
    peers: Set<PeerId>,
    params: Map<PeerId, ServerConfigParamsView>,
    modules: PerModule<DealtModule>,
) -> ClientConfigView {
    ClientConfigView {
        federation_name: params[0].federation_name,
        nodes: params[0].api.nodes(api_scheme(), dealer_names(peers)),
        modules: client_modules(modules),
    }
}

/// Whether there are complete settings for each peer, and for peer 0, who speaks to clients of
/// these peers only.
pub open spec fn dealer_ready(
    peers: Set<PeerId>,
    params: Map<PeerId, ServerConfigParamsView>,
) -> bool {
    &&& params.contains_key(0)
    &&& params[0].api.peers.dom().subset_of(peers)
    &&& forall|id: PeerId| #[trigger]
        peers.contains(id) ==> params.contains_key(id) && params[id].complete()
}

/// Whether all API addresses in the settings are URLs.
pub open spec fn dealer_urls_parse(
    peers: Set<PeerId>,
    params: Map<PeerId, ServerConfigParamsView>,
) -> bool {
    &&& params[0].api.addresses_parse(api_scheme())
    &&& forall|id: PeerId| #[trigger] peers.contains(id) ==> params[id].peer_urls_parse()
}

/// Whether each module has a part for each of `peers`.
pub open spec fn modules_cover(modules: PerModule<DealtModule>, peers: Set<PeerId>) -> bool {
    forall|kind: ModuleKind| peers.subset_of((#[trigger] modules.of(kind)).servers@.dom())
}

/// Whether `generate` can be asked for each module's parts, and has one for each peer.
pub open spec fn can_generate<
    G: Fn(ModuleKind, &[PeerId], &ModuleConfigGenParams) -> DealtModule,
>(generate: G, peers: &[PeerId], params: ModuleConfigGenParamsView) -> bool {
    &&& forall|kind: ModuleKind, p: &ModuleConfigGenParams|
        p@ == params ==> #[trigger] generate.requires((kind, peers, p))
    &&& forall|kind: ModuleKind, p: &ModuleConfigGenParams, dealt: DealtModule|
        p@ == params && #[trigger] generate.ensures((kind, peers, p), dealt)
            ==> peers@.to_set().subset_of(dealt.servers@.dom())
}

/// Whether `modules` are what `generate` may have given for the settings.
pub open spec fn generated_by<
    G: Fn(ModuleKind, &[PeerId], &ModuleConfigGenParams) -> DealtModule,
>(
    generate: G,
    peers: &[PeerId],
    params: ModuleConfigGenParamsView,
    modules: PerModule<DealtModule>,
) -> bool {
    exists|p: ModuleConfigGenParams|
        {
            &&& #[trigger] p@ == params
            &&& generate.ensures((ModuleKind::Wallet, peers, &p), modules.wallet)
            &&& generate.ensures((ModuleKind::Mint, peers, &p), modules.mint)
            &&& generate.ensures((ModuleKind::Ln, peers, &p), modules.ln)
        }
}

/// Whether a dealer may hand this out to `peers`: one key for the consensus and one for the
/// epochs, each dealt to exactly these peers, and modules that `generate` gave.
pub open spec fn possible_deal<
    G: Fn(ModuleKind, &[PeerId], &ModuleConfigGenParams) -> DealtModule,
>(
    peers: &[PeerId],
    params: Map<PeerId, ServerConfigParamsView>,
    generate: G,
    deal: Deal,
) -> bool {
    &&& one_key_for(peers@.to_set(), deal.hbbft)
    &&& one_key_for(peers@.to_set(), deal.epoch)
    &&& generated_by(generate, peers, params[0].module_params(), deal.modules)
}

/// Whether the configurations are those of a federation of `peers` to which a dealer has handed
/// out something.
pub open spec fn dealt_federation<
    G: Fn(ModuleKind, &[PeerId], &ModuleConfigGenParams) -> DealtModule,
>(
    peers: &[PeerId],
    params: Map<PeerId, ServerConfigParamsView>,
    generate: G,
    servers: Map<PeerId, ServerConfigView>,
    client: ClientConfigView,
) -> bool {
    exists|deal: Deal|
        {
            &&& possible_deal(peers, params, generate, deal)
            &&& servers == #[trigger] dealer_servers(peers@.to_set(), params, deal)
            &&& client == dealer_client(peers@.to_set(), params, deal.modules)
        }
}

/// The peer's parts of the modules.
fn parts_of(modules: &PerModule<DealtModule>, id: PeerId) -> (parts: PerModule<ServerModuleConfig>)
    requires
        forall|kind: ModuleKind| (#[trigger] modules.of(kind)).servers@.contains_key(id),
    ensures
        view_modules(by_name(parts)) == server_modules(*modules, id),
{
    proof {
        assert(modules.of(ModuleKind::Wallet).servers@.contains_key(id));
        assert(modules.of(ModuleKind::Mint).servers@.contains_key(id));
        assert(modules.of(ModuleKind::Ln).servers@.contains_key(id));
    }
    let parts = PerModule {
        wallet: modules.wallet.servers.get(&id).unwrap().clone(),
        mint: modules.mint.servers.get(&id).unwrap().clone(),
        ln: modules.ln.servers.get(&id).unwrap().clone(),
    };
    proof {
        assert(view_modules(by_name(parts)) =~= server_modules(*modules, id));
    }
    parts
}

/// Whether all API addresses in the settings are URLs.
fn urls_parse(peers: &[PeerId], params: &HashMap<PeerId, ServerConfigParams>) -> (parse: bool)
    requires
        dealer_ready(peers@.to_set(), view_map(params@)),
    ensures
        parse == dealer_urls_parse(peers@.to_set(), view_map(params@)),
{
    let ghost views = view_map(params@);
    proof {
        assert(views.contains_key(0));
    }
    let peer0 = params.get(&0).unwrap();
    if peer0.api.urls("ws://").is_none() {
        return false;
    }
    for i in 0..peers.len()
        invariant
            views == view_map(params@),
            dealer_ready(peers@.to_set(), views),
            views[0].api.addresses_parse(api_scheme()),
            forall|j: int| 0 <= j < i ==> views[#[trigger] peers@[j]].peer_urls_parse(),
    {
        let id: PeerId = peers[i];
        proof {
            assert(peers@.to_set().contains(id));
            assert(views.contains_key(id));
        }
        let settings = params.get(&id).unwrap();
        if settings.api_urls().is_none() {
            return false;
        }
    }
    proof {
        assert forall|id: PeerId| #[trigger]
            peers@.to_set().contains(id) implies views[id].peer_urls_parse() by {
            let j = choose|j: int| 0 <= j < peers@.len() && peers@[j] == id;
            assert(views[peers@[j]].peer_urls_parse());
        }
    }
    true
}

impl ServerConfig {
    /// Puts together the configurations of a federation from what a dealer hands out.
    pub fn from_deal(
        peers: &[PeerId],
        params: &HashMap<PeerId, ServerConfigParams>,
        hbbft: &BTreeMap<PeerId, ThresholdKeys>,
        epoch: &BTreeMap<PeerId, ThresholdKeys>,
        modules: &PerModule<DealtModule>,
    ) -> (configs: (BTreeMap<PeerId, ServerConfig>, ClientConfig))
        requires
            dealer_ready(peers@.to_set(), view_map(params@)),
            dealer_urls_parse(peers@.to_set(), view_map(params@)),
            peers@.to_set().subset_of(hbbft@.dom()),
            peers@.to_set().subset_of(epoch@.dom()),
            modules_cover(*modules, peers@.to_set()),
        ensures
            view_map(configs.0@) == dealer_servers(
                peers@.to_set(),
                view_map(params@),
                (Deal { hbbft: view_map(hbbft@), epoch: view_map(epoch@), modules: *modules }),
            ),
            configs.1@ == dealer_client(peers@.to_set(), view_map(params@), *modules),
    {
        let ghost views = view_map(params@);
        let ghost deal = Deal {
            hbbft: view_map(hbbft@),
            epoch: view_map(epoch@),
            modules: *modules,
        };
        let configure = |id: PeerId| -> (config: ServerConfig)
            requires
                params@.contains_key(id),
                params@[id]@.complete(),
                params@[id]@.peer_urls_parse(),
                hbbft@.contains_key(id),
                epoch@.contains_key(id),
                forall|kind: ModuleKind| (#[trigger] modules.of(kind)).servers@.contains_key(id),
            ensures
                config@ == server_of(
                    params@[id]@,
                    id,
                    params@[id]@.peers(),
                    hbbft@[id]@,
                    epoch@[id]@,
                    server_modules(*modules, id),
                ),
            {
                let settings = params.get(&id).unwrap();
                ServerConfig::assemble(
                    settings,
                    id,
                    settings.peers(),
                    hbbft.get(&id).unwrap().clone(),
                    epoch.get(&id).unwrap().clone(),
                    parts_of(modules, id),
                )
            };
        proof {
            assert forall|id: PeerId| peers@.contains(id) implies #[trigger] configure.requires(
                (id,),
            ) by {
                assert(peers@.to_set().contains(id));
                assert(views.contains_key(id));
                assert(views[id] == params@[id]@);
            }
        }
        let servers = collect_map(peers, configure);
        proof {
            assert(view_map(servers@) =~= dealer_servers(peers@.to_set(), views, deal));
        }
        let name_of = |id: PeerId| -> (name: String)
            ensures
                name@ == peer_name_spec(id),
            { peer_name(id) };
        let names = collect_hash_map(peers, name_of);
        proof {
            assert(view_map(names@) =~= dealer_names(peers@.to_set()));
            assert(views.contains_key(0));
        }
        let peer0 = params.get(&0).unwrap();
        let nodes = peer0.api.nodes("ws://", &names);
        let parts = PerModule {
            wallet: modules.wallet.client.clone(),
            mint: modules.mint.client.clone(),
            ln: modules.ln.client.clone(),
        };
        proof {
            assert(view_modules(by_name(parts)) =~= client_modules(*modules));
        }
        (servers, ClientConfig::assemble(peer0, nodes, parts))
    }

    /// The configurations of a federation of `peers` with the given settings, with new keys
    /// that are dealt at random. `generate` gives each module's parts.
    ///
    /// The keys of the consensus and those of the epochs are two draws, one after the other, from
    /// `rng`. The contract says of each that it is one key for these peers. It does not say that
    /// they are two draws, nor which: chance decides, and two draws may coincide.
    /// `from_deal` says what follows from them.
    pub fn trusted_dealer_gen<
        G: Fn(ModuleKind, &[PeerId], &ModuleConfigGenParams) -> DealtModule,
    >(
        peers: &[PeerId],
        params: &HashMap<PeerId, ServerConfigParams>,
        rng: &mut rand::rngs::StdRng,
        generate: G,
    ) -> (configs: (BTreeMap<PeerId, ServerConfig>, ClientConfig))
        requires
            peers@.len() > 0,
            dealer_ready(peers@.to_set(), view_map(params@)),
            dealer_urls_parse(peers@.to_set(), view_map(params@)),
            can_generate(generate, peers, view_map(params@)[0].module_params()),
        ensures
            dealt_federation(
                peers,
                view_map(params@),
                generate,
                view_map(configs.0@),
                configs.1@,
            ),
    {
        let hbbft = deal_keys(peers, rng);
        let epoch = deal_keys(peers, rng);
        let ghost views = view_map(params@);
        proof {
            assert(views.contains_key(0));
        }
        let module_params = params.get(&0).unwrap().module_params();
        let modules = PerModule {
            wallet: generate(ModuleKind::Wallet, peers, &module_params),
            mint: generate(ModuleKind::Mint, peers, &module_params),
            ln: generate(ModuleKind::Ln, peers, &module_params),
        };
        proof {
            assert(view_map(hbbft@).dom() =~= hbbft@.dom());
            assert(view_map(epoch@).dom() =~= epoch@.dom());
            assert(module_params@ == views[0].module_params());
            assert(generated_by(generate, peers, views[0].module_params(), modules));
            assert(modules_cover(modules, peers@.to_set()));
        }
        let configs = ServerConfig::from_deal(peers, params, &hbbft, &epoch, &modules);
        proof {
            let deal = Deal { hbbft: view_map(hbbft@), epoch: view_map(epoch@), modules };
            assert(view_map(configs.0@) == dealer_servers(peers@.to_set(), views, deal));
        }
        configs
    }

    /// The configurations of a federation as `trusted_dealer_gen` gives them. `None` if an API
    /// address in the settings is not a URL.
    pub fn try_trusted_dealer_gen<
        G: Fn(ModuleKind, &[PeerId], &ModuleConfigGenParams) -> DealtModule,
    >(
        peers: &[PeerId],
        params: &HashMap<PeerId, ServerConfigParams>,
        rng: &mut rand::rngs::StdRng,
        generate: G,
    ) -> (res: Option<(BTreeMap<PeerId, ServerConfig>, ClientConfig)>)
        requires
            peers@.len() > 0,
            dealer_ready(peers@.to_set(), view_map(params@)),
            can_generate(generate, peers, view_map(params@)[0].module_params()),
        ensures
            match res {
                Some(configs) => {
                    &&& dealer_urls_parse(peers@.to_set(), view_map(params@))
                    &&& dealt_federation(
                        peers,
                        view_map(params@),
                        generate,
                        view_map(configs.0@),
                        configs.1@,
                    )
                },
                None => !dealer_urls_parse(peers@.to_set(), view_map(params@)),
            },
    {
        if urls_parse(peers, params) {
            Some(ServerConfig::trusted_dealer_gen(peers, params, rng, generate))
        } else {
            None
        }
    }
}

} // verus!
