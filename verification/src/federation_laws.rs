//! What holds of the configurations of a whole federation, in terms of what the functions are
//! given and what they answer.

use crate::address::url_of;
use crate::client::{view_modules, view_nodes, ClientConfig};
use crate::config_laws::module_names_differ;
use crate::dealer::{
    dealer_client, dealer_servers, dealt_federation, possible_deal, Deal, DealtModule,
};
use crate::distributed::{
    DkgAction, DkgEvent, DkgState, GroupKeys, ModulePart,
};
use crate::generation::{by_name, server_of, ModuleConfigGenParams, PerModule};
use crate::ids::PeerId;
use crate::keys::{
    deal_keys, key_set_share, key_set_threshold, one_key_for, public_share, KeyType, ThresholdKeys,
    ThresholdKeysView,
};
use crate::modules::{ClientModuleConfig, ModuleKind, ServerModuleConfig};
use crate::params::ServerConfigParams;
use crate::peer_map::{ids_of, lemma_ids_of, view_map};
use crate::server::{ServerConfig, ServerConfigView};
use crate::settings_laws::peers_stand_in_ascending_order;
use crate::text::decimal;
use std::collections::{BTreeMap, HashMap};
use vstd::prelude::*;

verus! {

/// Whether the configuration is one of the peer `id` with these settings: it has the settings'
/// name, addresses, certificate and key, and describes the settings' peers, each as the settings
/// do, with its API at a websocket URL.
pub open spec fn follows_settings(
    config: ServerConfig,
    id: PeerId,
    params: ServerConfigParams,
) -> bool {
    &&& config.identity == id
    &&& config.federation_name@ == params.federation_name@
    &&& config.hbbft_bind_addr@ == params.hbbft.bind_addr@
    &&& config.api_bind_addr@ == params.api.bind_addr@
    &&& config.tls_cert.0@ == params.tls.our_certificate.0@
    &&& config.tls_key.0@ == params.tls.our_private_key.0@
    &&& config.peers@.dom() == params.hbbft.peers@.dom()
    &&& forall|k: PeerId| #[trigger]
        config.peers@.contains_key(k) ==> {
            &&& config.peers@[k].hbbft.address@ == params.hbbft.peers@[k].address@
            &&& params.tls.peer_certs@.contains_key(k) ==> config.peers@[k].tls_cert.0@
                == params.tls.peer_certs@[k].0@
            &&& params.tls.peer_names@.contains_key(k) ==> config.peers@[k].name@
                == params.tls.peer_names@[k]@
            &&& params.api.peers@.contains_key(k) && url_of(
                seq!['w', 's', ':', '/', '/'] + params.api.peers@[k].address@,
            ) is Some ==> Some(config.peers@[k].api_addr@) == url_of(
                seq!['w', 's', ':', '/', '/'] + params.api.peers@[k].address@,
            )
        }
}

/// Whether the configuration has these modules and no other.
pub open spec fn has_modules(
    config: ServerConfig,
    wallet: ServerModuleConfig,
    mint: ServerModuleConfig,
    ln: ServerModuleConfig,
) -> bool {
    &&& config.modules@.dom() == set!["wallet"@, "mint"@, "ln"@]
    &&& config.modules@["wallet"@].0@ == wallet.0@
    &&& config.modules@["mint"@].0@ == mint.0@
    &&& config.modules@["ln"@].0@ == ln.0@
}

/// Whether clients have these modules and no other.
pub open spec fn clients_have_modules(
    config: ClientConfig,
    wallet: ClientModuleConfig,
    mint: ClientModuleConfig,
    ln: ClientModuleConfig,
) -> bool {
    &&& config.modules@.dom() == set!["wallet"@, "mint"@, "ln"@]
    &&& config.modules@["wallet"@].0@ == wallet.0@
    &&& config.modules@["mint"@].0@ == mint.0@
    &&& config.modules@["ln"@].0@ == ln.0@
}

/// Whether clients find each peer of the API's network at the websocket URL of its address and
/// under its name, in ascending order of the peers.
pub open spec fn clients_find(
    config: ClientConfig,
    params: ServerConfigParams,
    names: Map<PeerId, Seq<char>>,
) -> bool {
    &&& config.federation_name@ == params.federation_name@
    &&& config.nodes@.len() == params.api.peers@.dom().len()
    &&& forall|k: PeerId| #[trigger]
        params.api.peers@.contains_key(k) ==> {
            let node = config.nodes@[params.api.peers@.dom().filter(
                |other: PeerId| other < k,
            ).len() as int];
            &&& node.name@ == names[k]
            &&& url_of(
                seq!['w', 's', ':', '/', '/'] + params.api.peers@[k].address@,
            ) is Some ==> Some(node.url@) == url_of(
                seq!['w', 's', ':', '/', '/'] + params.api.peers@[k].address@,
            )
        }
}

/// Whether all addresses that are handed out as URLs are URLs.
pub open spec fn urls_are_urls(params: ServerConfigParams) -> bool {
    &&& forall|k: PeerId| #[trigger]
        params.hbbft.peers@.contains_key(k) ==> url_of(
            seq!['w', 's', ':', '/', '/'] + params.api.peers@[k].address@,
        ) is Some
    &&& forall|k: PeerId| #[trigger]
        params.api.peers@.contains_key(k) ==> url_of(
            seq!['w', 's', ':', '/', '/'] + params.api.peers@[k].address@,
        ) is Some
}

/// Whether the modules were to be generated from these settings.
pub open spec fn generated_from(asked: ModuleConfigGenParams, params: ServerConfigParams) -> bool {
    &&& asked.mint_amounts@ == params.amount_tiers@
    &&& asked.bitcoin_rpc.btc_rpc_address@ == params.bitcoind_rpc@
    &&& asked.bitcoin_rpc.btc_rpc_user@ == seq!['b', 'i', 't', 'c', 'o', 'i', 'n']
    &&& asked.bitcoin_rpc.btc_rpc_pass@ == seq!['b', 'i', 't', 'c', 'o', 'i', 'n']
    &&& asked.other@ == params.other@
}

proof fn lemma_scheme()
    ensures
        "ws://"@ == seq!['w', 's', ':', '/', '/'],
{
    reveal_strlit("ws://");
    assert("ws://"@ =~= seq!['w', 's', ':', '/', '/']);
}

proof fn lemma_follows(
    config: ServerConfig,
    id: PeerId,
    params: ServerConfigParams,
    hbbft: ThresholdKeysView,
    epoch: ThresholdKeysView,
    modules: Map<Seq<char>, Seq<char>>,
)
    requires
        config@ == server_of(params@, id, params@.peers(), hbbft, epoch, modules),
    ensures
        follows_settings(config, id, params),
        config.hbbft_sks@ == hbbft.secret,
        config.hbbft_pk_set@ == hbbft.set,
        config.epoch_sks@ == epoch.secret,
        config.epoch_pk_set@ == epoch.set,
{
    lemma_scheme();
    assert(config@.peers.dom() =~= config.peers@.dom());
    assert(params@.hbbft.peers.dom() =~= params.hbbft.peers@.dom());
    assert(config@.peers.dom() =~= params@.hbbft.peers.dom());
    assert forall|k: PeerId| #[trigger] config.peers@.contains_key(k) implies {
        &&& config.peers@[k].hbbft.address@ == params.hbbft.peers@[k].address@
        &&& params.tls.peer_certs@.contains_key(k) ==> config.peers@[k].tls_cert.0@
            == params.tls.peer_certs@[k].0@
        &&& params.tls.peer_names@.contains_key(k) ==> config.peers@[k].name@
            == params.tls.peer_names@[k]@
        &&& params.api.peers@.contains_key(k) && url_of(
            seq!['w', 's', ':', '/', '/'] + params.api.peers@[k].address@,
        ) is Some ==> Some(config.peers@[k].api_addr@) == url_of(
            seq!['w', 's', ':', '/', '/'] + params.api.peers@[k].address@,
        )
    } by {
        assert(config@.peers[k] == config.peers@[k]@);
        assert(params@.hbbft.peers[k] == params.hbbft.peers@[k]@);
    }
}

proof fn lemma_modules(
    config: ServerConfig,
    wallet: ServerModuleConfig,
    mint: ServerModuleConfig,
    ln: ServerModuleConfig,
)
    requires
        config@.modules == view_modules(by_name(PerModule { wallet, mint, ln })),
    ensures
        has_modules(config, wallet, mint, ln),
{
    module_names_differ();
    assert(config@.modules.dom() =~= config.modules@.dom());
    assert(config.modules@.dom() =~= set!["wallet"@, "mint"@, "ln"@]);
    assert(config@.modules["wallet"@] == config.modules@["wallet"@]@);
    assert(config@.modules["mint"@] == config.modules@["mint"@]@);
    assert(config@.modules["ln"@] == config.modules@["ln"@]@);
}

proof fn lemma_client_modules(
    config: ClientConfig,
    wallet: ClientModuleConfig,
    mint: ClientModuleConfig,
    ln: ClientModuleConfig,
)
    requires
        config@.modules == view_modules(by_name(PerModule { wallet, mint, ln })),
    ensures
        clients_have_modules(config, wallet, mint, ln),
{
    module_names_differ();
    assert(config@.modules.dom() =~= config.modules@.dom());
    assert(config.modules@.dom() =~= set!["wallet"@, "mint"@, "ln"@]);
    assert(config@.modules["wallet"@] == config.modules@["wallet"@]@);
    assert(config@.modules["mint"@] == config.modules@["mint"@]@);
    assert(config@.modules["ln"@] == config.modules@["ln"@]@);
}

proof fn lemma_clients_find(
    config: ClientConfig,
    params: ServerConfigParams,
    names: Map<PeerId, Seq<char>>,
)
    requires
        config@.federation_name == params@.federation_name,
        config@.nodes == params@.api.nodes("ws://"@, names),
    ensures
        clients_find(config, params, names),
{
    lemma_scheme();
    let ids = params.api.peers@.dom();
    assert(params@.api.peers.dom() =~= ids);
    lemma_ids_of(ids);
    assert(view_nodes(config.nodes@).len() == config.nodes@.len());
    assert forall|k: PeerId| #[trigger] params.api.peers@.contains_key(k) implies {
        let node = config.nodes@[ids.filter(|other: PeerId| other < k).len() as int];
        &&& node.name@ == names[k]
        &&& url_of(seq!['w', 's', ':', '/', '/'] + params.api.peers@[k].address@) is Some ==> Some(
            node.url@,
        ) == url_of(seq!['w', 's', ':', '/', '/'] + params.api.peers@[k].address@)
    } by {
        peers_stand_in_ascending_order(ids, k);
        let i = ids.filter(|other: PeerId| other < k).len() as int;
        assert(view_nodes(config.nodes@)[i] == config.nodes@[i]@);
        assert(params@.api.peers[k] == params.api.peers@[k]@);
    }
}

/// What is dealt is one key for the peers and for nobody else: all have the same key set, each
/// has the share at the position that counts the peers below it, as many as may misbehave cannot
/// use the key and one more can.
pub proof fn dealt_keys_hold(
    peers: &[PeerId],
    rng: &mut rand::rngs::StdRng,
    keys: BTreeMap<PeerId, ThresholdKeys>,
    id: PeerId,
    other: PeerId,
)
    requires
        call_ensures(deal_keys, (peers, rng), keys),
        peers@.contains(id),
        peers@.contains(other),
    ensures
        keys@.dom() == peers@.to_set(),
        keys@[id].set@ == keys@[other].set@,
        public_share(keys@[id].secret@) == key_set_share(
            keys@[id].set@,
            peers@.to_set().filter(|k: PeerId| k < id).len() as int,
        ),
        3 * key_set_threshold(keys@[id].set@) < peers@.to_set().len() <= 3 * key_set_threshold(
            keys@[id].set@,
        ) + 3,
{
    let views = view_map(keys@);
    assert(views.dom() =~= keys@.dom());
    assert(peers@.to_set().contains(id));
    assert(peers@.to_set().contains(other));
    lemma_one_key(peers@.to_set(), views, id, other);
    assert(views[id] == keys@[id]@);
    assert(views[other] == keys@[other]@);
}

proof fn lemma_one_key(
    peers: Set<PeerId>,
    keys: Map<PeerId, ThresholdKeysView>,
    id: PeerId,
    other: PeerId,
)
    requires
        one_key_for(peers, keys),
        peers.contains(id),
        peers.contains(other),
    ensures
        keys.dom() == peers,
        keys[id].set == keys[other].set,
        public_share(keys[id].secret) == key_set_share(
            keys[id].set,
            peers.filter(|k: PeerId| k < id).len() as int,
        ),
        3 * key_set_threshold(keys[id].set) < peers.len() <= 3 * key_set_threshold(keys[id].set)
            + 3,
{
    peers_stand_in_ascending_order(peers, id);
    peers_stand_in_ascending_order(peers, other);
    let i = peers.filter(|k: PeerId| k < id).len() as int;
    let j = peers.filter(|k: PeerId| k < other).len() as int;
    assert(keys[ids_of(peers)[i]].set == keys[ids_of(peers)[0]].set);
    assert(keys[ids_of(peers)[j]].set == keys[ids_of(peers)[0]].set);
}

/// The modules that a peer and the clients get of a deal.
proof fn lemma_dealt_configs(
    peers: Set<PeerId>,
    params: Map<PeerId, ServerConfigParams>,
    deal: Deal,
    servers: Map<PeerId, ServerConfig>,
    client: ClientConfig,
    id: PeerId,
)
    requires
        view_map(servers) == dealer_servers(peers, view_map(params), deal),
        client@ == dealer_client(peers, view_map(params), deal.modules),
        peers.contains(id),
        params.contains_key(id),
        params.contains_key(0),
        params[0].api.peers@.dom().subset_of(peers),
        deal.hbbft.contains_key(id),
        deal.epoch.contains_key(id),
    ensures
        servers.dom() == peers,
        follows_settings(servers[id], id, params[id]),
        servers[id].hbbft_sks@ == deal.hbbft[id].secret,
        servers[id].hbbft_pk_set@ == deal.hbbft[id].set,
        servers[id].epoch_sks@ == deal.epoch[id].secret,
        servers[id].epoch_pk_set@ == deal.epoch[id].set,
        has_modules(
            servers[id],
            deal.modules.wallet.servers@[id],
            deal.modules.mint.servers@[id],
            deal.modules.ln.servers@[id],
        ),
        clients_have_modules(
            client,
            deal.modules.wallet.client,
            deal.modules.mint.client,
            deal.modules.ln.client,
        ),
        clients_find(
            client,
            params[0],
            Map::new(
                |k: PeerId| peers.contains(k),
                |k: PeerId| seq!['p', 'e', 'e', 'r', '-'] + decimal(k as nat),
            ),
        ),
{
    let views = view_map(params);
    assert(view_map(servers).dom() =~= servers.dom());
    assert(view_map(servers).dom() =~= peers);
    assert(servers.contains_key(id));
    assert(view_map(servers)[id] == servers[id]@);
    assert(views[id] == params[id]@);
    assert(views[0] == params[0]@);
    lemma_follows(
        servers[id],
        id,
        params[id],
        deal.hbbft[id],
        deal.epoch[id],
        servers[id]@.modules,
    );
    let w = deal.modules.wallet.servers@[id];
    let m = deal.modules.mint.servers@[id];
    let l = deal.modules.ln.servers@[id];
    assert(servers[id]@.modules =~= view_modules(by_name(PerModule { wallet: w, mint: m, ln: l })));
    lemma_modules(servers[id], w, m, l);
    let cw = deal.modules.wallet.client;
    let cm = deal.modules.mint.client;
    let cl = deal.modules.ln.client;
    assert(client@.modules =~= view_modules(by_name(PerModule { wallet: cw, mint: cm, ln: cl })));
    lemma_client_modules(client, cw, cm, cl);
    reveal_strlit("peer-");
    assert("peer-"@ =~= seq!['p', 'e', 'e', 'r', '-']);
    let names = Map::new(
        |k: PeerId| peers.contains(k),
        |k: PeerId| seq!['p', 'e', 'e', 'r', '-'] + decimal(k as nat),
    );
    assert(names =~= crate::dealer::dealer_names(peers));
    lemma_clients_find(client, params[0], names);
}

/// From what a dealer hands out, each peer gets a configuration by its own settings, with its own
/// keys and its own part of each module, and the clients get one by the settings of peer 0, with
/// each peer called `peer-` and its number, and with the clients' part of each module.
pub proof fn configs_of_a_deal_hold(
    peers: &[PeerId],
    params: &HashMap<PeerId, ServerConfigParams>,
    hbbft: &BTreeMap<PeerId, ThresholdKeys>,
    epoch: &BTreeMap<PeerId, ThresholdKeys>,
    modules: &PerModule<DealtModule>,
    configs: (BTreeMap<PeerId, ServerConfig>, ClientConfig),
    id: PeerId,
)
    requires
        call_ensures(ServerConfig::from_deal, (peers, params, hbbft, epoch, modules), configs),
        peers@.contains(id),
        params@.contains_key(id),
        params@.contains_key(0),
        params@[0].api.peers@.dom().subset_of(peers@.to_set()),
        hbbft@.contains_key(id),
        epoch@.contains_key(id),
    ensures
        configs.0@.dom() == peers@.to_set(),
        follows_settings(configs.0@[id], id, params@[id]),
        configs.0@[id].hbbft_sks@ == hbbft@[id].secret@,
        configs.0@[id].hbbft_pk_set@ == hbbft@[id].set@,
        configs.0@[id].epoch_sks@ == epoch@[id].secret@,
        configs.0@[id].epoch_pk_set@ == epoch@[id].set@,
        configs.0@[id].modules@.dom() == set!["wallet"@, "mint"@, "ln"@],
        configs.0@[id].modules@["wallet"@].0@ == modules.wallet.servers@[id].0@,
        configs.0@[id].modules@["mint"@].0@ == modules.mint.servers@[id].0@,
        configs.0@[id].modules@["ln"@].0@ == modules.ln.servers@[id].0@,
        configs.1.modules@.dom() == set!["wallet"@, "mint"@, "ln"@],
        configs.1.modules@["wallet"@].0@ == modules.wallet.client.0@,
        configs.1.modules@["mint"@].0@ == modules.mint.client.0@,
        configs.1.modules@["ln"@].0@ == modules.ln.client.0@,
        clients_find(
            configs.1,
            params@[0],
            Map::new(
                |k: PeerId| peers@.to_set().contains(k),
                |k: PeerId| seq!['p', 'e', 'e', 'r', '-'] + decimal(k as nat),
            ),
        ),
{
    let deal = Deal { hbbft: view_map(hbbft@), epoch: view_map(epoch@), modules: *modules };
    assert(peers@.to_set().contains(id));
    lemma_dealt_configs(peers@.to_set(), params@, deal, configs.0@, configs.1, id);
}

/// Whether a dealer's configurations hold what they have to: see `dealt_configs_hold`.
pub open spec fn dealt_configs<
    G: Fn(ModuleKind, &[PeerId], &ModuleConfigGenParams) -> DealtModule,
>(
    peers: &[PeerId],
    params: Map<PeerId, ServerConfigParams>,
    generate: G,
    servers: Map<PeerId, ServerConfig>,
    client: ClientConfig,
) -> bool {
    &&& servers.dom() == peers@.to_set()
    &&& forall|id: PeerId, other: PeerId| #[trigger]
        peers@.contains(id) && #[trigger] peers@.contains(other) ==> {
            let position = peers@.to_set().filter(|k: PeerId| k < id).len() as int;
            &&& follows_settings(servers[id], id, params[id])
            &&& servers[id].hbbft_pk_set@ == servers[other].hbbft_pk_set@
            &&& servers[id].epoch_pk_set@ == servers[other].epoch_pk_set@
            &&& public_share(servers[id].hbbft_sks@) == key_set_share(
                servers[id].hbbft_pk_set@,
                position,
            )
            &&& public_share(servers[id].epoch_sks@) == key_set_share(
                servers[id].epoch_pk_set@,
                position,
            )
            &&& 3 * key_set_threshold(servers[id].hbbft_pk_set@) < peers@.to_set().len() <= 3
                * key_set_threshold(servers[id].hbbft_pk_set@) + 3
            &&& 3 * key_set_threshold(servers[id].epoch_pk_set@) < peers@.to_set().len() <= 3
                * key_set_threshold(servers[id].epoch_pk_set@) + 3
        }
    &&& clients_find(
        client,
        params[0],
        Map::new(
            |k: PeerId| peers@.to_set().contains(k),
            |k: PeerId| seq!['p', 'e', 'e', 'r', '-'] + decimal(k as nat),
        ),
    )
    &&& exists|
        asked: ModuleConfigGenParams,
        wallet: DealtModule,
        mint: DealtModule,
        ln: DealtModule,
    |
        {
            &&& generated_from(asked, params[0])
            &&& #[trigger] generate.ensures((ModuleKind::Wallet, peers, &asked), wallet)
            &&& #[trigger] generate.ensures((ModuleKind::Mint, peers, &asked), mint)
            &&& #[trigger] generate.ensures((ModuleKind::Ln, peers, &asked), ln)
            &&& clients_have_modules(client, wallet.client, mint.client, ln.client)
            &&& forall|id: PeerId| #[trigger]
                peers@.contains(id) ==> has_modules(
                    servers[id],
                    wallet.servers@[id],
                    mint.servers@[id],
                    ln.servers@[id],
                )
        }
}

proof fn lemma_dealt<G: Fn(ModuleKind, &[PeerId], &ModuleConfigGenParams) -> DealtModule>(
    peers: &[PeerId],
    params: Map<PeerId, ServerConfigParams>,
    generate: G,
    servers: Map<PeerId, ServerConfig>,
    client: ClientConfig,
)
    requires
        dealt_federation(peers, view_map(params), generate, view_map(servers), client@),
        peers@.len() > 0,
        peers@.to_set().subset_of(params.dom()),
        params.contains_key(0),
        params[0].api.peers@.dom().subset_of(peers@.to_set()),
    ensures
        dealt_configs(peers, params, generate, servers, client),
{
    let set = peers@.to_set();
    let views = view_map(params);
    let deal = choose|deal: Deal|
        {
            &&& possible_deal(peers, views, generate, deal)
            &&& view_map(servers) == #[trigger] dealer_servers(set, views, deal)
            &&& client@ == dealer_client(set, views, deal.modules)
        };
    assert forall|id: PeerId| #[trigger] peers@.contains(id) implies set.contains(id)
        && params.contains_key(id) && deal.hbbft.contains_key(id) && deal.epoch.contains_key(
        id,
    ) by {
        assert(set.contains(id));
    }
    let first = peers@[0];
    assert(peers@.contains(first));
    lemma_dealt_configs(set, params, deal, servers, client, first);
    assert forall|id: PeerId, other: PeerId| #[trigger]
        peers@.contains(id) && #[trigger] peers@.contains(other) implies {
        let position = set.filter(|k: PeerId| k < id).len() as int;
        &&& follows_settings(servers[id], id, params[id])
        &&& servers[id].hbbft_pk_set@ == servers[other].hbbft_pk_set@
        &&& servers[id].epoch_pk_set@ == servers[other].epoch_pk_set@
        &&& public_share(servers[id].hbbft_sks@) == key_set_share(
            servers[id].hbbft_pk_set@,
            position,
        )
        &&& public_share(servers[id].epoch_sks@) == key_set_share(
            servers[id].epoch_pk_set@,
            position,
        )
        &&& 3 * key_set_threshold(servers[id].hbbft_pk_set@) < set.len() <= 3 * key_set_threshold(
            servers[id].hbbft_pk_set@,
        ) + 3
        &&& 3 * key_set_threshold(servers[id].epoch_pk_set@) < set.len() <= 3 * key_set_threshold(
            servers[id].epoch_pk_set@,
        ) + 3
    } by {
        lemma_dealt_configs(set, params, deal, servers, client, id);
        lemma_dealt_configs(set, params, deal, servers, client, other);
        lemma_one_key(set, deal.hbbft, id, other);
        lemma_one_key(set, deal.epoch, id, other);
    }
    assert(views[0] == params[0]@);
    let asked = choose|p: ModuleConfigGenParams|
        {
            &&& #[trigger] p@ == views[0].module_params()
            &&& generate.ensures((ModuleKind::Wallet, peers, &p), deal.modules.wallet)
            &&& generate.ensures((ModuleKind::Mint, peers, &p), deal.modules.mint)
            &&& generate.ensures((ModuleKind::Ln, peers, &p), deal.modules.ln)
        };
    reveal_strlit("bitcoin");
    assert("bitcoin"@ =~= seq!['b', 'i', 't', 'c', 'o', 'i', 'n']);
    assert(generated_from(asked, params[0]));
    let wallet = deal.modules.wallet;
    let mint = deal.modules.mint;
    let ln = deal.modules.ln;
    assert forall|id: PeerId| #[trigger] peers@.contains(id) implies has_modules(
        servers[id],
        wallet.servers@[id],
        mint.servers@[id],
        ln.servers@[id],
    ) by {
        lemma_dealt_configs(set, params, deal, servers, client, id);
    }
    assert(generate.ensures((ModuleKind::Wallet, peers, &asked), wallet));
    assert(generate.ensures((ModuleKind::Mint, peers, &asked), mint));
    assert(generate.ensures((ModuleKind::Ln, peers, &asked), ln));
}

/// A dealer gives each peer a configuration by its own settings. All peers hold the same key sets,
/// each its own shares of them. Each module is generated once, from the settings of peer 0; each
/// peer holds its own part of it under the module's name, and the clients hold theirs. Clients
/// find each peer at its URL and under the name `peer-` and its number.
pub proof fn dealt_configs_hold<
    G: Fn(ModuleKind, &[PeerId], &ModuleConfigGenParams) -> DealtModule,
>(
    peers: &[PeerId],
    params: &HashMap<PeerId, ServerConfigParams>,
    rng: &mut rand::rngs::StdRng,
    generate: G,
    configs: (BTreeMap<PeerId, ServerConfig>, ClientConfig),
)
    requires
        call_ensures(
            ServerConfig::trusted_dealer_gen::<G>,
            (peers, params, rng, generate),
            configs,
        ),
        peers@.len() > 0,
        peers@.to_set().subset_of(params@.dom()),
        params@.contains_key(0),
        params@[0].api.peers@.dom().subset_of(peers@.to_set()),
    ensures
        dealt_configs(peers, params@, generate, configs.0@, configs.1),
{
    lemma_dealt(peers, params@, generate, configs.0@, configs.1);
}

/// A dealer refuses to give configurations exactly if an API address that has to become a URL is
/// none; else it gives what a dealer gives.
pub proof fn dealer_stops_at_bad_addresses<
    G: Fn(ModuleKind, &[PeerId], &ModuleConfigGenParams) -> DealtModule,
>(
    peers: &[PeerId],
    params: &HashMap<PeerId, ServerConfigParams>,
    rng: &mut rand::rngs::StdRng,
    generate: G,
    res: Option<(BTreeMap<PeerId, ServerConfig>, ClientConfig)>,
)
    requires
        call_ensures(
            ServerConfig::try_trusted_dealer_gen::<G>,
            (peers, params, rng, generate),
            res,
        ),
        peers@.len() > 0,
        peers@.to_set().subset_of(params@.dom()),
        params@.contains_key(0),
        params@[0].api.peers@.dom().subset_of(peers@.to_set()),
        forall|id: PeerId| #[trigger]
            peers@.contains(id) ==> params@[id].hbbft.peers@.dom().subset_of(
                params@[id].api.peers@.dom(),
            ),
    ensures
        res matches Some(configs) ==> dealt_configs(
            peers,
            params@,
            generate,
            configs.0@,
            configs.1,
        ),
        res is Some <==> {
            &&& forall|k: PeerId| #[trigger]
                params@[0].api.peers@.contains_key(k) ==> url_of(
                    seq!['w', 's', ':', '/', '/'] + params@[0].api.peers@[k].address@,
                ) is Some
            &&& forall|id: PeerId, k: PeerId|
                #![trigger peers@.contains(id), params@[id].hbbft.peers@.contains_key(k)]
                peers@.contains(id) && params@[id].hbbft.peers@.contains_key(k) ==> url_of(
                    seq!['w', 's', ':', '/', '/'] + params@[id].api.peers@[k].address@,
                ) is Some
        },
{
    let views = view_map(params@);
    let set = peers@.to_set();
    if let Some(configs) = res {
        lemma_dealt(peers, params@, generate, configs.0@, configs.1);
    }
    assert(views[0] == params@[0]@);
    lemma_scheme();
    crate::settings_laws::lemma_addresses_parse(&params@[0].api, "ws://"@);
    assert forall|id: PeerId| #[trigger] peers@.contains(id) implies views[id] == params@[id]@ && (
    views[id].peer_urls_parse() <==> forall|k: PeerId| #[trigger]
        params@[id].hbbft.peers@.contains_key(k) ==> url_of(
            seq!['w', 's', ':', '/', '/'] + params@[id].api.peers@[k].address@,
        ) is Some) by {
        assert(set.contains(id));
        assert(params@.contains_key(id));
        lemma_peer_urls(params@[id]);
    }
    if crate::dealer::dealer_urls_parse(set, views) {
        assert forall|id: PeerId, k: PeerId|
            #![trigger peers@.contains(id), params@[id].hbbft.peers@.contains_key(k)]
            peers@.contains(id) && params@[id].hbbft.peers@.contains_key(k) implies url_of(
            seq!['w', 's', ':', '/', '/'] + params@[id].api.peers@[k].address@,
        ) is Some by {
            assert(set.contains(id));
            assert(views[id].peer_urls_parse());
        }
    } else if params@[0]@.api.addresses_parse("ws://"@) {
        let id = choose|id: PeerId| #[trigger]
            set.contains(id) && !views[id].peer_urls_parse();
        assert(peers@.contains(id));
    }
}

/// What it means that the API addresses of the peers are URLs.
proof fn lemma_peer_urls(params: ServerConfigParams)
    requires
        params.hbbft.peers@.dom().subset_of(params.api.peers@.dom()),
    ensures
        params@.peer_urls_parse() <==> forall|k: PeerId| #[trigger]
            params.hbbft.peers@.contains_key(k) ==> url_of(
                seq!['w', 's', ':', '/', '/'] + params.api.peers@[k].address@,
            ) is Some,
{
    lemma_scheme();
    assert(params@.hbbft.peers.dom() =~= params.hbbft.peers@.dom());
    assert forall|k: PeerId| #[trigger]
        params.hbbft.peers@.contains_key(k) implies params@.api.peers[k]
        == params.api.peers@[k].address@ by {
        assert(params.api.peers@.dom().contains(k));
    }
    if params@.peer_urls_parse() {
        assert forall|k: PeerId| #[trigger] params.hbbft.peers@.contains_key(k) implies url_of(
            seq!['w', 's', ':', '/', '/'] + params.api.peers@[k].address@,
        ) is Some by {
            assert(params@.hbbft.peers.dom().contains(k));
        }
    } else {
        let k = choose|k: PeerId| #[trigger]
            params@.hbbft.peers.dom().contains(k) && crate::net::prefixed_url(
                "ws://"@,
                params@.api.peers[k],
            ) is None;
        assert(params.hbbft.peers@.contains_key(k));
    }
}

/// A member that is alone gets what a dealer gives the federation of this one member: its own
/// configuration and the one for clients, or nothing exactly if an address that has to become a
/// URL is none.
pub proof fn lone_member_is_dealt_to<
    G: Fn(ModuleKind, &[PeerId], &ModuleConfigGenParams) -> DealtModule,
>(
    our_id: PeerId,
    peers: &[PeerId],
    params: &ServerConfigParams,
    rng: &mut rand::rngs::StdRng,
    generate: G,
    res: Option<(ServerConfig, ClientConfig)>,
)
    requires
        call_ensures(
            ServerConfig::alone_gen::<G>,
            (our_id, peers, params, rng, generate),
            res,
        ),
        our_id == 0,
        peers@ == seq![our_id],
        params.hbbft.peers@.dom().subset_of(params.api.peers@.dom()),
        params.api.peers@.dom().subset_of(set![our_id]),
    ensures
        res is Some <==> urls_are_urls(*params),
        res matches Some((server, client)) ==> {
            &&& follows_settings(server, our_id, *params)
            &&& public_share(server.hbbft_sks@) == key_set_share(server.hbbft_pk_set@, 0)
            &&& public_share(server.epoch_sks@) == key_set_share(server.epoch_pk_set@, 0)
            &&& key_set_threshold(server.hbbft_pk_set@) == 0
            &&& key_set_threshold(server.epoch_pk_set@) == 0
            &&& clients_find(
                client,
                *params,
                map![our_id => seq!['p', 'e', 'e', 'r', '-'] + decimal(0)],
            )
            &&& exists|
                asked: ModuleConfigGenParams,
                wallet: DealtModule,
                mint: DealtModule,
                ln: DealtModule,
            |
                {
                    &&& generated_from(asked, *params)
                    &&& #[trigger] generate.ensures((ModuleKind::Wallet, peers, &asked), wallet)
                    &&& #[trigger] generate.ensures((ModuleKind::Mint, peers, &asked), mint)
                    &&& #[trigger] generate.ensures((ModuleKind::Ln, peers, &asked), ln)
                    &&& clients_have_modules(client, wallet.client, mint.client, ln.client)
                    &&& has_modules(
                        server,
                        wallet.servers@[our_id],
                        mint.servers@[our_id],
                        ln.servers@[our_id],
                    )
                }
        },
{
    lemma_scheme();
    lemma_peer_urls(*params);
    crate::settings_laws::lemma_addresses_parse(&params.api, "ws://"@);
    let set = peers@.to_set();
    assert(peers@[0] == our_id);
    assert(set =~= set![our_id]);
    if let Some((server, client)) = res {
        let settings = map![our_id => params@];
        let views = choose|views: Map<PeerId, ServerConfigView>|
            {
                &&& server@ == views[our_id]
                &&& #[trigger] dealt_federation(peers, settings, generate, views, client@)
            };
        let exec = map![our_id => *params];
        let servers = map![our_id => server];
        assert(view_map(exec) =~= settings);
        assert(view_map(servers) =~= views) by {
            let deal = choose|deal: Deal|
                {
                    &&& possible_deal(peers, settings, generate, deal)
                    &&& views == #[trigger] dealer_servers(set, settings, deal)
                };
            assert(views.dom() =~= set);
        }
        assert(set.subset_of(exec.dom()));
        assert(params.api.peers@.dom().subset_of(set));
        lemma_dealt(peers, exec, generate, servers, client);
        assert(peers@.contains(our_id));
        assert(servers[our_id] == server && exec[our_id] == *params);
        assert(set.filter(|k: PeerId| k < our_id) =~= Set::empty());
        assert(set.len() == 1);
        let names = Map::new(
            |k: PeerId| set.contains(k),
            |k: PeerId| seq!['p', 'e', 'e', 'r', '-'] + decimal(k as nat),
        );
        assert(names =~= map![our_id => seq!['p', 'e', 'e', 'r', '-'] + decimal(0)]);
    }
}

/// Our own configuration is the one under our number.
pub proof fn own_config_is_ours(
    our_id: PeerId,
    configs: (BTreeMap<PeerId, ServerConfig>, ClientConfig),
    own: (ServerConfig, ClientConfig),
)
    requires
        call_ensures(ServerConfig::own_of, (our_id, configs), own),
    ensures
        own.0@ == configs.0@[our_id]@,
        own.1@ == configs.1@,
{
}

/// Members that begin to generate a federation together are asked for two keys: the consensus
/// key, which takes one member more than may misbehave, and the epoch key, which takes as many
/// members as answer when every dishonest one is silent, so that any two such groups share an
/// honest member. A member that is alone is told to deal.
pub proof fn generation_begins<E>(
    our_id: PeerId,
    peers: &[PeerId],
    params: &ServerConfigParams,
    step: (DkgState, DkgAction<E>),
)
    requires
        call_ensures(
            ServerConfig::distributed_gen::<E>,
            (DkgState::Start, DkgEvent::Begin, our_id, peers, params),
            step,
        ),
        0 < peers@.len() <= usize::MAX,
    ensures
        peers@.len() == 1 ==> step.0 is Over && step.1 is Deal,
        peers@.len() > 1 ==> {
            let total = peers@.len() as int;
            let plan = step.1->RunKeyGen_0@;
            &&& step.0 is AwaitKeys
            &&& step.1 is RunKeyGen
            &&& plan.len() == 2
            &&& plan[0].key_type == KeyType::Hbbft
            &&& plan[1].key_type == KeyType::Epoch
            &&& 3 * (plan[0].threshold - 1) < total <= 3 * plan[0].threshold
            &&& plan[1].threshold == total - (total - 1) / 3
            &&& plan[0].threshold + plan[1].threshold == total + 1
            &&& 2 * plan[1].threshold - total > (total - 1) / 3
        },
{
}

/// Once the keys are there, the wallet, the mint and the lightning module are generated one after
/// the other from our settings, and what has come is kept. An error is handed on, and whoever
/// cancels ends the generation.
pub proof fn generation_goes_on<E>(
    state: DkgState,
    event: DkgEvent<E>,
    our_id: PeerId,
    peers: &[PeerId],
    params: &ServerConfigParams,
    step: (DkgState, DkgAction<E>),
)
    requires
        call_ensures(
            ServerConfig::distributed_gen::<E>,
            (state, event, our_id, peers, params),
            step,
        ),
        state is AwaitKeys || state is AwaitWallet || state is AwaitMint,
        state is AwaitKeys ==> event is Keys,
        state !is AwaitKeys ==> event is Module,
    ensures
        event matches DkgEvent::Keys(None) ==> step.0 is Over && step.1 is Cancel,
        event matches DkgEvent::Module(Ok(None)) ==> step.0 is Over && step.1 is Cancel,
        event matches DkgEvent::Module(Err(e)) ==> step.0 is Over && step.1 == DkgAction::Fail(e),
        event matches DkgEvent::Keys(Some(keys)) ==> {
            &&& step.0 == DkgState::AwaitWallet(keys)
            &&& step.1 is GenerateModule
            &&& step.1->GenerateModule_0 == ModuleKind::Wallet
            &&& generated_from(step.1->GenerateModule_1, *params)
        },
        event matches DkgEvent::Module(Ok(Some(part))) ==> (state matches DkgState::AwaitWallet(
            keys,
        ) ==> {
            &&& step.0 == DkgState::AwaitMint(keys, part)
            &&& step.1 is GenerateModule
            &&& step.1->GenerateModule_0 == ModuleKind::Mint
            &&& generated_from(step.1->GenerateModule_1, *params)
        }),
        event matches DkgEvent::Module(Ok(Some(part))) ==> (state matches DkgState::AwaitMint(
            keys,
            wallet,
        ) ==> {
            &&& step.0 == DkgState::AwaitLn(keys, wallet, part)
            &&& step.1 is GenerateModule
            &&& step.1->GenerateModule_0 == ModuleKind::Ln
            &&& generated_from(step.1->GenerateModule_1, *params)
        }),
{
    reveal_strlit("bitcoin");
    assert("bitcoin"@ =~= seq!['b', 'i', 't', 'c', 'o', 'i', 'n']);
}

/// A generation ends with our configuration by our settings, with the keys and our part of each
/// module in their places, and with the one for clients, who find each peer at its URL and under
/// the name that the settings hold for it. It gives up exactly if an address that has to become a
/// URL is none.
pub proof fn generation_ends<E>(
    keys: GroupKeys,
    wallet: ModulePart,
    mint: ModulePart,
    event: DkgEvent<E>,
    our_id: PeerId,
    peers: &[PeerId],
    params: &ServerConfigParams,
    step: (DkgState, DkgAction<E>),
)
    requires
        call_ensures(
            ServerConfig::distributed_gen::<E>,
            (DkgState::AwaitLn(keys, wallet, mint), event, our_id, peers, params),
            step,
        ),
        event is Module,
        params.hbbft.peers@.dom().subset_of(params.api.peers@.dom()),
        params.api.peers@.dom().subset_of(params.tls.peer_names@.dom()),
    ensures
        step.0 is Over,
        event matches DkgEvent::Module(Ok(None)) ==> step.1 is Cancel,
        event matches DkgEvent::Module(Err(e)) ==> step.1 == DkgAction::Fail(e),
        event matches DkgEvent::Module(Ok(Some(ln))) ==> match step.1 {
            DkgAction::Finish(server, client) => {
                &&& urls_are_urls(*params)
                &&& follows_settings(server, our_id, *params)
                &&& server.hbbft_sks@ == keys.hbbft.secret@
                &&& server.hbbft_pk_set@ == keys.hbbft.set@
                &&& server.epoch_sks@ == keys.epoch.secret@
                &&& server.epoch_pk_set@ == keys.epoch.set@
                &&& server.modules@.dom() == set!["wallet"@, "mint"@, "ln"@]
                &&& server.modules@["wallet"@].0@ == wallet.server.0@
                &&& server.modules@["mint"@].0@ == mint.server.0@
                &&& server.modules@["ln"@].0@ == ln.server.0@
                &&& client.modules@.dom() == set!["wallet"@, "mint"@, "ln"@]
                &&& client.modules@["wallet"@].0@ == wallet.client.0@
                &&& client.modules@["mint"@].0@ == mint.client.0@
                &&& client.modules@["ln"@].0@ == ln.client.0@
                &&& clients_find(
                    client,
                    *params,
                    Map::new(
                        |k: PeerId| params.tls.peer_names@.contains_key(k),
                        |k: PeerId| params.tls.peer_names@[k]@,
                    ),
                )
            },
            DkgAction::InvalidAddress => !urls_are_urls(*params),
            _ => false,
        },
{
    if let DkgEvent::Module(Ok(Some(ln))) = event {
        lemma_scheme();
        lemma_peer_urls(*params);
        crate::settings_laws::lemma_addresses_parse(&params.api, "ws://"@);
        if let DkgAction::Finish(server, client) = step.1 {
            lemma_follows(
                server,
                our_id,
                *params,
                keys.hbbft@,
                keys.epoch@,
                server@.modules,
            );
            lemma_modules(server, wallet.server, mint.server, ln.server);
            lemma_client_modules(client, wallet.client, mint.client, ln.client);
            let names = Map::new(
                |k: PeerId| params.tls.peer_names@.contains_key(k),
                |k: PeerId| params.tls.peer_names@[k]@,
            );
            assert(names =~= params@.tls.peer_names);
            lemma_clients_find(client, *params, names);
        }
    }
}

} // verus!
