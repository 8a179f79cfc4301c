//! What holds of a federation's configurations taken together.

use crate::client::{view_modules, ClientConfigView};
use crate::dealer::{
    dealer_client, dealer_ready, dealer_servers, dealer_urls_parse, dealt_federation,
    possible_deal, Deal, DealtModule,
};
use crate::distributed::{
    asks_for, dealt_alone, distributed_client, distributed_server, ends_with, in_turn, is_step,
    key_gen_plan, DkgAction, DkgEvent, DkgState, GroupKeys, ModulePart,
};
use crate::generation::{by_name, server_of, ModuleConfigGenParams, PerModule};
use crate::ids::{max_evil_spec, one_honest_spec, Amount, PeerId};
use crate::keys::{key_set_threshold, one_key_for, share_matches, ThresholdKeysView};
use crate::local::{local_params, local_peers, local_ports_fit, ports_per_peer};
use crate::modules::{kind_of, ClientModuleConfig, ModuleKind, ServerModuleConfig};
use crate::params::{network_of, params_of, PeerServerParamsView, ServerConfigParamsView};
use crate::peer_map::{ids_of, lemma_ids_of};
use crate::server::{
    can_check, indexed_from_zero, lemma_indexed, ServerConfig, ServerConfigView,
};
use crate::text::{
    host_port_spec, lemma_host_port_injective, node_name_spec, peer_name_spec,
};
use vstd::prelude::*;

verus! {

/// A configuration without fault lists its peers as 0, 1, 2 and so on, and so names its nodes
/// after their positions.
pub proof fn valid_peers_are_positions(config: ServerConfigView, identity: PeerId, i: int)
    requires
        config.fault(identity) is None,
        0 <= i < ids_of(config.peers.dom()).len(),
    ensures
        ids_of(config.peers.dom())[i] == i,
        config.client_nodes()[i].name == node_name_spec(i as PeerId),
        config.client_nodes()[i].url == config.peers[i as PeerId].api_addr,
{
    lemma_indexed(config.peers.dom());
}

/// A configuration whose modules are all of known kinds can be checked, whatever the modules say
/// of it.
pub proof fn known_modules_can_be_checked<
    E,
    F: Fn(ModuleKind, &ServerModuleConfig, PeerId) -> Result<(), E>,
>(config: &ServerConfig, check: F, identity: PeerId)
    requires
        config.modules_known(),
        forall|kind: ModuleKind, module: &ServerModuleConfig| #[trigger]
            check.requires((kind, module, identity)),
    ensures
        can_check(config, check, identity),
{
    assert forall|i: int| 0 <= i < config.modules.names().len() implies kind_of(
        #[trigger] config.modules.names()[i],
    ) is Some by {
        assert(config.modules@.contains_key(config.modules.names()[i]));
    }
}

/// The key of a deal that a peer holds is the one at its own number.
proof fn lemma_own_share(peers: Set<PeerId>, keys: Map<PeerId, ThresholdKeysView>, id: PeerId)
    requires
        indexed_from_zero(peers),
        one_key_for(peers, keys),
        peers.contains(id),
    ensures
        share_matches(keys[id].secret, keys[id].set, id as int),
{
    lemma_indexed(peers);
    lemma_ids_of(peers);
    assert(ids_of(peers)[id as int] == id);
}

/// All peers of a deal hold the same key set.
proof fn lemma_same_set(
    peers: Set<PeerId>,
    keys: Map<PeerId, ThresholdKeysView>,
    a: PeerId,
    b: PeerId,
)
    requires
        one_key_for(peers, keys),
        peers.contains(a),
        peers.contains(b),
    ensures
        keys[a].set == keys[b].set,
        key_set_threshold(keys[a].set) == max_evil_spec(peers.len() as int),
{
    lemma_ids_of(peers);
    let ids = ids_of(peers);
    assert(ids.contains(a));
    assert(ids.contains(b));
    let i = choose|i: int| 0 <= i < ids.len() && ids[i] == a;
    let j = choose|j: int| 0 <= j < ids.len() && ids[j] == b;
    assert(keys[ids[i]].set == keys[ids[0]].set);
    assert(keys[ids[j]].set == keys[ids[0]].set);
}

/// The configurations that a dealer gives a federation are without fault, provided that the
/// peers are numbered from 0 and that each peer's settings name exactly these peers.
pub proof fn dealt_configs_are_valid<
    G: Fn(ModuleKind, &[PeerId], &ModuleConfigGenParams) -> DealtModule,
>(
    peers: &[PeerId],
    params: Map<PeerId, ServerConfigParamsView>,
    generate: G,
    servers: Map<PeerId, ServerConfigView>,
    client: ClientConfigView,
    id: PeerId,
)
    requires
        dealt_federation(peers, params, generate, servers, client),
        indexed_from_zero(peers@.to_set()),
        peers@.contains(id),
        params[id].hbbft.peers.dom() == peers@.to_set(),
    ensures
        servers.contains_key(id),
        servers[id].identity == id,
        servers[id].fault(id) is None,
{
    let set = peers@.to_set();
    let deal = choose|deal: Deal|
        {
            &&& possible_deal(peers, params, generate, deal)
            &&& servers == #[trigger] dealer_servers(set, params, deal)
        };
    assert(set.contains(id));
    lemma_own_share(set, deal.hbbft, id);
    lemma_own_share(set, deal.epoch, id);
    assert(servers[id].peers.dom() =~= set);
}

/// The peers that a dealer configures hold one key for the consensus and one for the epochs: all
/// have the same key sets, and one member more than may misbehave is enough to use them.
pub proof fn dealt_configs_share_keys<
    G: Fn(ModuleKind, &[PeerId], &ModuleConfigGenParams) -> DealtModule,
>(
    peers: &[PeerId],
    params: Map<PeerId, ServerConfigParamsView>,
    generate: G,
    servers: Map<PeerId, ServerConfigView>,
    client: ClientConfigView,
    a: PeerId,
    b: PeerId,
)
    requires
        dealt_federation(peers, params, generate, servers, client),
        peers@.contains(a),
        peers@.contains(b),
    ensures
        servers[a].hbbft_pk_set == servers[b].hbbft_pk_set,
        servers[a].epoch_pk_set == servers[b].epoch_pk_set,
        key_set_threshold(servers[a].hbbft_pk_set) + 1 == one_honest_spec(
            peers@.to_set().len() as int,
        ),
        key_set_threshold(servers[a].epoch_pk_set) + 1 == one_honest_spec(
            peers@.to_set().len() as int,
        ),
{
    let set = peers@.to_set();
    let deal = choose|deal: Deal|
        {
            &&& possible_deal(peers, params, generate, deal)
            &&& servers == #[trigger] dealer_servers(set, params, deal)
        };
    assert(set.contains(a));
    assert(set.contains(b));
    lemma_same_set(set, deal.hbbft, a, b);
    lemma_same_set(set, deal.epoch, a, b);
}

/// A configuration that a dealer gave has the wallet, the mint and the lightning module and no
/// other, so that a configuration for clients can be made from it.
pub proof fn dealt_modules_are_known<
    G: Fn(ModuleKind, &[PeerId], &ModuleConfigGenParams) -> DealtModule,
>(
    peers: &[PeerId],
    params: Map<PeerId, ServerConfigParamsView>,
    generate: G,
    servers: Map<PeerId, ServerConfigView>,
    client: ClientConfigView,
    id: PeerId,
    config: ServerConfig,
)
    requires
        dealt_federation(peers, params, generate, servers, client),
        peers@.contains(id),
        config@ == servers[id],
    ensures
        config.modules_known(),
        forall|name: Seq<char>| #[trigger]
            config.modules@.contains_key(name) <==> kind_of(name) is Some,
        client.modules.dom() == config@.modules.dom(),
{
    let set = peers@.to_set();
    let deal = choose|deal: Deal|
        {
            &&& servers == #[trigger] dealer_servers(set, params, deal)
            &&& client == dealer_client(set, params, deal.modules)
        };
    assert(set.contains(id));
    assert(config@.modules.dom() =~= config.modules@.dom());
    assert(client.modules.dom() =~= config@.modules.dom());
    assert forall|name: Seq<char>| #[trigger]
        config.modules@.contains_key(name) <==> kind_of(name) is Some by {
        assert(config.modules@.contains_key(name) == config@.modules.contains_key(name));
    }
}

/// The dealer's configuration for clients and the one that peer 0 makes from its own
/// configuration agree on the federation's name and on the members' URLs, in the same order. The
/// dealer calls member `i` `peer-i`, the peer calls it `node #i`.
pub proof fn dealt_client_agrees<
    G: Fn(ModuleKind, &[PeerId], &ModuleConfigGenParams) -> DealtModule,
>(
    peers: &[PeerId],
    params: Map<PeerId, ServerConfigParamsView>,
    generate: G,
    servers: Map<PeerId, ServerConfigView>,
    client: ClientConfigView,
    i: int,
)
    requires
        dealt_federation(peers, params, generate, servers, client),
        dealer_ready(peers@.to_set(), params),
        peers@.contains(0),
        params[0].api.peers.dom() == params[0].hbbft.peers.dom(),
        0 <= i < client.nodes.len(),
    ensures
        client.federation_name == servers[0].federation_name,
        client.nodes.len() == servers[0].client_nodes().len(),
        client.nodes[i].url == servers[0].client_nodes()[i].url,
        client.nodes[i].name == peer_name_spec(ids_of(params[0].api.peers.dom())[i]),
        servers[0].client_nodes()[i].name == node_name_spec(ids_of(params[0].api.peers.dom())[i]),
{
    let set = peers@.to_set();
    let deal = choose|deal: Deal|
        {
            &&& servers == #[trigger] dealer_servers(set, params, deal)
            &&& client == dealer_client(set, params, deal.modules)
        };
    assert(set.contains(0));
    let ids = ids_of(params[0].api.peers.dom());
    assert(servers[0].peers.dom() =~= params[0].api.peers.dom());
    lemma_ids_of(params[0].api.peers.dom());
    assert(ids.contains(ids[i]));
}

/// Whether the settings of all peers but peer 0 agree on what a dealer takes from them, and those
/// of peer 0 agree on everything.
pub open spec fn alike_for_a_dealer(
    peers: Set<PeerId>,
    a: Map<PeerId, ServerConfigParamsView>,
    b: Map<PeerId, ServerConfigParamsView>,
) -> bool {
    &&& a[0] == b[0]
    &&& forall|id: PeerId| #[trigger]
        peers.contains(id) ==> {
            &&& a[id].tls == b[id].tls
            &&& a[id].hbbft == b[id].hbbft
            &&& a[id].api == b[id].api
            &&& a[id].federation_name == b[id].federation_name
        }
}

/// The modules of a dealt federation follow the settings of peer 0 alone. Whatever amounts,
/// bitcoin node, extra options and key generation addresses the other peers have in their
/// settings, a dealer can hand out the same, and the same configurations follow from it.
pub proof fn deal_follows_peer_zero<
    G: Fn(ModuleKind, &[PeerId], &ModuleConfigGenParams) -> DealtModule,
>(
    peers: &[PeerId],
    a: Map<PeerId, ServerConfigParamsView>,
    b: Map<PeerId, ServerConfigParamsView>,
    generate: G,
    deal: Deal,
    servers: Map<PeerId, ServerConfigView>,
    client: ClientConfigView,
)
    requires
        alike_for_a_dealer(peers@.to_set(), a, b),
    ensures
        dealer_urls_parse(peers@.to_set(), a) == dealer_urls_parse(peers@.to_set(), b),
        possible_deal(peers, a, generate, deal) == possible_deal(peers, b, generate, deal),
        dealer_servers(peers@.to_set(), a, deal) == dealer_servers(peers@.to_set(), b, deal),
        dealer_client(peers@.to_set(), a, deal.modules) == dealer_client(
            peers@.to_set(),
            b,
            deal.modules,
        ),
        dealt_federation(peers, a, generate, servers, client) == dealt_federation(
            peers,
            b,
            generate,
            servers,
            client,
        ),
{
    let set = peers@.to_set();
    assert forall|d: Deal| #[trigger] dealer_servers(set, a, d) == dealer_servers(set, b, d) by {
        assert forall|id: PeerId| set.contains(id) implies dealer_servers(set, a, d)[id]
            == dealer_servers(set, b, d)[id] by {
            assert(a[id].peers() =~= b[id].peers());
        }
        assert(dealer_servers(set, a, d) =~= dealer_servers(set, b, d));
    }
    if dealt_federation(peers, a, generate, servers, client) {
        let d = choose|d: Deal|
            {
                &&& possible_deal(peers, a, generate, d)
                &&& servers == #[trigger] dealer_servers(set, a, d)
                &&& client == dealer_client(set, a, d.modules)
            };
        assert(servers == dealer_servers(set, b, d));
    }
    if dealt_federation(peers, b, generate, servers, client) {
        let d = choose|d: Deal|
            {
                &&& possible_deal(peers, b, generate, d)
                &&& servers == #[trigger] dealer_servers(set, b, d)
                &&& client == dealer_client(set, b, d.modules)
            };
        assert(servers == dealer_servers(set, a, d));
    }
}

/// A member that is alone asks nothing of others: its generation is over at once, and whatever a
/// dealer hands out for its settings, it gets its own configuration and the one for clients of
/// the federation that follows.
pub proof fn lone_member_gets_the_dealers_config<
    E,
    G: Fn(ModuleKind, &[PeerId], &ModuleConfigGenParams) -> DealtModule,
>(
    our_id: PeerId,
    peers: &[PeerId],
    params: ServerConfigParamsView,
    generate: G,
    deal: Deal,
    next: DkgState,
    action: DkgAction<E>,
)
    requires
        peers@ == seq![our_id],
        possible_deal(peers, map![our_id => params], generate, deal),
        is_step(
            DkgState::Start,
            DkgEvent::Begin,
            our_id,
            peers@.len() as int,
            params,
            next,
            action,
        ),
    ensures
        next is Over,
        action is Deal,
        dealt_alone(
            our_id,
            peers,
            params,
            generate,
            dealer_servers(set![our_id], map![our_id => params], deal)[our_id],
            dealer_client(set![our_id], map![our_id => params], deal.modules),
        ),
{
    let settings = map![our_id => params];
    lemma_lone_set(our_id, peers);
    let servers = dealer_servers(set![our_id], settings, deal);
    let client = dealer_client(set![our_id], settings, deal.modules);
    assert(dealt_federation(peers, settings, generate, servers, client));
}

/// What a member that is alone has got is what follows, by the dealer's rules, from something
/// that a dealer may have handed out for its settings.
pub proof fn lone_config_was_dealt<
    G: Fn(ModuleKind, &[PeerId], &ModuleConfigGenParams) -> DealtModule,
>(
    our_id: PeerId,
    peers: &[PeerId],
    params: ServerConfigParamsView,
    generate: G,
    server: ServerConfigView,
    client: ClientConfigView,
)
    requires
        peers@ == seq![our_id],
        dealt_alone(our_id, peers, params, generate, server, client),
    ensures
        exists|deal: Deal|
            {
                &&& possible_deal(peers, map![our_id => params], generate, deal)
                &&& server == (#[trigger] dealer_servers(
                    set![our_id],
                    map![our_id => params],
                    deal,
                ))[our_id]
                &&& client == dealer_client(set![our_id], map![our_id => params], deal.modules)
            },
{
    lemma_lone_set(our_id, peers);
}

/// The members of a federation of one.
proof fn lemma_lone_set(our_id: PeerId, peers: &[PeerId])
    requires
        peers@ == seq![our_id],
    ensures
        peers@.to_set() == set![our_id],
{
    assert(peers@[0] == our_id);
    assert(peers@.to_set() =~= set![our_id]);
}

/// A peer listens for each service where the others reach it.
pub proof fn peers_listen_where_reached(
    key: Seq<u8>,
    our_id: PeerId,
    amount_tiers: Seq<Amount>,
    peers: Map<PeerId, PeerServerParamsView>,
    federation_name: Seq<char>,
    bitcoind_rpc: Seq<char>,
)
    requires
        peers.contains_key(our_id),
    ensures
        ({
            let params = params_of(
                key,
                our_id,
                amount_tiers,
                peers,
                federation_name,
                bitcoind_rpc,
            );
            &&& params.hbbft.bind_addr == params.hbbft.peers[our_id]
            &&& params.api.bind_addr == params.api.peers[our_id]
            &&& params.server_dkg.bind_addr == params.server_dkg.peers[our_id]
        }),
{
}

/// Generated settings describe every peer, with the name and the certificate that the peer told,
/// and all peers draw the same picture of the federation from their own settings, even if they
/// disagree on everything but the peers.
pub proof fn generated_settings_agree(
    key_a: Seq<u8>,
    key_b: Seq<u8>,
    a: PeerId,
    b: PeerId,
    tiers_a: Seq<Amount>,
    tiers_b: Seq<Amount>,
    peers: Map<PeerId, PeerServerParamsView>,
    name_a: Seq<char>,
    name_b: Seq<char>,
    rpc_a: Seq<char>,
    rpc_b: Seq<char>,
    id: PeerId,
)
    requires
        peers.contains_key(id),
    ensures
        ({
            let ours = params_of(key_a, a, tiers_a, peers, name_a, rpc_a);
            let theirs = params_of(key_b, b, tiers_b, peers, name_b, rpc_b);
            &&& ours.complete()
            &&& ours.nodes_named()
            &&& ours.peers().dom() == peers.dom()
            &&& ours.peers()[id].name == peers[id].name
            &&& ours.peers()[id].tls_cert == peers[id].cert
            &&& ours.peers() == theirs.peers()
        }),
{
    let ours = params_of(key_a, a, tiers_a, peers, name_a, rpc_a);
    let theirs = params_of(key_b, b, tiers_b, peers, name_b, rpc_b);
    assert(ours.hbbft.peers =~= theirs.hbbft.peers);
    assert(ours.api.peers =~= theirs.api.peers);
    assert(ours.peers().dom() =~= peers.dom());
    assert(ours.peers() =~= theirs.peers());
}

/// A configuration gives back the settings that it was made from: the consensus network, and the
/// certificates and names of all peers.
pub proof fn settings_come_back(
    key: Seq<u8>,
    our_id: PeerId,
    amount_tiers: Seq<Amount>,
    peers: Map<PeerId, PeerServerParamsView>,
    federation_name: Seq<char>,
    bitcoind_rpc: Seq<char>,
    hbbft: ThresholdKeysView,
    epoch: ThresholdKeysView,
    modules: Map<Seq<char>, Seq<char>>,
)
    requires
        peers.contains_key(our_id),
    ensures
        ({
            let params = params_of(
                key,
                our_id,
                amount_tiers,
                peers,
                federation_name,
                bitcoind_rpc,
            );
            let config = server_of(params, our_id, params.peers(), hbbft, epoch, modules);
            &&& config.network() == params.hbbft
            &&& config.tls() == params.tls
        }),
{
    let params = params_of(key, our_id, amount_tiers, peers, federation_name, bitcoind_rpc);
    let config = server_of(params, our_id, params.peers(), hbbft, epoch, modules);
    assert(config.network().peers =~= params.hbbft.peers);
    assert(config.tls().peer_certs =~= params.tls.peer_certs);
    assert(config.tls().peer_names =~= params.tls.peer_names);
}

/// No two services of a local federation have the same address, whether they belong to one peer
/// or to two.
pub proof fn local_services_are_apart(
    ids: Set<PeerId>,
    keys: Map<PeerId, (Seq<u8>, Seq<u8>)>,
    base_port: u16,
    our_id: PeerId,
    a: PeerId,
    offset_a: int,
    b: PeerId,
    offset_b: int,
)
    requires
        local_ports_fit(ids, base_port),
        ids.contains(a),
        ids.contains(b),
        0 <= offset_a <= 2,
        0 <= offset_b <= 2,
        a != b || offset_a != offset_b,
    ensures
        network_of(our_id, offset_a, local_peers(ids, keys, base_port)).peers[a] != network_of(
            our_id,
            offset_b,
            local_peers(ids, keys, base_port),
        ).peers[b],
{
    let peers = local_peers(ids, keys, base_port);
    let port_a = base_port + a * ports_per_peer() + offset_a;
    let port_b = base_port + b * ports_per_peer() + offset_b;
    let host = "127.0.0.1"@;
    assert(network_of(our_id, offset_a, peers).peers[a] == host_port_spec(host, port_a));
    assert(network_of(our_id, offset_b, peers).peers[b] == host_port_spec(host, port_b));
    assert(port_a != port_b);
    if host_port_spec(host, port_a) == host_port_spec(host, port_b) {
        lemma_host_port_injective(host, port_a as nat, port_b as nat);
    }
}

/// The settings of a local federation that has a peer 0 are what a dealer needs, and the
/// configurations that it gives from them are without fault if the peers are numbered from 0.
pub proof fn local_federation_is_valid<
    G: Fn(ModuleKind, &[PeerId], &ModuleConfigGenParams) -> DealtModule,
>(
    peers: &[PeerId],
    keys: Map<PeerId, (Seq<u8>, Seq<u8>)>,
    amount_tiers: Seq<Amount>,
    base_port: u16,
    federation_name: Seq<char>,
    bitcoind_rpc: Seq<char>,
    generate: G,
    servers: Map<PeerId, ServerConfigView>,
    client: ClientConfigView,
    id: PeerId,
)
    requires
        peers@.contains(id),
        indexed_from_zero(peers@.to_set()),
    ensures
        ({
            let params = local_params(
                peers@.to_set(),
                keys,
                amount_tiers,
                base_port,
                federation_name,
                bitcoind_rpc,
            );
            &&& dealer_ready(peers@.to_set(), params)
            &&& dealt_federation(peers, params, generate, servers, client) ==> servers[id].fault(
                id,
            ) is None
        }),
{
    let set = peers@.to_set();
    let params = local_params(
        set,
        keys,
        amount_tiers,
        base_port,
        federation_name,
        bitcoind_rpc,
    );
    assert(set.contains(0));
    assert(params[0].api.peers.dom() =~= set);
    assert forall|k: PeerId| #[trigger] set.contains(k) implies params.contains_key(k)
        && params[k].complete() by {
        assert(params[k].hbbft.peers.dom() =~= set);
        assert(params[k].api.peers.dom() =~= set);
        assert(params[k].tls.peer_certs.dom() =~= set);
        assert(params[k].tls.peer_names.dom() =~= set);
    }
    assert(set.contains(id));
    assert(params[id].hbbft.peers.dom() =~= set);
    if dealt_federation(peers, params, generate, servers, client) {
        dealt_configs_are_valid(peers, params, generate, servers, client, id);
    }
}

/// The configuration of a federation that has no other member is without fault if its settings
/// name that member only.
pub proof fn alone_config_is_valid<
    G: Fn(ModuleKind, &[PeerId], &ModuleConfigGenParams) -> DealtModule,
>(
    peers: &[PeerId],
    params: ServerConfigParamsView,
    generate: G,
    server: ServerConfigView,
    client: ClientConfigView,
)
    requires
        dealt_alone(0, peers, params, generate, server, client),
        peers@ == seq![0u16],
        params.hbbft.peers.dom() == set![0u16],
    ensures
        server.identity == 0,
        server.fault(0) is None,
{
    let settings = map![0u16 => params];
    let servers = choose|servers: Map<PeerId, ServerConfigView>|
        {
            &&& server == servers[0]
            &&& #[trigger] dealt_federation(peers, settings, generate, servers, client)
        };
    assert(peers@[0] == 0);
    assert(peers@.to_set() =~= set![0u16]);
    assert(set![0u16].len() == 1);
    assert(indexed_from_zero(peers@.to_set()));
    dealt_configs_are_valid(peers, settings, generate, servers, client, 0);
}

/// How far a generation has come.
pub open spec fn stage(state: DkgState) -> int {
    match state {
        DkgState::Start => 0,
        DkgState::AwaitKeys => 1,
        DkgState::AwaitWallet(_) => 2,
        DkgState::AwaitMint(_, _) => 3,
        DkgState::AwaitLn(_, _, _) => 4,
        DkgState::Over => 5,
    }
}

/// Each step brings the generation further, so that it is over after five of them at most.
pub proof fn every_step_advances<E>(
    state: DkgState,
    event: DkgEvent<E>,
    our_id: PeerId,
    total: int,
    params: ServerConfigParamsView,
    next: DkgState,
    action: DkgAction<E>,
)
    requires
        in_turn(state, event),
        is_step(state, event, our_id, total, params, next, action),
    ensures
        0 <= stage(state) < stage(next) <= 5,
        next is Over <==> (action is Deal || action is Finish || action is InvalidAddress
            || action is Cancel || action is Fail),
{
}

/// A generation in which nobody is cancelled and nothing fails generates the keys, then the
/// wallet, the mint and the lightning module, each once and from the same settings, and ends
/// with what came of them.
pub proof fn generation_runs_in_order<E>(
    our_id: PeerId,
    total: int,
    params: ServerConfigParamsView,
    keys: GroupKeys,
    wallet: ModulePart,
    mint: ModulePart,
    ln: ModulePart,
    states: Seq<DkgState>,
    actions: Seq<DkgAction<E>>,
)
    requires
        total > 1,
        states.len() == 6,
        actions.len() == 5,
        states[0] is Start,
        is_step(states[0], DkgEvent::Begin, our_id, total, params, states[1], actions[0]),
        is_step(
            states[1],
            DkgEvent::Keys(Some(keys)),
            our_id,
            total,
            params,
            states[2],
            actions[1],
        ),
        is_step(
            states[2],
            DkgEvent::Module(Ok(Some(wallet))),
            our_id,
            total,
            params,
            states[3],
            actions[2],
        ),
        is_step(
            states[3],
            DkgEvent::Module(Ok(Some(mint))),
            our_id,
            total,
            params,
            states[4],
            actions[3],
        ),
        is_step(
            states[4],
            DkgEvent::Module(Ok(Some(ln))),
            our_id,
            total,
            params,
            states[5],
            actions[4],
        ),
    ensures
        actions[0] is RunKeyGen,
        actions[0]->RunKeyGen_0@ == key_gen_plan(total),
        asks_for(actions[1], ModuleKind::Wallet, params),
        asks_for(actions[2], ModuleKind::Mint, params),
        asks_for(actions[3], ModuleKind::Ln, params),
        ends_with(actions[4], params, our_id, keys, wallet, mint, ln),
        states[5] is Over,
{
}

/// Whenever the keys or a module are cancelled, the generation ends as cancelled.
pub proof fn cancellation_ends_generation<E>(
    state: DkgState,
    event: DkgEvent<E>,
    our_id: PeerId,
    total: int,
    params: ServerConfigParamsView,
    next: DkgState,
    action: DkgAction<E>,
)
    requires
        is_step(state, event, our_id, total, params, next, action),
        event == DkgEvent::<E>::Keys(None) || event == DkgEvent::<E>::Module(Ok(None)),
    ensures
        next is Over,
        action is Cancel,
{
}

/// Members that generate keys together use a lower threshold for the consensus keys than for the
/// epoch keys: the least number of members of which one is honest.
pub proof fn consensus_threshold_is_lower(total: int)
    requires
        2 <= total <= usize::MAX,
    ensures
        key_gen_plan(total)[0].threshold == max_evil_spec(total) + 1,
        key_gen_plan(total)[0].threshold < key_gen_plan(total)[1].threshold <= total,
{
}

/// A configuration that was generated together is without fault if the generated secrets are
/// those of this member and the settings name the members from 0.
pub proof fn distributed_config_is_valid(
    params: ServerConfigParamsView,
    our_id: PeerId,
    keys: GroupKeys,
    modules: PerModule<ServerModuleConfig>,
)
    requires
        share_matches(keys.hbbft@.secret, keys.hbbft@.set, our_id as int),
        share_matches(keys.epoch@.secret, keys.epoch@.set, our_id as int),
        indexed_from_zero(params.hbbft.peers.dom()),
    ensures
        distributed_server(params, our_id, keys, modules).fault(our_id) is None,
        distributed_server(params, our_id, keys, modules).modules == view_modules(
            by_name(modules),
        ),
{
    assert(params.peers().dom() =~= params.hbbft.peers.dom());
}

/// Members whose settings were generated from the same peers hand out the same configuration to
/// clients, once they have generated the modules together.
pub proof fn distributed_clients_agree(
    key_a: Seq<u8>,
    key_b: Seq<u8>,
    a: PeerId,
    b: PeerId,
    amount_tiers: Seq<Amount>,
    peers: Map<PeerId, PeerServerParamsView>,
    federation_name: Seq<char>,
    bitcoind_rpc: Seq<char>,
    modules: PerModule<ClientModuleConfig>,
)
    ensures
        distributed_client(
            params_of(key_a, a, amount_tiers, peers, federation_name, bitcoind_rpc),
            modules,
        ) == distributed_client(
            params_of(key_b, b, amount_tiers, peers, federation_name, bitcoind_rpc),
            modules,
        ),
{
    assert(network_of(a, 1, peers).peers =~= network_of(b, 1, peers).peers);
}

} // verus!
