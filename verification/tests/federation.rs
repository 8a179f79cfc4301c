use std::cell::RefCell;
use std::collections::{BTreeMap, HashMap};

use federation_config::client::ClientConfig;
use federation_config::dealer::DealtModule;
use federation_config::distributed::{
    DkgAction, DkgEvent, DkgState, GroupKeys, KeyGenRequest, ModulePart,
};
use federation_config::generation::ModuleConfigGenParams;
use federation_config::ids::{Amount, PeerId};
use federation_config::keys::{deal_keys, KeyType};
use federation_config::module_map::ModuleMap;
use federation_config::modules::{ClientModuleConfig, ModuleKind, ServerModuleConfig};
use federation_config::net::ConnectionConfig;
use federation_config::params::{PeerServerParams, ServerConfigParams};
use federation_config::server::{ConfigError, ConfigFault, ModuleError, ServerConfig};
use federation_config::tls::{Certificate, PrivateKey};
use rand::SeedableRng;

fn rng() -> rand::rngs::StdRng {
    rand::rngs::StdRng::from_seed([42; 32])
}

/// Settings of `count` peers, without real certificates.
fn settings(count: u16) -> HashMap<PeerId, ServerConfigParams> {
    let told: BTreeMap<PeerId, PeerServerParams> = (0..count)
        .map(|id| {
            (
                id,
                PeerServerParams {
                    cert: Certificate(vec![id as u8]),
                    address: format!("host{id}"),
                    base_port: 5000,
                    name: format!("Peer {id}"),
                },
            )
        })
        .collect();
    (0..count)
        .map(|id| {
            let params = ServerConfigParams::gen_params(
                PrivateKey(vec![100 + id as u8]),
                id,
                vec![Amount { milli_sat: 8 }],
                &told,
                "Fed".to_owned(),
                "rpc".to_owned(),
            );
            (id, params)
        })
        .collect()
}

fn generate(kind: ModuleKind, peers: &[PeerId], params: &ModuleConfigGenParams) -> DealtModule {
    DealtModule {
        servers: peers
            .iter()
            .map(|id| (*id, ServerModuleConfig(format!("{}-{}", kind.name(), id))))
            .collect(),
        client: ClientModuleConfig(format!("{}-{}", kind.name(), params.mint_amounts.len())),
    }
}

fn dealt(count: u16) -> (BTreeMap<PeerId, ServerConfig>, ClientConfig) {
    let peers: Vec<PeerId> = (0..count).collect();
    ServerConfig::trusted_dealer_gen(&peers, &settings(count), &mut rng(), generate)
}

fn accept(_: ModuleKind, _: &ServerModuleConfig, _: PeerId) -> Result<(), String> {
    Ok(())
}

fn project(kind: ModuleKind, config: &ServerModuleConfig) -> ClientModuleConfig {
    ClientModuleConfig(format!("client of {} {}", kind.name(), config.0))
}

fn module_entries(modules: &ModuleMap<ServerModuleConfig>) -> Vec<(&str, &str)> {
    (0..modules.len())
        .map(|i| (modules.name_at(i).as_str(), modules.value_at(i).0.as_str()))
        .collect()
}

fn node_entries(client: &ClientConfig) -> Vec<(&str, &str)> {
    client.nodes.iter().map(|n| (n.url.as_str(), n.name.as_str())).collect()
}

#[test]
fn dealt_configs_are_valid_for_their_peers_only() {
    let (servers, _) = dealt(4);
    assert_eq!(servers.keys().copied().collect::<Vec<_>>(), vec![0, 1, 2, 3]);
    for (id, config) in &servers {
        assert_eq!(config.identity, *id);
        for other in 0..4 {
            let expected = if other == *id {
                Ok(())
            } else {
                Err(ConfigError::Fault(ConfigFault::EpochKey))
            };
            assert_eq!(config.validate_config(other, accept), expected);
        }
    }
}

#[test]
fn dealt_configs_share_public_keys() {
    let (servers, _) = dealt(3);
    for config in servers.values() {
        assert_eq!(config.hbbft_pk_set.as_json(), servers[&0].hbbft_pk_set.as_json());
        assert_eq!(config.epoch_pk_set.as_json(), servers[&0].epoch_pk_set.as_json());
    }
    assert_ne!(servers[&0].hbbft_pk_set.as_json(), servers[&0].epoch_pk_set.as_json());
}

#[test]
fn dealt_config_follows_the_settings() {
    let (servers, client) = dealt(2);
    let config = &servers[&1];
    assert_eq!(config.federation_name, "Fed");
    assert_eq!(config.hbbft_bind_addr, "host1:5000");
    assert_eq!(config.api_bind_addr, "host1:5001");
    assert_eq!(config.tls_cert, Certificate(vec![1]));
    assert_eq!(config.tls_key, PrivateKey(vec![101]));
    assert_eq!(config.peers, settings(2)[&1].peers());
    assert_eq!(
        module_entries(&config.modules),
        vec![("ln", "ln-1"), ("mint", "mint-1"), ("wallet", "wallet-1")]
    );
    assert_eq!(client.federation_name, "Fed");
    assert_eq!(
        node_entries(&client),
        vec![("ws://host0:5001/", "peer-0"), ("ws://host1:5001/", "peer-1")]
    );
    assert_eq!(client.modules.len(), 3);
    assert_eq!(client.modules.get("wallet"), Some(&ClientModuleConfig("wallet-1".to_owned())));
}

#[test]
fn dealer_stops_at_an_invalid_address() {
    let peers: Vec<PeerId> = vec![0, 1];
    assert!(
        ServerConfig::try_trusted_dealer_gen(&peers, &settings(2), &mut rng(), generate).is_some()
    );
    for broken in [0, 1] {
        let mut settings = settings(2);
        let api = &mut settings.get_mut(&broken).unwrap().api;
        api.peers.insert(1, ConnectionConfig { address: "a b".to_owned() });
        assert!(
            ServerConfig::try_trusted_dealer_gen(&peers, &settings, &mut rng(), generate).is_none()
        );
    }
}

#[test]
fn local_federation_is_valid() {
    let peers: Vec<PeerId> = vec![0, 1, 2, 3];
    let settings = ServerConfigParams::gen_local(&peers, vec![], 9000, "local", "rpc").unwrap();
    let (servers, client) =
        ServerConfig::try_trusted_dealer_gen(&peers, &settings, &mut rng(), generate).unwrap();
    for (id, config) in &servers {
        assert_eq!(config.validate_config(*id, accept), Ok(()));
    }
    assert_eq!(node_entries(&client)[3], ("ws://127.0.0.1:9019/", "peer-3"));
}

#[test]
fn client_config_of_a_server_agrees_with_the_dealers() {
    let (servers, client) = dealt(3);
    let made = servers[&0].to_client_config(project);
    assert_eq!(made.federation_name, client.federation_name);
    assert_eq!(
        node_entries(&made),
        vec![
            ("ws://host0:5001/", "node #0"),
            ("ws://host1:5001/", "node #1"),
            ("ws://host2:5001/", "node #2")
        ]
    );
    for (ours, theirs) in made.nodes.iter().zip(&client.nodes) {
        assert_eq!(ours.url, theirs.url);
    }
    assert_eq!(made.modules.len(), 3);
    assert_eq!(
        made.modules.get("mint"),
        Some(&ClientModuleConfig("client of mint mint-0".to_owned()))
    );
}

#[test]
fn foreign_consensus_key_is_found() {
    // with fewer peers, nobody may misbehave, and all have the same share
    let (mut servers, _) = dealt(4);
    let foreign = servers[&1].hbbft_sks.clone();
    let config = servers.get_mut(&0).unwrap();
    config.hbbft_sks = foreign;
    assert_eq!(
        config.validate_config(0, accept),
        Err(ConfigError::Fault(ConfigFault::HbbftKey))
    );
}

#[test]
fn peers_that_are_not_numbered_from_zero_are_found() {
    for missing in [vec![0], vec![1], vec![0, 1, 2]] {
        let (mut servers, _) = dealt(3);
        let config = servers.get_mut(&0).unwrap();
        for id in &missing {
            config.peers.remove(id);
        }
        assert_eq!(
            config.validate_config(0, accept),
            Err(ConfigError::Fault(ConfigFault::PeerIds))
        );
    }
    // without the last one the others still count from 0
    let (mut servers, _) = dealt(3);
    let config = servers.get_mut(&0).unwrap();
    config.peers.remove(&2);
    assert_eq!(config.validate_config(0, accept), Ok(()));
}

#[test]
fn faults_have_names() {
    assert_eq!(ConfigFault::EpochKey.message(), "Epoch private key doesn't match pubkey share");
    assert_eq!(ConfigFault::HbbftKey.message(), "HBBFT private key doesn't match pubkey share");
    assert_eq!(ConfigFault::PeerIds.message(), "Peer ids are not indexed from 0");
}

#[test]
fn modules_are_checked_in_order_until_one_objects() {
    let (servers, _) = dealt(2);
    let asked = RefCell::new(Vec::new());
    let res = servers[&1].validate_config(1, |kind: ModuleKind, config: &ServerModuleConfig, id| {
        asked.borrow_mut().push((kind, config.0.clone(), id));
        if kind == ModuleKind::Mint {
            Err("mint objects")
        } else {
            Ok(())
        }
    });
    assert_eq!(res, Err(ConfigError::Module("mint objects")));
    assert_eq!(
        asked.into_inner(),
        vec![
            (ModuleKind::Ln, "ln-1".to_owned(), 1),
            (ModuleKind::Mint, "mint-1".to_owned(), 1)
        ]
    );
}

#[test]
fn unknown_module_is_reported_once_it_is_reached() {
    let (servers, _) = dealt(4);
    for (name, position) in [("game", 0), ("loan", 1), ("pool", 2), ("zoo", 3)] {
        let mut config = servers[&0].clone();
        config.modules =
            config.modules.insert(name.to_owned(), ServerModuleConfig("{}".to_owned()));
        assert_eq!(config.try_validate_config(0, accept), Err(position));
        assert_eq!(config.modules.name_at(position), name);
        // a fault comes first
        assert_eq!(
            config.try_validate_config(1, accept),
            Ok(Err(ConfigError::Fault(ConfigFault::EpochKey)))
        );
        // and so does an objection of a module before it
        let asked = RefCell::new(0);
        let objects = |_: ModuleKind, _: &ServerModuleConfig, _: PeerId| {
            *asked.borrow_mut() += 1;
            Err("objection")
        };
        let expected = if position == 0 {
            Err(0)
        } else {
            Ok(Err(ConfigError::Module("objection")))
        };
        assert_eq!(config.try_validate_config(0, objects), expected);
        assert_eq!(asked.into_inner(), if position == 0 { 0 } else { 1 });
    }
    assert_eq!(servers[&0].try_validate_config(0, accept), Ok(Ok(())));
}

#[test]
fn modules_behind_an_objection_or_a_fault_are_not_reached() {
    let (servers, _) = dealt(4);
    let mut config = servers[&0].clone();
    config.modules = config.modules.insert("pool".to_owned(), ServerModuleConfig("{}".to_owned()));
    let objects = |kind: ModuleKind, _: &ServerModuleConfig, _: PeerId| {
        if kind == ModuleKind::Mint {
            Err("mint objects")
        } else {
            Ok(())
        }
    };
    assert_eq!(config.validate_config(0, objects), Err(ConfigError::Module("mint objects")));
    assert_eq!(
        config.validate_config(1, accept),
        Err(ConfigError::Fault(ConfigFault::EpochKey))
    );
}

#[test]
fn modules_follow_the_settings_of_peer_zero() {
    let peers: Vec<PeerId> = vec![0, 1];
    let mut changed = settings(2);
    let other = changed.get_mut(&1).unwrap();
    other.amount_tiers = vec![];
    other.bitcoind_rpc = "elsewhere".to_owned();
    other.other.insert("k".to_owned(), "1".to_owned());
    other.server_dkg.peers.clear();
    let generate = |kind: ModuleKind, peers: &[PeerId], params: &ModuleConfigGenParams| {
        assert_eq!(params.mint_amounts, vec![Amount { milli_sat: 8 }]);
        assert_eq!(params.bitcoin_rpc.btc_rpc_address, "rpc");
        assert!(params.other.is_empty());
        generate(kind, peers, params)
    };
    let (a, client_a) =
        ServerConfig::trusted_dealer_gen(&peers, &settings(2), &mut rng(), generate);
    let (b, client_b) = ServerConfig::trusted_dealer_gen(&peers, &changed, &mut rng(), generate);
    assert_eq!(client_a, client_b);
    for id in peers {
        assert_eq!(a[&id].epoch_pk_set.as_json(), b[&id].epoch_pk_set.as_json());
        assert_eq!(a[&id].hbbft_sks.as_json(), b[&id].hbbft_sks.as_json());
        assert_eq!(a[&id].peers, b[&id].peers);
        assert_eq!(a[&id].modules, b[&id].modules);
    }
}

#[test]
fn module_configs_are_found_by_name() {
    let (servers, _) = dealt(1);
    let typed = |config: &ServerModuleConfig| -> Result<usize, String> {
        if config.0.starts_with("ln") {
            Err("not that type".to_owned())
        } else {
            Ok(config.0.len())
        }
    };
    assert_eq!(servers[&0].get_module_config("wallet", typed), Ok("wallet-0".len()));
    assert_eq!(
        servers[&0].get_module_config("ln", typed),
        Err(ModuleError::Typed("not that type".to_owned()))
    );
    assert_eq!(
        servers[&0].get_module_config("game", typed),
        Err(ModuleError::NotFound("Module game not found".to_owned()))
    );
}

#[test]
fn config_gives_the_settings_back() {
    let settings = settings(3);
    let (servers, _) = dealt(3);
    for (id, config) in &servers {
        assert_eq!(config.network_config(), settings[id].hbbft);
        let tls = config.tls_config();
        assert_eq!(tls.our_certificate, settings[id].tls.our_certificate);
        assert_eq!(tls.our_private_key, settings[id].tls.our_private_key);
        assert_eq!(tls.peer_certs, settings[id].tls.peer_certs);
        assert_eq!(tls.peer_names, settings[id].tls.peer_names);
        assert_eq!(config.get_incoming_count(), *id);
    }
}

fn step(
    state: DkgState,
    event: DkgEvent<String>,
    count: u16,
) -> (DkgState, DkgAction<String>) {
    let peers: Vec<PeerId> = (0..count).collect();
    ServerConfig::distributed_gen(state, event, 1, &peers, &settings(count)[&1])
}

fn group_keys(count: u16) -> GroupKeys {
    let peers: Vec<PeerId> = (0..count).collect();
    let mut rng = rng();
    let mut hbbft = deal_keys(&peers, &mut rng);
    let mut epoch = deal_keys(&peers, &mut rng);
    GroupKeys { hbbft: hbbft.remove(&1).unwrap(), epoch: epoch.remove(&1).unwrap() }
}

fn part(name: &str) -> ModulePart {
    ModulePart {
        server: ServerModuleConfig(format!("{name} server")),
        client: ClientModuleConfig(format!("{name} client")),
    }
}

#[test]
fn generation_runs_through_keys_and_modules() {
    let (state, action) = step(DkgState::Start, DkgEvent::Begin, 4);
    match action {
        DkgAction::RunKeyGen(plan) => assert_eq!(
            plan,
            vec![
                KeyGenRequest { key_type: KeyType::Hbbft, threshold: 2 },
                KeyGenRequest { key_type: KeyType::Epoch, threshold: 3 }
            ]
        ),
        _ => panic!("keys come first"),
    }
    let mut state = state;
    let mut event = DkgEvent::Keys(Some(group_keys(4)));
    for kind in [ModuleKind::Wallet, ModuleKind::Mint, ModuleKind::Ln] {
        let (next, action) = step(state, event, 4);
        match action {
            DkgAction::GenerateModule(asked, params) => {
                assert_eq!(asked, kind);
                assert_eq!(params.mint_amounts, vec![Amount { milli_sat: 8 }]);
                assert_eq!(params.bitcoin_rpc.btc_rpc_address, "rpc");
            }
            _ => panic!("modules follow"),
        }
        state = next;
        event = DkgEvent::Module(Ok(Some(part(kind.name()))));
    }
    let (state, action) = step(state, event, 4);
    assert!(matches!(state, DkgState::Over));
    match action {
        DkgAction::Finish(server, client) => {
            assert_eq!(server.identity, 1);
            assert_eq!(server.validate_config(1, accept), Ok(()));
            assert_eq!(server.peers, settings(4)[&1].peers());
            assert_eq!(
                module_entries(&server.modules),
                vec![("ln", "ln server"), ("mint", "mint server"), ("wallet", "wallet server")]
            );
            assert_eq!(client.federation_name, "Fed");
            assert_eq!(node_entries(&client)[1], ("ws://host1:5001/", "Peer 1"));
            assert_eq!(
                client.modules.get("ln"),
                Some(&ClientModuleConfig("ln client".to_owned()))
            );
        }
        _ => panic!("everything is there"),
    }
}

#[test]
fn members_hand_out_the_same_client_config() {
    let settings = settings(2);
    let clients: Vec<ClientConfig> = [0, 1]
        .iter()
        .map(|id| {
            let (_, action): (DkgState, DkgAction<String>) = ServerConfig::distributed_gen(
                DkgState::AwaitLn(group_keys(2), part("wallet"), part("mint")),
                DkgEvent::Module(Ok(Some(part("ln")))),
                *id,
                &[0, 1],
                &settings[id],
            );
            match action {
                DkgAction::Finish(_, client) => client,
                _ => panic!("everything is there"),
            }
        })
        .collect();
    assert_eq!(clients[0], clients[1]);
}

#[test]
fn generation_ends_when_it_is_cancelled() {
    let (state, action) = step(DkgState::AwaitKeys, DkgEvent::Keys(None), 2);
    assert!(matches!(state, DkgState::Over));
    assert!(matches!(action, DkgAction::Cancel));
    let (state, action) =
        step(DkgState::AwaitMint(group_keys(2), part("wallet")), DkgEvent::Module(Ok(None)), 2);
    assert!(matches!(state, DkgState::Over));
    assert!(matches!(action, DkgAction::Cancel));
}

#[test]
fn generation_ends_when_a_module_fails() {
    let event = DkgEvent::Module(Err("broken".to_owned()));
    let (state, action) = step(DkgState::AwaitWallet(group_keys(2)), event, 2);
    assert!(matches!(state, DkgState::Over));
    match action {
        DkgAction::Fail(error) => assert_eq!(error, "broken"),
        _ => panic!("the error is handed on"),
    }
}

#[test]
fn generation_needs_valid_addresses() {
    let mut settings = settings(2).remove(&1).unwrap();
    settings.api.peers.insert(0, ConnectionConfig { address: "".to_owned() });
    let (state, action): (DkgState, DkgAction<String>) = ServerConfig::distributed_gen(
        DkgState::AwaitLn(group_keys(2), part("wallet"), part("mint")),
        DkgEvent::Module(Ok(Some(part("ln")))),
        1,
        &[0, 1],
        &settings,
    );
    assert!(matches!(state, DkgState::Over));
    assert!(matches!(action, DkgAction::InvalidAddress));
}

#[test]
fn single_member_needs_no_others() {
    let settings = settings(1).remove(&0).unwrap();
    let (state, action): (DkgState, DkgAction<String>) =
        ServerConfig::distributed_gen(DkgState::Start, DkgEvent::Begin, 0, &[0], &settings);
    assert!(matches!(state, DkgState::Over));
    assert!(matches!(action, DkgAction::Deal));

    let (server, client) =
        ServerConfig::alone_gen(0, &[0], &settings, &mut rng(), generate).unwrap();
    assert_eq!(server.validate_config(0, accept), Ok(()));
    assert_eq!(server.tls_key, PrivateKey(vec![100]));
    assert_eq!(node_entries(&client), vec![("ws://host0:5001/", "peer-0")]);

    // the same draw gives the dealer's configurations
    let (servers, dealers_client) = dealt(1);
    assert_eq!(server.hbbft_sks.as_json(), servers[&0].hbbft_sks.as_json());
    assert_eq!(server.epoch_sks.as_json(), servers[&0].epoch_sks.as_json());
    assert_eq!(server.modules, servers[&0].modules);
    assert_eq!(client, dealers_client);
}

#[test]
fn own_config_is_the_one_under_the_own_number() {
    let (own, client) = ServerConfig::own_of(2, dealt(3));
    assert_eq!(own.identity, 2);
    assert_eq!(own.hbbft_bind_addr, "host2:5000");
    assert_eq!(client, dealt(3).1);
}

#[test]
fn single_member_needs_a_valid_address() {
    let mut settings = settings(1).remove(&0).unwrap();
    settings.api.peers.insert(0, ConnectionConfig { address: ":".to_owned() });
    assert!(ServerConfig::alone_gen(0, &[0], &settings, &mut rng(), generate).is_none());
}
