use std::collections::{BTreeMap, HashMap};

use federation_config::ids::{Amount, PeerId};
use federation_config::net::{ConnectionConfig, NetworkConfig};
use federation_config::params::{PeerServerParams, ServerConfigParams};
use federation_config::tls::{Certificate, PrivateKey};

fn told(cert: u8, address: &str, base_port: u16, name: &str) -> PeerServerParams {
    PeerServerParams {
        cert: Certificate(vec![cert]),
        address: address.to_owned(),
        base_port,
        name: name.to_owned(),
    }
}

fn two_peers() -> BTreeMap<PeerId, PeerServerParams> {
    BTreeMap::from([
        (0, told(10, "alpha.example", 4000, "Alpha")),
        (1, told(11, "10.0.0.2", 65533, "Beta")),
    ])
}

fn settings_of(our_id: PeerId) -> ServerConfigParams {
    ServerConfigParams::gen_params(
        PrivateKey(vec![99]),
        our_id,
        vec![Amount { milli_sat: 1 }, Amount { milli_sat: 10 }],
        &two_peers(),
        "Federation".to_owned(),
        "127.0.0.1:18443".to_owned(),
    )
}

fn addresses(network: &NetworkConfig) -> Vec<(PeerId, &str)> {
    network.peers.iter().map(|(id, c)| (*id, c.address.as_str())).collect()
}

#[test]
fn services_stand_on_consecutive_ports() {
    let settings = settings_of(1);
    assert_eq!(settings.hbbft.identity, 1);
    assert_eq!(settings.hbbft.bind_addr, "10.0.0.2:65533");
    assert_eq!(settings.api.bind_addr, "10.0.0.2:65534");
    assert_eq!(settings.server_dkg.bind_addr, "10.0.0.2:65535");
    assert_eq!(
        addresses(&settings.hbbft),
        vec![(0, "alpha.example:4000"), (1, "10.0.0.2:65533")]
    );
    assert_eq!(
        addresses(&settings.api),
        vec![(0, "alpha.example:4001"), (1, "10.0.0.2:65534")]
    );
    assert_eq!(
        addresses(&settings.server_dkg),
        vec![(0, "alpha.example:4002"), (1, "10.0.0.2:65535")]
    );
}

#[test]
fn peers_listen_where_they_are_reached() {
    for id in [0, 1] {
        let settings = settings_of(id);
        for network in [&settings.hbbft, &settings.api, &settings.server_dkg] {
            assert_eq!(network.identity, id);
            assert_eq!(network.peers[&id].address, network.bind_addr);
        }
    }
}

#[test]
fn settings_hold_what_the_peers_told() {
    let settings = settings_of(0);
    assert_eq!(settings.tls.our_certificate, Certificate(vec![10]));
    assert_eq!(settings.tls.our_private_key, PrivateKey(vec![99]));
    assert_eq!(
        settings.tls.peer_certs,
        HashMap::from([(0, Certificate(vec![10])), (1, Certificate(vec![11]))])
    );
    assert_eq!(
        settings.tls.peer_names,
        HashMap::from([(0, "Alpha".to_owned()), (1, "Beta".to_owned())])
    );
    assert_eq!(settings.amount_tiers, vec![Amount { milli_sat: 1 }, Amount { milli_sat: 10 }]);
    assert_eq!(settings.federation_name, "Federation");
    assert_eq!(settings.bitcoind_rpc, "127.0.0.1:18443");
    assert!(settings.other.is_empty());
}

#[test]
fn described_peers_are_the_same_for_all() {
    let peers = settings_of(0).peers();
    assert_eq!(peers, settings_of(1).peers());
    assert_eq!(peers.len(), 2);
    assert_eq!(peers[&0].name, "Alpha");
    assert_eq!(peers[&0].hbbft.address, "alpha.example:4000");
    assert_eq!(peers[&0].tls_cert, Certificate(vec![10]));
    assert_eq!(peers[&0].api_addr.as_str(), "ws://alpha.example:4001/");
    assert_eq!(peers[&1].api_addr.as_str(), "ws://10.0.0.2:65534/");
    assert_eq!(settings_of(1).try_peers(), Some(peers));
}

#[test]
fn peers_with_an_invalid_address_are_not_described() {
    let mut settings = settings_of(0);
    settings.api.peers.insert(1, ConnectionConfig { address: "no port:x".to_owned() });
    assert!(settings.api_urls().is_none());
    assert_eq!(settings.try_peers(), None);
}

#[test]
fn nodes_are_listed_in_ascending_order() {
    let settings = settings_of(1);
    let names = HashMap::from([(1, "second".to_owned()), (0, "first".to_owned())]);
    let nodes = settings.api.nodes("ws://", &names);
    let nodes: Vec<(&str, &str)> =
        nodes.iter().map(|n| (n.url.as_str(), n.name.as_str())).collect();
    assert_eq!(
        nodes,
        vec![("ws://alpha.example:4001/", "first"), ("ws://10.0.0.2:65534/", "second")]
    );
    assert!(settings.api.try_nodes("ws://", &names).is_some());
    assert!(settings.api.try_nodes("", &names).is_none());
}

#[test]
fn module_settings_follow_the_peer() {
    let mut settings = settings_of(0);
    settings.other.insert("k".to_owned(), "true".to_owned());
    let params = settings.module_params();
    assert_eq!(params.mint_amounts, settings.amount_tiers);
    assert_eq!(params.bitcoin_rpc.btc_rpc_address, "127.0.0.1:18443");
    assert_eq!(params.bitcoin_rpc.btc_rpc_user, "bitcoin");
    assert_eq!(params.bitcoin_rpc.btc_rpc_pass, "bitcoin");
    assert_eq!(params.other, settings.other);
}

#[test]
fn local_peers_have_ports_of_their_own() {
    let local = ServerConfigParams::gen_local(
        &[0, 1, 2],
        vec![Amount { milli_sat: 7 }],
        17000,
        "local",
        "rpc",
    )
    .unwrap();
    assert_eq!(local.len(), 3);
    let two = &local[&2];
    assert_eq!(two.hbbft.bind_addr, "127.0.0.1:17012");
    assert_eq!(two.api.bind_addr, "127.0.0.1:17013");
    assert_eq!(two.server_dkg.bind_addr, "127.0.0.1:17014");
    assert_eq!(
        addresses(&two.hbbft),
        vec![(0, "127.0.0.1:17000"), (1, "127.0.0.1:17006"), (2, "127.0.0.1:17012")]
    );
    assert_eq!(two.tls.peer_names[&1], "peer-1");
    assert_eq!(two.federation_name, "local");
    assert_eq!(two.bitcoind_rpc, "rpc");
    assert_eq!(two.amount_tiers, vec![Amount { milli_sat: 7 }]);

    let mut all: Vec<String> = local
        .values()
        .flat_map(|s| {
            vec![s.hbbft.bind_addr.clone(), s.api.bind_addr.clone(), s.server_dkg.bind_addr.clone()]
        })
        .collect();
    all.sort();
    all.dedup();
    assert_eq!(all.len(), 9);
}

#[test]
fn local_peers_know_each_others_certificates() {
    let local =
        ServerConfigParams::gen_local(&[0, 1], vec![], 20000, "local", "rpc").unwrap();
    for (id, settings) in &local {
        assert_eq!(settings.tls.peer_certs[id], settings.tls.our_certificate);
        assert_eq!(settings.tls.peer_certs, local[&0].tls.peer_certs);
    }
    assert_ne!(local[&0].tls.our_private_key, local[&1].tls.our_private_key);
    assert_eq!(local[&0].peers(), local[&1].peers());
}

#[test]
fn local_federation_may_be_empty() {
    let local = ServerConfigParams::gen_local(&[], vec![], 65535, "none", "rpc").unwrap();
    assert!(local.is_empty());
}
