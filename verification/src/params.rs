//! The settings from which a peer's configuration is generated.

use crate::address::Url;
use crate::ids::{clone_amounts, Amount, PeerId};
use crate::modules::Json;
use crate::net::{
    all_parse, parse_addresses, prefixed_urls, ConnectionConfig, NetworkConfig, NetworkConfigView,
};
use crate::peer::{Peer, PeerView};
use crate::peer_map::{collect_hash_map, collect_map, sorted_ids, view_map};
use crate::text::{host_port, host_port_spec};
use crate::tls::{Certificate, PrivateKey, TlsConfig, TlsConfigView};
use std::collections::BTreeMap;
use vstd::prelude::*;

verus! {

broadcast use {
    vstd::std_specs::hash::group_hash_axioms,
    vstd::std_specs::btree::group_btree_axioms,
    vstd::laws_cmp::group_laws_cmp,
};

/// What a peer tells the others before the federation is set up.
#[derive(Debug, PartialEq, Eq)]
pub struct PeerServerParams {
    pub cert: Certificate,
    pub address: String,
    pub base_port: u16,
    pub name: String,
}

/// What a `PeerServerParams` holds.
#[verifier::ext_equal]
pub struct PeerServerParamsView {
    pub cert: Seq<u8>,
    pub address: Seq<char>,
    pub base_port: u16,
    pub name: Seq<char>,
}

impl View for PeerServerParams {
    type V = PeerServerParamsView;

    open spec fn view(&self) -> PeerServerParamsView {
        PeerServerParamsView {
            cert: self.cert@,
            address: self.address@,
            base_port: self.base_port,
            name: self.name@,
        }
    }
}

/// network config for a server
#[derive(Debug)]
pub struct ServerConfigParams {
    pub tls: TlsConfig,
    pub hbbft: NetworkConfig,
    pub api: NetworkConfig,
    pub server_dkg: NetworkConfig,
    pub amount_tiers: Vec<Amount>,
    pub federation_name: String,
    pub bitcoind_rpc: String,
    /// extra options for extra settings and modules
    pub other: BTreeMap<String, Json>,
}

/// What a `ServerConfigParams` holds.
#[verifier::ext_equal]
pub struct ServerConfigParamsView {
    pub tls: TlsConfigView,
    pub hbbft: NetworkConfigView,
    pub api: NetworkConfigView,
    pub server_dkg: NetworkConfigView,
    pub amount_tiers: Seq<Amount>,
    pub federation_name: Seq<char>,
    pub bitcoind_rpc: Seq<char>,
    pub other: Map<String, Json>,
}

impl View for ServerConfigParams {
    type V = ServerConfigParamsView;

    open spec fn view(&self) -> ServerConfigParamsView {
        ServerConfigParamsView {
            tls: self.tls@,
            hbbft: self.hbbft@,
            api: self.api@,
            server_dkg: self.server_dkg@,
            amount_tiers: self.amount_tiers@,
            federation_name: self.federation_name@,
            bitcoind_rpc: self.bitcoind_rpc@,
            other: self.other@,
        }
    }
}

/// The network in which `our_id` takes part with the service that every peer offers `offset`
/// ports above its base port.
pub open spec fn network_of(
    our_id: PeerId,
    offset: int,
    peers: Map<PeerId, PeerServerParamsView>,
) -> NetworkConfigView {
    NetworkConfigView {
        identity: our_id,
        bind_addr: host_port_spec(peers[our_id].address, peers[our_id].base_port + offset),
        peers: peers.map_values(
            |p: PeerServerParamsView| host_port_spec(p.address, p.base_port + offset),
        ),
    }
}

/// The settings of `our_id` among `peers`.
pub open spec fn params_of(
    key: Seq<u8>,
    our_id: PeerId,
    amount_tiers: Seq<Amount>,
    peers: Map<PeerId, PeerServerParamsView>,
    federation_name: Seq<char>,
    bitcoind_rpc: Seq<char>,
) -> ServerConfigParamsView {
    ServerConfigParamsView {
        tls: TlsConfigView {
            our_certificate: peers[our_id].cert,
            our_private_key: key,
            peer_certs: peers.map_values(|p: PeerServerParamsView| p.cert),
            peer_names: peers.map_values(|p: PeerServerParamsView| p.name),
        },
        hbbft: network_of(our_id, 0, peers),
        api: network_of(our_id, 1, peers),
        server_dkg: network_of(our_id, 2, peers),
        amount_tiers,
        federation_name,
        bitcoind_rpc,
        other: Map::empty(),
    }
}

/// Whether each peer has `room` ports above its base port.
pub open spec fn ports_fit(peers: Map<PeerId, PeerServerParamsView>, room: int) -> bool {
    forall|id: PeerId| #[trigger]
        peers.contains_key(id) ==> peers[id].base_port + room <= u16::MAX
}

/// The peers that the settings describe, each with its API at the URL under its id.
pub open spec fn peers_at_spec(
    params: ServerConfigParamsView,
    urls: Map<PeerId, Seq<char>>,
) -> Map<PeerId, PeerView> {
    Map::new(
        |id: PeerId| params.hbbft.peers.contains_key(id),
        |id: PeerId|
            PeerView {
                hbbft: params.hbbft.peers[id],
                tls_cert: params.tls.peer_certs[id],
                api_addr: urls[id],
                name: params.tls.peer_names[id],
            },
    )
}

/// The scheme of the API addresses.
pub open spec fn api_scheme() -> Seq<char> {
    "ws://"@
}

impl ServerConfigParamsView {
    /// Whether the settings name a certificate, a name and an API address for each peer.
    pub open spec fn complete(self) -> bool {
        &&& self.hbbft.peers.dom().subset_of(self.tls.peer_certs.dom())
        &&& self.hbbft.peers.dom().subset_of(self.tls.peer_names.dom())
        &&& self.hbbft.peers.dom().subset_of(self.api.peers.dom())
    }

    /// Whether the API addresses of the peers are URLs.
    pub open spec fn peer_urls_parse(self) -> bool {
        all_parse(api_scheme(), self.api.peers, self.hbbft.peers.dom())
    }

    /// The URLs of the peers' APIs.
    pub open spec fn peer_urls(self) -> Map<PeerId, Seq<char>> {
        prefixed_urls(api_scheme(), self.api.peers, self.hbbft.peers.dom())
    }

    /// The peers that the settings describe.
    pub open spec fn peers(self) -> Map<PeerId, PeerView> {
        peers_at_spec(self, self.peer_urls())
    }
}

impl Clone for ServerConfigParams {
    fn clone(&self) -> (copy: Self)
        ensures
            copy@ == self@,
    {
        ServerConfigParams {
            tls: self.tls.clone(),
            hbbft: self.hbbft.clone(),
            api: self.api.clone(),
            server_dkg: self.server_dkg.clone(),
            amount_tiers: clone_amounts(&self.amount_tiers),
            federation_name: self.federation_name.clone(),
            bitcoind_rpc: self.bitcoind_rpc.clone(),
            other: self.other.clone(),
        }
    }
}

impl ServerConfigParams {
    /// The URLs of the peers' APIs. `None` if one of the addresses is not a URL.
    pub fn api_urls(&self) -> (urls: Option<BTreeMap<PeerId, Url>>)
        requires
            self@.complete(),
        ensures
            match urls {
                Some(urls) => self@.peer_urls_parse() && view_map(urls@) == self@.peer_urls(),
                None => !self@.peer_urls_parse(),
            },
    {
        let ids = sorted_ids(&self.hbbft.peers);
        proof {
            assert(self@.hbbft.peers.dom() =~= self.hbbft.peers@.dom());
            assert(self@.api.peers.dom() =~= self.api.peers@.dom());
        }
        parse_addresses("ws://", &self.api.peers, &ids)
    }

    /// The peers that the settings describe, each with its API at the URL under its id.
    pub fn peers_at(&self, urls: &BTreeMap<PeerId, Url>) -> (peers: BTreeMap<PeerId, Peer>)
        requires
            self@.complete(),
            self@.hbbft.peers.dom().subset_of(urls@.dom()),
        ensures
            view_map(peers@) == peers_at_spec(self@, view_map(urls@)),
    {
        let ids = sorted_ids(&self.hbbft.peers);
        proof {
            assert(self@.hbbft.peers.dom() =~= self.hbbft.peers@.dom());
            assert(self@.tls.peer_certs.dom() =~= self.tls.peer_certs@.dom());
            assert(self@.tls.peer_names.dom() =~= self.tls.peer_names@.dom());
        }
        let describe = |id: PeerId| -> (peer: Peer)
            requires
                self.hbbft.peers@.contains_key(id),
                self.tls.peer_certs@.contains_key(id),
                self.tls.peer_names@.contains_key(id),
                urls@.contains_key(id),
            ensures
                peer@ == (PeerView {
                    hbbft: self.hbbft.peers@[id]@,
                    tls_cert: self.tls.peer_certs@[id]@,
                    api_addr: urls@[id]@,
                    name: self.tls.peer_names@[id]@,
                }),
            {
                Peer {
                    name: self.tls.peer_names.get(&id).unwrap().clone(),
                    hbbft: self.hbbft.peers.get(&id).unwrap().clone(),
                    tls_cert: self.tls.peer_certs.get(&id).unwrap().clone(),
                    api_addr: urls.get(&id).unwrap().clone(),
                }
            };
        proof {
            assert forall|id: PeerId| ids@.contains(id) implies #[trigger] describe.requires(
                (id,),
            ) by {
                assert(ids@.to_set().contains(id));
            }
        }
        let peers = collect_map(ids.as_slice(), describe);
        proof {
            assert(view_map(peers@) =~= peers_at_spec(self@, view_map(urls@)));
        }
        peers
    }

    /// The peers that the settings describe.
    pub fn peers(&self) -> (peers: BTreeMap<PeerId, Peer>)
        requires
            self@.complete(),
            self@.peer_urls_parse(),
        ensures
            view_map(peers@) == self@.peers(),
    {
        match self.api_urls() {
            Some(urls) => {
                proof {
                    assert(view_map(urls@).dom() =~= urls@.dom());
                    assert(self@.peer_urls().dom() =~= self@.hbbft.peers.dom());
                }
                self.peers_at(&urls)
            },
            None => BTreeMap::new(),
        }
    }

    /// The peers that the settings describe. `None` if the API address of one of them is not a
    /// URL.
    pub fn try_peers(&self) -> (peers: Option<BTreeMap<PeerId, Peer>>)
        requires
            self@.complete(),
        ensures
            match peers {
                Some(peers) => self@.peer_urls_parse() && view_map(peers@) == self@.peers(),
                None => !self@.peer_urls_parse(),
            },
    {
        match self.api_urls() {
            Some(_) => Some(self.peers()),
            None => None,
        }
    }

    /// The settings of `our_id` among `peers`.
    pub fn gen_params(
        key: PrivateKey,
        our_id: PeerId,
        amount_tiers: Vec<Amount>,
        peers: &BTreeMap<PeerId, PeerServerParams>,
        federation_name: String,
        bitcoind_rpc: String,
    ) -> (params: ServerConfigParams)
        requires
            peers@.contains_key(our_id),
            ports_fit(view_map(peers@), 2),
        ensures
            params@ == params_of(
                key@,
                our_id,
                amount_tiers@,
                view_map(peers@),
                federation_name@,
                bitcoind_rpc@,
            ),
    {
        let ids = sorted_ids(peers);
        let cert_of = |id: PeerId| -> (cert: Certificate)
            requires
                peers@.contains_key(id),
            ensures
                cert@ == peers@[id].cert@,
            { peers.get(&id).unwrap().cert.clone() };
        let name_of = |id: PeerId| -> (name: String)
            requires
                peers@.contains_key(id),
            ensures
                name@ == peers@[id].name@,
            { peers.get(&id).unwrap().name.clone() };
        proof {
            assert forall|id: PeerId| ids@.contains(id) implies #[trigger] cert_of.requires(
                (id,),
            ) by {
                assert(ids@.to_set().contains(id));
            }
            assert forall|id: PeerId| ids@.contains(id) implies #[trigger] name_of.requires(
                (id,),
            ) by {
                assert(ids@.to_set().contains(id));
            }
        }
        let peer_certs = collect_hash_map(ids.as_slice(), cert_of);
        let peer_names = collect_hash_map(ids.as_slice(), name_of);
        let tls = TlsConfig {
            our_certificate: peers.get(&our_id).unwrap().cert.clone(),
            our_private_key: key,
            peer_certs,
            peer_names,
        };
        proof {
            let views = view_map(peers@);
            assert(tls@.peer_certs =~= views.map_values(|p: PeerServerParamsView| p.cert));
            assert(tls@.peer_names =~= views.map_values(|p: PeerServerParamsView| p.name));
            assert(ports_fit(views, 0));
            assert(ports_fit(views, 1));
        }
        ServerConfigParams {
            tls,
            hbbft: Self::gen_network(our_id, 0, peers),
            api: Self::gen_network(our_id, 1, peers),
            server_dkg: Self::gen_network(our_id, 2, peers),
            amount_tiers,
            federation_name,
            bitcoind_rpc,
            other: BTreeMap::new(),
        }
    }

    /// The network of the service that every peer offers `offset` ports above its base port.
    fn gen_network(
        our_id: PeerId,
        offset: u16,
        peers: &BTreeMap<PeerId, PeerServerParams>,
    ) -> (network: NetworkConfig)
        requires
            peers@.contains_key(our_id),
            ports_fit(view_map(peers@), offset as int),
        ensures
            network@ == network_of(our_id, offset as int, view_map(peers@)),
    {
        let ids = sorted_ids(peers);
        let connect = |id: PeerId| -> (connection: ConnectionConfig)
            requires
                peers@.contains_key(id),
                peers@[id].base_port + offset <= u16::MAX,
            ensures
                connection@ == host_port_spec(
                    peers@[id].address@,
                    peers@[id].base_port + offset,
                ),
            {
                let params = peers.get(&id).unwrap();
                ConnectionConfig {
                    address: host_port(params.address.as_str(), params.base_port + offset),
                }
            };
        proof {
            let views = view_map(peers@);
            assert(views.contains_key(our_id));
            assert forall|id: PeerId| ids@.contains(id) implies #[trigger] connect.requires(
                (id,),
            ) by {
                assert(ids@.to_set().contains(id));
                assert(views.contains_key(id));
            }
        }
        let connections = collect_map(ids.as_slice(), connect);
        let ours = peers.get(&our_id).unwrap();
        let network = NetworkConfig {
            identity: our_id,
            bind_addr: host_port(ours.address.as_str(), ours.base_port + offset),
            peers: connections,
        };
        proof {
            assert(network@.peers =~= network_of(our_id, offset as int, view_map(peers@)).peers);
        }
        network
    }
}

} // verus!
