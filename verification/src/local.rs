//! Settings for a federation whose peers all run on one machine.

use crate::ids::{clone_amounts, Amount, PeerId};
use crate::params::{
    params_of, PeerServerParams, PeerServerParamsView, ServerConfigParams, ServerConfigParamsView,
};
use crate::peer_map::{collect_hash_map, collect_map, view_map};
use crate::text::{peer_name, peer_name_spec};
use crate::tls::{
    gen_cert_and_key, generated_key, is_ascii, peer_request, signed_certificate, CertError,
    Certificate, PrivateKey, SignatureAlgorithm,
};
use std::collections::HashMap;
use vstd::prelude::*;

verus! {

broadcast use {
    vstd::std_specs::hash::group_hash_axioms,
    vstd::std_specs::btree::group_btree_axioms,
    vstd::laws_cmp::group_laws_cmp,
};

/// How many ports each peer of a local federation has for itself.
pub open spec fn ports_per_peer() -> int {
    6
}

/// The certificates and keys of a local federation.
pub open spec fn view_keys(keys: Map<PeerId, (Certificate, PrivateKey)>) -> Map<
    PeerId,
    (Seq<u8>, Seq<u8>),
> {
    keys.map_values(|k: (Certificate, PrivateKey)| (k.0@, k.1@))
}

/// What the peers `ids` of a local federation tell each other: all are on this machine, and
/// each has its own ports, from the base port upwards.
pub open spec fn local_peers(
    ids: Set<PeerId>,
    keys: Map<PeerId, (Seq<u8>, Seq<u8>)>,
    base_port: u16,
) -> Map<PeerId, PeerServerParamsView> {
    Map::new(
        |id: PeerId| ids.contains(id),
        |id: PeerId|
            PeerServerParamsView {
                cert: keys[id].0,
                address: "127.0.0.1"@,
                base_port: (base_port + id * ports_per_peer()) as u16,
                name: peer_name_spec(id),
            },
    )
}

/// Whether the ports of each peer in `ids` are ports.
pub open spec fn local_ports_fit(ids: Set<PeerId>, base_port: u16) -> bool {
    forall|id: PeerId| #[trigger]
        ids.contains(id) ==> base_port + id * ports_per_peer() + 2 <= u16::MAX
}

/// The settings of each peer in `ids` of a local federation.
pub open spec fn local_params(
    ids: Set<PeerId>,
    keys: Map<PeerId, (Seq<u8>, Seq<u8>)>,
    amount_tiers: Seq<Amount>,
    base_port: u16,
    federation_name: Seq<char>,
    bitcoind_rpc: Seq<char>,
) -> Map<PeerId, ServerConfigParamsView> {
    Map::new(
        |id: PeerId| ids.contains(id),
        |id: PeerId|
            params_of(
                keys[id].1,
                id,
                amount_tiers,
                local_peers(ids, keys, base_port),
                federation_name,
                bitcoind_rpc,
            ),
    )
}

/// Whether `keys` holds, for each peer in `ids` and no other, a new key and a certificate for it
/// in the peer's name.
pub open spec fn local_keys(ids: Set<PeerId>, keys: Map<PeerId, (Seq<u8>, Seq<u8>)>) -> bool {
    &&& keys.dom() == ids
    &&& forall|id: PeerId| #[trigger]
        ids.contains(id) ==> {
            &&& generated_key(SignatureAlgorithm::EcdsaP256Sha256, keys[id].1)
            &&& signed_certificate(peer_request(peer_name_spec(id)), keys[id].1, keys[id].0)
        }
}

proof fn lemma_peer_name_ascii(id: PeerId)
    ensures
        is_ascii(peer_name_spec(id)),
{
    reveal_strlit("peer-");
    crate::text::lemma_decimal_digits(id as nat);
    let name = peer_name_spec(id);
    assert forall|i: int| 0 <= i < name.len() implies (#[trigger] name[i] as u32) < 128 by {
        if i >= 5 {
            assert(name[i] == crate::text::decimal(id as nat)[i - 5]);
        }
    }
}

/// A key and a certificate in the peer's name for each peer.
fn gen_local_keys(peers: &[PeerId]) -> (res: Result<
    HashMap<PeerId, (Certificate, PrivateKey)>,
    CertError,
>)
    ensures
        res matches Ok(keys) ==> local_keys(peers@.to_set(), view_keys(keys@)),
        peers@.len() == 0 ==> res is Ok,
{
    let mut keys: HashMap<PeerId, (Certificate, PrivateKey)> = HashMap::new();
    for i in 0..peers.len()
        invariant
            keys@.dom() == peers@.take(i as int).to_set(),
            forall|id: PeerId| #[trigger]
                keys@.contains_key(id) ==> {
                    &&& generated_key(SignatureAlgorithm::EcdsaP256Sha256, keys@[id].1@)
                    &&& signed_certificate(
                        peer_request(peer_name_spec(id)),
                        keys@[id].1@,
                        keys@[id].0@,
                    )
                },
    {
        let id: PeerId = peers[i];
        proof {
            lemma_peer_name_ascii(id);
            assert(peers@.take(i + 1) =~= peers@.take(i as int).push(id));
            peers@.take(i as int).lemma_push_to_set_commute(id);
        }
        match gen_cert_and_key(peer_name(id).as_str()) {
            Ok(pair) => {
                keys.insert(id, pair);
            },
            Err(e) => {
                return Err(e);
            },
        }
    }
    proof {
        assert(peers@.take(peers@.len() as int) =~= peers@);
        assert(view_keys(keys@).dom() =~= keys@.dom());
        assert forall|id: PeerId| #[trigger] peers@.to_set().contains(id) implies {
            &&& generated_key(SignatureAlgorithm::EcdsaP256Sha256, view_keys(keys@)[id].1)
            &&& signed_certificate(
                peer_request(peer_name_spec(id)),
                view_keys(keys@)[id].1,
                view_keys(keys@)[id].0,
            )
        } by {
            assert(keys@.contains_key(id));
        }
    }
    Ok(keys)
}

impl ServerConfigParams {
    /// The settings of each of `peers`, which all run on this machine with the given
    /// certificates and keys.
    pub fn gen_local_with(
        peers: &[PeerId],
        keys: &HashMap<PeerId, (Certificate, PrivateKey)>,
        amount_tiers: &Vec<Amount>,
        base_port: u16,
        federation_name: &str,
        bitcoind_rpc: &str,
    ) -> (params: HashMap<PeerId, ServerConfigParams>)
        requires
            peers@.to_set().subset_of(keys@.dom()),
            local_ports_fit(peers@.to_set(), base_port),
        ensures
            view_map(params@) == local_params(
                peers@.to_set(),
                view_keys(keys@),
                amount_tiers@,
                base_port,
                federation_name@,
                bitcoind_rpc@,
            ),
    {
        let describe = |id: PeerId| -> (params: PeerServerParams)
            requires
                keys@.contains_key(id),
                base_port + id * 6 + 2 <= u16::MAX,
            ensures
                params@ == (PeerServerParamsView {
                    cert: keys@[id].0@,
                    address: "127.0.0.1"@,
                    base_port: (base_port + id * 6) as u16,
                    name: peer_name_spec(id),
                }),
            {
                PeerServerParams {
                    cert: keys.get(&id).unwrap().0.clone(),
                    address: "127.0.0.1".to_owned(),
                    base_port: base_port + id * 6,
                    name: peer_name(id),
                }
            };
        proof {
            assert forall|id: PeerId| peers@.contains(id) implies #[trigger] describe.requires(
                (id,),
            ) by {
                assert(peers@.to_set().contains(id));
            }
        }
        let peer_params = collect_map(peers, describe);
        let ghost views = view_map(peer_params@);
        proof {
            assert(views =~= local_peers(peers@.to_set(), view_keys(keys@), base_port));
            assert forall|id: PeerId| #[trigger] views.contains_key(id) implies views[id].base_port
                + 2 <= u16::MAX by {
                assert(peers@.to_set().contains(id));
            }
        }
        let settle = |id: PeerId| -> (params: ServerConfigParams)
            requires
                keys@.contains_key(id),
                peer_params@.contains_key(id),
                crate::params::ports_fit(view_map(peer_params@), 2),
            ensures
                params@ == params_of(
                    keys@[id].1@,
                    id,
                    amount_tiers@,
                    view_map(peer_params@),
                    federation_name@,
                    bitcoind_rpc@,
                ),
            {
                ServerConfigParams::gen_params(
                    keys.get(&id).unwrap().1.clone(),
                    id,
                    clone_amounts(amount_tiers),
                    &peer_params,
                    federation_name.to_owned(),
                    bitcoind_rpc.to_owned(),
                )
            };
        proof {
            assert forall|id: PeerId| peers@.contains(id) implies #[trigger] settle.requires(
                (id,),
            ) by {
                assert(peers@.to_set().contains(id));
            }
        }
        let params = collect_hash_map(peers, settle);
        proof {
            assert(view_map(params@) =~= local_params(
                peers@.to_set(),
                view_keys(keys@),
                amount_tiers@,
                base_port,
                federation_name@,
                bitcoind_rpc@,
            ));
        }
        params
    }

    /// config for servers running on different ports on a local network
    ///
    /// Each peer gets a new key and a certificate in its name. Whether there are any depends on
    /// the system's randomness; `gen_local_with` says what follows once they are there.
    pub fn gen_local(
        peers: &[PeerId],
        amount_tiers: Vec<Amount>,
        base_port: u16,
        federation_name: &str,
        bitcoind_rpc: &str,
    ) -> (res: Result<HashMap<PeerId, ServerConfigParams>, CertError>)
        requires
            local_ports_fit(peers@.to_set(), base_port),
        ensures
            res matches Ok(params) ==> exists|keys: Map<PeerId, (Seq<u8>, Seq<u8>)>|
                {
                    &&& #[trigger] local_keys(peers@.to_set(), keys)
                    &&& view_map(params@) == local_params(
                        peers@.to_set(),
                        keys,
                        amount_tiers@,
                        base_port,
                        federation_name@,
                        bitcoind_rpc@,
                    )
                },
            peers@.len() == 0 ==> res is Ok,
    {
        let keys = match gen_local_keys(peers) {
            Ok(keys) => keys,
            Err(e) => {
                return Err(e);
            },
        };
        proof {
            assert(view_keys(keys@).dom() =~= keys@.dom());
        }
        Ok(
            ServerConfigParams::gen_local_with(
                peers,
                &keys,
                &amount_tiers,
                base_port,
                federation_name,
                bitcoind_rpc,
            ),
        )
    }
}

} // verus!
