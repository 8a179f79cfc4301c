//! What holds of settings, of the certificates in them and of the peers that they describe, in
//! terms of what the functions are given and what they answer.

use crate::address::{url_of, Url};
use crate::client::{view_nodes, Node};
use crate::generation::ModuleConfigGenParams;
use crate::ids::{Amount, PeerId};
use crate::local::local_keys;
use crate::net::{parse_addresses, ConnectionConfig, NetworkConfig};
use crate::params::{network_of, PeerServerParams, PeerServerParamsView, ServerConfigParams};
use crate::peer::Peer;
use crate::peer_map::{
    collect_hash_map, collect_map, ids_of, lemma_ids_of, sorted_ids, view_map,
};
use crate::text::{decimal, lemma_decimal_injective};
use crate::tls::{
    certificate_request, certified, gen_cert_and_key, generated_key, signed_certificate, CertError,
    Certificate, CertificateRequest, CertificateRequestView, IsCa, PrivateKey, SignatureAlgorithm,
};
use std::collections::{BTreeMap, HashMap};
use vstd::prelude::*;

verus! {

/// The request for a peer's certificate names the peer as the subject and as the only alternative
/// name, and asks for a signature by ECDSA on P-256 and for no authority over others.
pub proof fn request_names_the_peer(name: &str, request: CertificateRequest)
    requires
        call_ensures(certificate_request, (name,), request),
    ensures
        request.common_name@ == name@,
        request.subject_alt_names@.len() == 1,
        request.subject_alt_names@[0]@ == name@,
        request.algorithm == SignatureAlgorithm::EcdsaP256Sha256,
        request.is_ca == IsCa::NoCa,
{
    assert(request@.subject_alt_names.len() == 1);
    assert(request@.subject_alt_names[0] == name@);
}

/// A certificate comes with the key that signed it, in the name that was asked for.
pub proof fn certificate_is_for_its_key(
    name: &str,
    res: Result<(Certificate, PrivateKey), CertError>,
)
    requires
        call_ensures(gen_cert_and_key, (name,), res),
        res is Ok,
    ensures
        generated_key(SignatureAlgorithm::EcdsaP256Sha256, res->Ok_0.1.0@),
        signed_certificate(
            (CertificateRequestView {
                algorithm: SignatureAlgorithm::EcdsaP256Sha256,
                subject_alt_names: seq![name@],
                common_name: name@,
                is_ca: IsCa::NoCa,
            }),
            res->Ok_0.1.0@,
            res->Ok_0.0.0@,
        ),
{
}

/// The certificate and the key that were got are handed on, each as what it is; else the error
/// of the step that failed.
pub proof fn certified_hands_on(
    asked: Result<(Vec<u8>, Result<Vec<u8>, rcgen::RcgenError>), rcgen::RcgenError>,
    res: Result<(Certificate, PrivateKey), CertError>,
)
    requires
        call_ensures(certified, (asked,), res),
    ensures
        res is Ok <==> asked is Ok && asked->Ok_0.1 is Ok,
        res is Ok ==> res->Ok_0.0.0@ == (asked->Ok_0.1)->Ok_0@,
        res is Ok ==> res->Ok_0.1.0@ == asked->Ok_0.0@,
        asked matches Err(e) ==> res->Err_0 == CertError::KeyPair(e),
        asked matches Ok((_, Err(e))) ==> res->Err_0 == CertError::Certificate(e),
{
}

/// Addresses of one host are different if their ports are.
proof fn lemma_ports_apart(host: Seq<char>, a: nat, b: nat)
    requires
        host + seq![':'] + decimal(a) == host + seq![':'] + decimal(b),
    ensures
        a == b,
{
    let front = host + seq![':'];
    assert((front + decimal(a)).skip(front.len() as int) =~= decimal(a));
    assert((front + decimal(b)).skip(front.len() as int) =~= decimal(b));
    lemma_decimal_injective(a, b);
}

/// What a network holds that offers a service at the peers' addresses.
proof fn lemma_network(
    network: NetworkConfig,
    our_id: PeerId,
    offset: int,
    peers: Map<PeerId, PeerServerParamsView>,
    id: PeerId,
)
    requires
        network@ == network_of(our_id, offset, peers),
        peers.contains_key(our_id),
        peers.contains_key(id),
    ensures
        network.identity == our_id,
        network.peers@.dom() == peers.dom(),
        network.peers@[id].address@ == peers[id].address + seq![':'] + decimal(
            (peers[id].base_port + offset) as nat,
        ),
        network.bind_addr@ == network.peers@[our_id].address@,
{
    reveal_strlit(":");
    assert(":"@ =~= seq![':']);
    assert(network@.peers.dom() =~= network.peers@.dom());
    assert(network@.peers.dom() =~= peers.dom());
    assert(network@.peers[id] == network.peers@[id]@);
    assert(network@.peers[our_id] == network.peers@[our_id]@);
}

/// Generated settings offer the consensus, the API and the key generation of each peer at the
/// address that the peer told, on its base port and the two ports above, and so on three
/// different addresses. We listen where we are reached. The settings hold our own certificate
/// with the key that was given, and the certificate and the name that each peer told; the rest
/// is as it was given.
pub proof fn generated_settings_hold(
    key: PrivateKey,
    our_id: PeerId,
    amount_tiers: Vec<Amount>,
    peers: &BTreeMap<PeerId, PeerServerParams>,
    federation_name: String,
    bitcoind_rpc: String,
    params: ServerConfigParams,
    id: PeerId,
)
    requires
        call_ensures(
            ServerConfigParams::gen_params,
            (key, our_id, amount_tiers, peers, federation_name, bitcoind_rpc),
            params,
        ),
        peers@.contains_key(our_id),
        peers@.contains_key(id),
    ensures
        params.hbbft.identity == our_id,
        params.api.identity == our_id,
        params.server_dkg.identity == our_id,
        params.hbbft.peers@.dom() == peers@.dom(),
        params.api.peers@.dom() == peers@.dom(),
        params.server_dkg.peers@.dom() == peers@.dom(),
        params.hbbft.peers@[id].address@ == peers@[id].address@ + seq![':'] + decimal(
            peers@[id].base_port as nat,
        ),
        params.api.peers@[id].address@ == peers@[id].address@ + seq![':'] + decimal(
            (peers@[id].base_port + 1) as nat,
        ),
        params.server_dkg.peers@[id].address@ == peers@[id].address@ + seq![':'] + decimal(
            (peers@[id].base_port + 2) as nat,
        ),
        params.hbbft.peers@[id].address@ != params.api.peers@[id].address@,
        params.hbbft.peers@[id].address@ != params.server_dkg.peers@[id].address@,
        params.api.peers@[id].address@ != params.server_dkg.peers@[id].address@,
        params.hbbft.bind_addr@ == params.hbbft.peers@[our_id].address@,
        params.api.bind_addr@ == params.api.peers@[our_id].address@,
        params.server_dkg.bind_addr@ == params.server_dkg.peers@[our_id].address@,
        params.tls.our_certificate.0@ == peers@[our_id].cert.0@,
        params.tls.our_private_key.0@ == key.0@,
        params.tls.peer_certs@.dom() == peers@.dom(),
        params.tls.peer_names@.dom() == peers@.dom(),
        params.tls.peer_certs@[id].0@ == peers@[id].cert.0@,
        params.tls.peer_names@[id]@ == peers@[id].name@,
        params.amount_tiers@ == amount_tiers@,
        params.federation_name@ == federation_name@,
        params.bitcoind_rpc@ == bitcoind_rpc@,
        params.other@.dom() == Set::<String>::empty(),
{
    let views = view_map(peers@);
    assert(views.dom() =~= peers@.dom());
    assert(views[id] == peers@[id]@);
    assert(views[our_id] == peers@[our_id]@);
    lemma_network(params.hbbft, our_id, 0, views, id);
    lemma_network(params.api, our_id, 1, views, id);
    lemma_network(params.server_dkg, our_id, 2, views, id);
    let host = peers@[id].address@;
    let base = peers@[id].base_port as nat;
    if params.hbbft.peers@[id].address@ == params.api.peers@[id].address@ {
        lemma_ports_apart(host, base, base + 1);
    }
    if params.hbbft.peers@[id].address@ == params.server_dkg.peers@[id].address@ {
        lemma_ports_apart(host, base, base + 2);
    }
    if params.api.peers@[id].address@ == params.server_dkg.peers@[id].address@ {
        lemma_ports_apart(host, base + 1, base + 2);
    }
    assert(params@.tls.peer_certs.dom() =~= params.tls.peer_certs@.dom());
    assert(params@.tls.peer_names.dom() =~= params.tls.peer_names@.dom());
    assert(params@.tls.peer_certs.dom() =~= views.dom());
    assert(params@.tls.peer_names.dom() =~= views.dom());
    assert(params@.tls.peer_certs[id] == params.tls.peer_certs@[id]@);
    assert(params@.tls.peer_names[id] == params.tls.peer_names@[id]@);
    assert(params.other@.dom() =~= Set::<String>::empty());
}

/// What the settings of a local federation hold, for the certificates and keys behind them.
proof fn lemma_local(
    ids: Set<PeerId>,
    keys: Map<PeerId, (Seq<u8>, Seq<u8>)>,
    amount_tiers: Seq<Amount>,
    base_port: u16,
    federation_name: Seq<char>,
    bitcoind_rpc: Seq<char>,
    params: HashMap<PeerId, ServerConfigParams>,
    id: PeerId,
    other: PeerId,
)
    requires
        view_map(params@) == crate::local::local_params(
            ids,
            keys,
            amount_tiers,
            base_port,
            federation_name,
            bitcoind_rpc,
        ),
        ids.contains(id),
        ids.contains(other),
        base_port + 6 * other + 2 <= u16::MAX,
    ensures
        params@.dom() == ids,
        params@[id].tls.our_certificate.0@ == keys[id].0,
        params@[id].tls.our_private_key.0@ == keys[id].1,
        params@[id].tls.peer_certs@.dom() == ids,
        params@[id].tls.peer_names@.dom() == ids,
        params@[id].tls.peer_certs@[other].0@ == keys[other].0,
        params@[id].tls.peer_names@[other]@ == "peer-"@ + decimal(other as nat),
        params@[id].hbbft.identity == id,
        params@[id].api.identity == id,
        params@[id].server_dkg.identity == id,
        params@[id].hbbft.peers@.dom() == ids,
        params@[id].api.peers@.dom() == ids,
        params@[id].server_dkg.peers@.dom() == ids,
        params@[id].hbbft.peers@[other].address@ == "127.0.0.1"@ + seq![':'] + decimal(
            (base_port + 6 * other) as nat,
        ),
        params@[id].api.peers@[other].address@ == "127.0.0.1"@ + seq![':'] + decimal(
            (base_port + 6 * other + 1) as nat,
        ),
        params@[id].server_dkg.peers@[other].address@ == "127.0.0.1"@ + seq![':'] + decimal(
            (base_port + 6 * other + 2) as nat,
        ),
        params@[id].hbbft.bind_addr@ == params@[id].hbbft.peers@[id].address@,
        params@[id].api.bind_addr@ == params@[id].api.peers@[id].address@,
        params@[id].server_dkg.bind_addr@ == params@[id].server_dkg.peers@[id].address@,
        params@[id].amount_tiers@ == amount_tiers,
        params@[id].federation_name@ == federation_name,
        params@[id].bitcoind_rpc@ == bitcoind_rpc,
        params@[id].other@.dom() == Set::<String>::empty(),
{
    let views = view_map(params@);
    assert(views.dom() =~= params@.dom());
    assert(views.dom() =~= ids);
    assert(views.contains_key(id));
    let ours = params@[id];
    assert(views[id] == ours@);
    let peers = crate::local::local_peers(ids, keys, base_port);
    assert(peers.dom() =~= ids);
    lemma_network(ours.hbbft, id, 0, peers, other);
    lemma_network(ours.api, id, 1, peers, other);
    lemma_network(ours.server_dkg, id, 2, peers, other);
    assert(ours@.tls.peer_certs.dom() =~= ours.tls.peer_certs@.dom());
    assert(ours@.tls.peer_names.dom() =~= ours.tls.peer_names@.dom());
    assert(ours@.tls.peer_certs.dom() =~= ids);
    assert(ours@.tls.peer_names.dom() =~= ids);
    assert(ours@.tls.peer_certs[other] == ours.tls.peer_certs@[other]@);
    assert(ours@.tls.peer_names[other] == ours.tls.peer_names@[other]@);
    assert(ours.other@.dom() =~= Set::<String>::empty());
}

/// The settings of a local federation, made with given certificates and keys: each peer has its
/// own key with its own certificate, all know the certificate of each, and peer `other` offers
/// its three services on this machine, six ports above the base port for each number below its
/// own.
pub proof fn local_settings_with_keys_hold(
    peers: &[PeerId],
    keys: &HashMap<PeerId, (Certificate, PrivateKey)>,
    amount_tiers: &Vec<Amount>,
    base_port: u16,
    federation_name: &str,
    bitcoind_rpc: &str,
    params: HashMap<PeerId, ServerConfigParams>,
    id: PeerId,
    other: PeerId,
)
    requires
        call_ensures(
            ServerConfigParams::gen_local_with,
            (peers, keys, amount_tiers, base_port, federation_name, bitcoind_rpc),
            params,
        ),
        peers@.to_set().subset_of(keys@.dom()),
        peers@.contains(id),
        peers@.contains(other),
        base_port + 6 * other + 2 <= u16::MAX,
    ensures
        params@.dom() == peers@.to_set(),
        params@[id].tls.our_certificate.0@ == keys@[id].0.0@,
        params@[id].tls.our_private_key.0@ == keys@[id].1.0@,
        params@[id].tls.peer_certs@.dom() == peers@.to_set(),
        params@[id].tls.peer_names@.dom() == peers@.to_set(),
        params@[id].tls.peer_certs@[other].0@ == keys@[other].0.0@,
        params@[id].tls.peer_names@[other]@ == "peer-"@ + decimal(other as nat),
        params@[id].hbbft.identity == id,
        params@[id].api.identity == id,
        params@[id].server_dkg.identity == id,
        params@[id].hbbft.peers@.dom() == peers@.to_set(),
        params@[id].api.peers@.dom() == peers@.to_set(),
        params@[id].server_dkg.peers@.dom() == peers@.to_set(),
        params@[id].hbbft.peers@[other].address@ == "127.0.0.1"@ + seq![':'] + decimal(
            (base_port + 6 * other) as nat,
        ),
        params@[id].api.peers@[other].address@ == "127.0.0.1"@ + seq![':'] + decimal(
            (base_port + 6 * other + 1) as nat,
        ),
        params@[id].server_dkg.peers@[other].address@ == "127.0.0.1"@ + seq![':'] + decimal(
            (base_port + 6 * other + 2) as nat,
        ),
        params@[id].hbbft.bind_addr@ == params@[id].hbbft.peers@[id].address@,
        params@[id].api.bind_addr@ == params@[id].api.peers@[id].address@,
        params@[id].server_dkg.bind_addr@ == params@[id].server_dkg.peers@[id].address@,
        params@[id].amount_tiers@ == amount_tiers@,
        params@[id].federation_name@ == federation_name@,
        params@[id].bitcoind_rpc@ == bitcoind_rpc@,
        params@[id].other@.dom() == Set::<String>::empty(),
{
    let ids = peers@.to_set();
    let views = crate::local::view_keys(keys@);
    assert(ids.contains(id));
    assert(ids.contains(other));
    assert(keys@.contains_key(id));
    assert(keys@.contains_key(other));
    lemma_local(
        ids,
        views,
        amount_tiers@,
        base_port,
        federation_name@,
        bitcoind_rpc@,
        params,
        id,
        other,
    );
}

/// In the settings of a local federation each peer's own certificate is one for its own private
/// key, which is new, and in its own name; all peers know this certificate; and no two services
/// of the federation stand on the same port.
pub proof fn local_settings_hold(
    peers: &[PeerId],
    amount_tiers: Vec<Amount>,
    base_port: u16,
    federation_name: &str,
    bitcoind_rpc: &str,
    res: Result<HashMap<PeerId, ServerConfigParams>, CertError>,
    id: PeerId,
    other: PeerId,
)
    requires
        call_ensures(
            ServerConfigParams::gen_local,
            (peers, amount_tiers, base_port, federation_name, bitcoind_rpc),
            res,
        ),
        res is Ok,
        peers@.contains(id),
        peers@.contains(other),
        base_port + 6 * id + 2 <= u16::MAX,
        base_port + 6 * other + 2 <= u16::MAX,
    ensures
        ({
            let params = res->Ok_0@;
            let ours = params[id];
            let theirs = params[other];
            let name = "peer-"@ + decimal(id as nat);
            &&& params.dom() == peers@.to_set()
            &&& generated_key(
                SignatureAlgorithm::EcdsaP256Sha256,
                ours.tls.our_private_key.0@,
            )
            &&& signed_certificate(
                CertificateRequestView {
                    algorithm: SignatureAlgorithm::EcdsaP256Sha256,
                    subject_alt_names: seq![name],
                    common_name: name,
                    is_ca: IsCa::NoCa,
                },
                ours.tls.our_private_key.0@,
                ours.tls.our_certificate.0@,
            )
            &&& ours.tls.peer_certs@.dom() == peers@.to_set()
            &&& ours.tls.peer_names@.dom() == peers@.to_set()
            &&& ours.tls.peer_certs@[other].0@ == theirs.tls.our_certificate.0@
            &&& ours.tls.peer_names@[other]@ == "peer-"@ + decimal(other as nat)
            &&& ours.hbbft.identity == id
            &&& ours.api.identity == id
            &&& ours.server_dkg.identity == id
            &&& ours.hbbft.peers@.dom() == peers@.to_set()
            &&& ours.api.peers@.dom() == peers@.to_set()
            &&& ours.server_dkg.peers@.dom() == peers@.to_set()
            &&& ours.hbbft.peers@[other].address@ == theirs.hbbft.bind_addr@
            &&& ours.api.peers@[other].address@ == theirs.api.bind_addr@
            &&& ours.server_dkg.peers@[other].address@ == theirs.server_dkg.bind_addr@
            &&& ours.hbbft.bind_addr@ == "127.0.0.1"@ + seq![':'] + decimal(
                (base_port + 6 * id) as nat,
            )
            &&& ours.api.bind_addr@ == "127.0.0.1"@ + seq![':'] + decimal(
                (base_port + 6 * id + 1) as nat,
            )
            &&& ours.server_dkg.bind_addr@ == "127.0.0.1"@ + seq![':'] + decimal(
                (base_port + 6 * id + 2) as nat,
            )
            &&& ours.amount_tiers@ == amount_tiers@
            &&& ours.federation_name@ == federation_name@
            &&& ours.bitcoind_rpc@ == bitcoind_rpc@
            &&& ours.other@.dom() == Set::<String>::empty()
        }),
{
    let ids = peers@.to_set();
    let keys = choose|keys: Map<PeerId, (Seq<u8>, Seq<u8>)>|
        {
            &&& #[trigger] local_keys(ids, keys)
            &&& view_map(res->Ok_0@) == crate::local::local_params(
                ids,
                keys,
                amount_tiers@,
                base_port,
                federation_name@,
                bitcoind_rpc@,
            )
        };
    assert(ids.contains(id));
    assert(ids.contains(other));
    let tiers = amount_tiers@;
    let name = federation_name@;
    let rpc = bitcoind_rpc@;
    lemma_local(ids, keys, tiers, base_port, name, rpc, res->Ok_0, id, id);
    lemma_local(ids, keys, tiers, base_port, name, rpc, res->Ok_0, id, other);
    lemma_local(ids, keys, tiers, base_port, name, rpc, res->Ok_0, other, other);
}

/// The peers that settings describe are those of the consensus network, each with its address
/// there, the certificate and the name that the settings hold for it, and its API at its address
/// in the API's network as a websocket URL.
pub proof fn described_peers_hold(
    params: &ServerConfigParams,
    peers: BTreeMap<PeerId, Peer>,
    id: PeerId,
)
    requires
        call_ensures(ServerConfigParams::peers, (params,), peers),
        params.hbbft.peers@.contains_key(id),
        params.api.peers@.contains_key(id),
        params.tls.peer_certs@.contains_key(id),
        params.tls.peer_names@.contains_key(id),
        url_of(seq!['w', 's', ':', '/', '/'] + params.api.peers@[id].address@) is Some,
    ensures
        peers@.dom() == params.hbbft.peers@.dom(),
        peers@[id].hbbft.address@ == params.hbbft.peers@[id].address@,
        peers@[id].tls_cert.0@ == params.tls.peer_certs@[id].0@,
        peers@[id].name@ == params.tls.peer_names@[id]@,
        url_of(seq!['w', 's', ':', '/', '/'] + params.api.peers@[id].address@) == Some(
            peers@[id].api_addr@,
        ),
{
    lemma_described(params, peers, id);
}

proof fn lemma_described(params: &ServerConfigParams, peers: BTreeMap<PeerId, Peer>, id: PeerId)
    requires
        view_map(peers@) == params@.peers(),
        params.hbbft.peers@.contains_key(id),
        params.api.peers@.contains_key(id),
        params.tls.peer_certs@.contains_key(id),
        params.tls.peer_names@.contains_key(id),
        url_of(seq!['w', 's', ':', '/', '/'] + params.api.peers@[id].address@) is Some,
    ensures
        peers@.dom() == params.hbbft.peers@.dom(),
        peers@[id].hbbft.address@ == params.hbbft.peers@[id].address@,
        peers@[id].tls_cert.0@ == params.tls.peer_certs@[id].0@,
        peers@[id].name@ == params.tls.peer_names@[id]@,
        url_of(seq!['w', 's', ':', '/', '/'] + params.api.peers@[id].address@) == Some(
            peers@[id].api_addr@,
        ),
{
    reveal_strlit("ws://");
    assert("ws://"@ =~= seq!['w', 's', ':', '/', '/']);
    let views = view_map(peers@);
    assert(views.dom() =~= peers@.dom());
    assert(views.dom() =~= params@.hbbft.peers.dom());
    assert(params@.hbbft.peers.dom() =~= params.hbbft.peers@.dom());
    assert(params@.tls.peer_certs.dom() =~= params.tls.peer_certs@.dom());
    assert(params@.tls.peer_names.dom() =~= params.tls.peer_names@.dom());
    assert(params@.api.peers.dom() =~= params.api.peers@.dom());
    assert(params@.hbbft.peers.contains_key(id));
    assert(views[id] == peers@[id]@);
    assert(params@.api.peers[id] == params.api.peers@[id]@);
}

/// Settings describe their peers exactly if the API address of each is a URL.
pub proof fn peers_are_described_if_addresses_are_urls(
    params: &ServerConfigParams,
    res: Option<BTreeMap<PeerId, Peer>>,
    peers: BTreeMap<PeerId, Peer>,
    urls: Option<BTreeMap<PeerId, Url>>,
    id: PeerId,
)
    requires
        call_ensures(ServerConfigParams::try_peers, (params,), res),
        call_ensures(ServerConfigParams::peers, (params,), peers),
        call_ensures(ServerConfigParams::api_urls, (params,), urls),
        params.hbbft.peers@.dom().subset_of(params.api.peers@.dom()),
    ensures
        res is Some <==> urls is Some,
        res is Some <==> forall|k: PeerId| #[trigger]
            params.hbbft.peers@.contains_key(k) ==> url_of(
                seq!['w', 's', ':', '/', '/'] + params.api.peers@[k].address@,
            ) is Some,
        res matches Some(described) ==> view_map(described@) == view_map(peers@),
        urls matches Some(urls) ==> urls@.dom() == params.hbbft.peers@.dom(),
        urls is Some && params.hbbft.peers@.contains_key(id) ==> url_of(
            seq!['w', 's', ':', '/', '/'] + params.api.peers@[id].address@,
        ) == Some((urls->0)@[id]@),
{
    reveal_strlit("ws://");
    assert("ws://"@ =~= seq!['w', 's', ':', '/', '/']);
    assert(params@.hbbft.peers.dom() =~= params.hbbft.peers@.dom());
    assert(params@.api.peers.dom() =~= params.api.peers@.dom());
    assert forall|k: PeerId| #[trigger]
        params.hbbft.peers@.contains_key(k) implies crate::net::prefixed_url(
        "ws://"@,
        params@.api.peers[k],
    ) == url_of(seq!['w', 's', ':', '/', '/'] + params.api.peers@[k].address@) by {
        assert(params@.hbbft.peers.dom().contains(k));
        assert(params@.api.peers.contains_key(k));
    }
    if res is Some {
        assert forall|k: PeerId| #[trigger] params.hbbft.peers@.contains_key(k) implies url_of(
            seq!['w', 's', ':', '/', '/'] + params.api.peers@[k].address@,
        ) is Some by {
            assert(params@.hbbft.peers.dom().contains(k));
        }
    } else {
        let k = choose|k: PeerId| #[trigger]
            params@.hbbft.peers.dom().contains(k) && crate::net::prefixed_url(
                "ws://"@,
                params@.api.peers[k],
            ) is None;
        assert(params.hbbft.peers@.contains_key(k));
    }
    if urls is Some {
        let map = urls->0@;
        assert(view_map(map).dom() =~= map.dom());
        assert(view_map(map).dom() =~= params.hbbft.peers@.dom());
        if params.hbbft.peers@.contains_key(id) {
            assert(map.contains_key(id));
            assert(params@.hbbft.peers.dom().contains(id));
            assert(view_map(map)[id] == map[id]@);
        }
    }
}

/// Described peers have their APIs at the URLs that were given for them.
pub proof fn peers_stand_at_given_urls(
    params: &ServerConfigParams,
    urls: &BTreeMap<PeerId, Url>,
    peers: BTreeMap<PeerId, Peer>,
    id: PeerId,
)
    requires
        call_ensures(ServerConfigParams::peers_at, (params, urls), peers),
        params.hbbft.peers@.contains_key(id),
        params.tls.peer_certs@.contains_key(id),
        params.tls.peer_names@.contains_key(id),
        urls@.contains_key(id),
    ensures
        peers@.dom() == params.hbbft.peers@.dom(),
        peers@[id].hbbft.address@ == params.hbbft.peers@[id].address@,
        peers@[id].tls_cert.0@ == params.tls.peer_certs@[id].0@,
        peers@[id].name@ == params.tls.peer_names@[id]@,
        peers@[id].api_addr@ == urls@[id]@,
{
    let views = view_map(peers@);
    assert(views.dom() =~= peers@.dom());
    assert(views.dom() =~= params@.hbbft.peers.dom());
    assert(params@.hbbft.peers.dom() =~= params.hbbft.peers@.dom());
    assert(params@.tls.peer_certs.dom() =~= params.tls.peer_certs@.dom());
    assert(params@.tls.peer_names.dom() =~= params.tls.peer_names@.dom());
    assert(params@.hbbft.peers.contains_key(id));
    assert(views[id] == peers@[id]@);
    assert(view_map(urls@)[id] == urls@[id]@);
}

/// The modules are generated with the settings' amounts and extra options, and reach the bitcoin
/// node at the settings' address as the user `bitcoin` with the password `bitcoin`.
pub proof fn module_params_hold(params: &ServerConfigParams, res: ModuleConfigGenParams)
    requires
        call_ensures(ServerConfigParams::module_params, (params,), res),
    ensures
        res.mint_amounts@ == params.amount_tiers@,
        res.bitcoin_rpc.btc_rpc_address@ == params.bitcoind_rpc@,
        res.bitcoin_rpc.btc_rpc_user@ == seq!['b', 'i', 't', 'c', 'o', 'i', 'n'],
        res.bitcoin_rpc.btc_rpc_pass@ == seq!['b', 'i', 't', 'c', 'o', 'i', 'n'],
        res.other@ == params.other@,
{
    reveal_strlit("bitcoin");
    assert("bitcoin"@ =~= seq!['b', 'i', 't', 'c', 'o', 'i', 'n']);
}

/// A peer stands at the position that counts the peers below it.
pub proof fn peers_stand_in_ascending_order(ids: Set<PeerId>, id: PeerId)
    requires
        ids.contains(id),
    ensures
        ids_of(ids).len() == ids.len(),
        ids.filter(|k: PeerId| k < id).len() < ids.len(),
        ids_of(ids)[ids.filter(|k: PeerId| k < id).len() as int] == id,
{
    lemma_ids_of(ids);
    let list = ids_of(ids);
    let below = ids.filter(|k: PeerId| k < id);
    assert(list.contains(id));
    let i = choose|i: int| 0 <= i < list.len() && list[i] == id;
    let front = list.take(i);
    assert forall|k: PeerId| front.to_set().contains(k) <==> below.contains(k) by {
        if front.contains(k) {
            let j = choose|j: int| 0 <= j < front.len() && front[j] == k;
            assert(list[j] == k);
            assert(list.contains(k));
        }
        if below.contains(k) {
            assert(list.contains(k));
            let j = choose|j: int| 0 <= j < list.len() && list[j] == k;
            assert(j < i);
            assert(front[j] == k);
        }
    }
    assert(front.to_set() =~= below);
    assert(front.no_duplicates());
    front.unique_seq_to_set();
}

/// What a node list holds at the position of a peer.
proof fn lemma_node(
    ids: Set<PeerId>,
    urls: Map<PeerId, Seq<char>>,
    names: Map<PeerId, Seq<char>>,
    nodes: Seq<Node>,
    id: PeerId,
)
    requires
        view_nodes(nodes) == crate::net::node_list(ids_of(ids), urls, names),
        ids.contains(id),
    ensures
        nodes.len() == ids.len(),
        nodes[ids.filter(|k: PeerId| k < id).len() as int].url@ == urls[id],
        nodes[ids.filter(|k: PeerId| k < id).len() as int].name@ == names[id],
{
    peers_stand_in_ascending_order(ids, id);
    let i = ids.filter(|k: PeerId| k < id).len() as int;
    assert(view_nodes(nodes).len() == nodes.len());
    assert(view_nodes(nodes)[i] == nodes[i]@);
}

/// The nodes of a network are its peers in ascending order, each with the name given for it and
/// at the URL of its address with the prefix in front.
pub proof fn network_nodes_hold(
    network: &NetworkConfig,
    prefix: &str,
    names: &HashMap<PeerId, String>,
    nodes: Vec<Node>,
    id: PeerId,
)
    requires
        call_ensures(NetworkConfig::nodes, (network, prefix, names), nodes),
        network.peers@.dom().subset_of(names@.dom()),
        network.peers@.contains_key(id),
        url_of(prefix@ + network.peers@[id].address@) is Some,
    ensures
        nodes@.len() == network.peers@.dom().len(),
        ({
            let node = nodes@[network.peers@.dom().filter(|k: PeerId| k < id).len() as int];
            &&& node.name@ == names@[id]@
            &&& Some(node.url@) == url_of(prefix@ + network.peers@[id].address@)
        }),
{
    lemma_network_node(network, prefix@, names, nodes, id);
}

pub(crate) proof fn lemma_network_node(
    network: &NetworkConfig,
    prefix: Seq<char>,
    names: &HashMap<PeerId, String>,
    nodes: Vec<Node>,
    id: PeerId,
)
    requires
        view_nodes(nodes@) == network@.nodes(prefix, view_map(names@)),
        network.peers@.dom().subset_of(names@.dom()),
        network.peers@.contains_key(id),
        url_of(prefix + network.peers@[id].address@) is Some,
    ensures
        nodes@.len() == network.peers@.dom().len(),
        ({
            let node = nodes@[network.peers@.dom().filter(|k: PeerId| k < id).len() as int];
            &&& node.name@ == names@[id]@
            &&& Some(node.url@) == url_of(prefix + network.peers@[id].address@)
        }),
{
    let ids = network.peers@.dom();
    assert(network@.peers.dom() =~= ids);
    assert(names@.contains_key(id));
    lemma_node(
        ids,
        crate::net::prefixed_urls(prefix, network@.peers, ids),
        view_map(names@),
        nodes@,
        id,
    );
}

/// A network has nodes exactly if the address of each peer is a URL behind the prefix, and they
/// are then the nodes of the network.
pub proof fn network_has_nodes_if_addresses_are_urls(
    network: &NetworkConfig,
    prefix: &str,
    names: &HashMap<PeerId, String>,
    res: Option<Vec<Node>>,
    nodes: Vec<Node>,
    urls: Option<BTreeMap<PeerId, Url>>,
    id: PeerId,
)
    requires
        call_ensures(NetworkConfig::try_nodes, (network, prefix, names), res),
        call_ensures(NetworkConfig::nodes, (network, prefix, names), nodes),
        call_ensures(NetworkConfig::urls, (network, prefix), urls),
    ensures
        res is Some <==> urls is Some,
        res is Some <==> forall|k: PeerId| #[trigger]
            network.peers@.contains_key(k) ==> url_of(prefix@ + network.peers@[k].address@) is Some,
        res matches Some(list) ==> view_nodes(list@) == view_nodes(nodes@),
        urls matches Some(urls) ==> urls@.dom() == network.peers@.dom(),
        urls is Some && network.peers@.contains_key(id) ==> url_of(
            prefix@ + network.peers@[id].address@,
        ) == Some((urls->0)@[id]@),
{
    assert(network@.peers.dom() =~= network.peers@.dom());
    lemma_addresses_parse(network, prefix@);
    if urls is Some {
        let map = urls->0@;
        assert(view_map(map).dom() =~= map.dom());
        assert(view_map(map).dom() =~= network.peers@.dom());
        if network.peers@.contains_key(id) {
            assert(map.contains_key(id));
            assert(network@.peers.dom().contains(id));
            assert(view_map(map)[id] == map[id]@);
        }
    }
}

/// What it means that the addresses of a network are URLs.
pub(crate) proof fn lemma_addresses_parse(network: &NetworkConfig, prefix: Seq<char>)
    ensures
        network@.addresses_parse(prefix) <==> forall|k: PeerId| #[trigger]
            network.peers@.contains_key(k) ==> url_of(prefix + network.peers@[k].address@) is Some,
{
    assert(network@.peers.dom() =~= network.peers@.dom());
    if network@.addresses_parse(prefix) {
        assert forall|k: PeerId| #[trigger] network.peers@.contains_key(k) implies url_of(
            prefix + network.peers@[k].address@,
        ) is Some by {
            assert(network@.peers.dom().contains(k));
        }
    } else {
        let k = choose|k: PeerId| #[trigger]
            network@.peers.dom().contains(k) && crate::net::prefixed_url(
                prefix,
                network@.peers[k],
            ) is None;
        assert(network.peers@.contains_key(k));
    }
}

/// Nodes at given URLs and with given names are listed in ascending order of the peers.
pub proof fn nodes_at_urls_hold(
    network: &NetworkConfig,
    urls: &BTreeMap<PeerId, Url>,
    names: &HashMap<PeerId, String>,
    nodes: Vec<Node>,
    id: PeerId,
)
    requires
        call_ensures(NetworkConfig::nodes_at, (network, urls, names), nodes),
        network.peers@.dom().subset_of(urls@.dom()),
        network.peers@.dom().subset_of(names@.dom()),
        network.peers@.contains_key(id),
    ensures
        nodes@.len() == network.peers@.dom().len(),
        ({
            let node = nodes@[network.peers@.dom().filter(|k: PeerId| k < id).len() as int];
            &&& node.name@ == names@[id]@
            &&& node.url@ == urls@[id]@
        }),
{
    let ids = network.peers@.dom();
    assert(network@.peers.dom() =~= ids);
    assert(names@.contains_key(id));
    assert(urls@.contains_key(id));
    lemma_node(ids, view_map(urls@), view_map(names@), nodes@, id);
}

/// The keys of a map are listed once each, in ascending order.
pub proof fn map_keys_are_listed_in_order<V>(m: &BTreeMap<PeerId, V>, ids: Vec<PeerId>, id: PeerId)
    requires
        call_ensures(sorted_ids::<V>, (m,), ids),
    ensures
        ids@.len() == m@.dom().len(),
        m@.contains_key(id) ==> ids@[m@.dom().filter(|k: PeerId| k < id).len() as int] == id,
{
    lemma_ids_of(m@.dom());
    if m@.contains_key(id) {
        peers_stand_in_ascending_order(m@.dom(), id);
    }
}

/// A collected map holds, for each of the listed peers and for no other, what the function gave
/// for it.
pub proof fn collected_maps_hold<V, F: Fn(PeerId) -> V>(
    ids: &[PeerId],
    f: F,
    tree: BTreeMap<PeerId, V>,
    hash: HashMap<PeerId, V>,
    id: PeerId,
)
    requires
        call_ensures(collect_map::<V, F>, (ids, f), tree),
        call_ensures(collect_hash_map::<V, F>, (ids, f), hash),
    ensures
        tree@.contains_key(id) <==> ids@.contains(id),
        hash@.contains_key(id) <==> ids@.contains(id),
        ids@.contains(id) ==> f.ensures((id,), tree@[id]),
        ids@.contains(id) ==> f.ensures((id,), hash@[id]),
{
    assert(ids@.to_set().contains(id) <==> ids@.contains(id));
    assert(tree@.dom().contains(id) <==> ids@.contains(id));
    assert(hash@.dom().contains(id) <==> ids@.contains(id));
}

/// Addresses are read as URLs behind a prefix exactly if each is one, and each peer is given the
/// URL of its own address.
pub proof fn addresses_are_read_as_urls(
    prefix: &str,
    addresses: &BTreeMap<PeerId, ConnectionConfig>,
    ids: &Vec<PeerId>,
    urls: Option<BTreeMap<PeerId, Url>>,
    id: PeerId,
)
    requires
        call_ensures(parse_addresses, (prefix, addresses, ids), urls),
        ids@.to_set().subset_of(addresses@.dom()),
    ensures
        urls is Some <==> forall|k: PeerId| #[trigger]
            ids@.contains(k) ==> url_of(prefix@ + addresses@[k].address@) is Some,
        urls is Some ==> (urls->0)@.dom() == ids@.to_set(),
        urls is Some && ids@.contains(id) ==> url_of(prefix@ + addresses@[id].address@) == Some(
            (urls->0)@[id]@,
        ),
{
    let set = ids@.to_set();
    let views = view_map(addresses@);
    assert forall|k: PeerId| #[trigger] ids@.contains(k) implies set.contains(k) && views[k]
        == addresses@[k].address@ by {
        assert(set.contains(k));
        assert(addresses@.contains_key(k));
    }
    if urls is Some {
        let map = (urls->0)@;
        assert(view_map(map).dom() =~= map.dom());
        assert(view_map(map).dom() =~= set);
        if ids@.contains(id) {
            assert(map.contains_key(id));
            assert(view_map(map)[id] == map[id]@);
        }
    } else {
        let k = choose|k: PeerId| #[trigger]
            set.contains(k) && crate::net::prefixed_url(prefix@, views[k]) is None;
        assert(ids@.contains(k));
    }
}

} // verus!
