//! What a configuration is put together from: settings, keys and the modules' parts.

use crate::client::{view_modules, ClientConfig, ClientConfigView, Node};
use crate::ids::{clone_amounts, Amount, PeerId};
use crate::keys::{ThresholdKeys, ThresholdKeysView};
use crate::module_map::ModuleMap;
use crate::modules::{
    kind_of, module_names_distinct, ClientModuleConfig, Json, ModuleKind,
    ServerModuleConfig,
};
use crate::params::{ServerConfigParams, ServerConfigParamsView};
use crate::peer::{Peer, PeerView};
use crate::peer_map::view_map;
use crate::server::{ServerConfig, ServerConfigView};
use std::collections::BTreeMap;
use vstd::prelude::*;

verus! {

broadcast use {vstd::std_specs::btree::group_btree_axioms, vstd::laws_cmp::group_laws_cmp};

/// How to reach the bitcoin node.
#[derive(Debug, PartialEq, Eq)]
pub struct BitcoindRpcCfg {
    pub btc_rpc_address: String,
    pub btc_rpc_user: String,
    pub btc_rpc_pass: String,
}

/// What a `BitcoindRpcCfg` holds.
#[verifier::ext_equal]
pub struct BitcoindRpcCfgView {
    pub btc_rpc_address: Seq<char>,
    pub btc_rpc_user: Seq<char>,
    pub btc_rpc_pass: Seq<char>,
}

impl View for BitcoindRpcCfg {
    type V = BitcoindRpcCfgView;

    open spec fn view(&self) -> BitcoindRpcCfgView {
        BitcoindRpcCfgView {
            btc_rpc_address: self.btc_rpc_address@,
            btc_rpc_user: self.btc_rpc_user@,
            btc_rpc_pass: self.btc_rpc_pass@,
        }
    }
}

/// What the modules generate their configurations from.
#[derive(Debug)]
pub struct ModuleConfigGenParams {
    pub mint_amounts: Vec<Amount>,
    pub bitcoin_rpc: BitcoindRpcCfg,
    /// extra options for extra settings and modules
    pub other: BTreeMap<String, Json>,
}

/// What a federation's configuration is generated from.
#[derive(Debug)]
pub struct FederationeConfigGenParams {
    pub mint_amounts: Vec<Amount>,
    pub bitcoin_rpc: BitcoindRpcCfg,
    /// extra options for extra settings and modules
    pub other: BTreeMap<String, Json>,
}

/// What a `ModuleConfigGenParams` holds.
#[verifier::ext_equal]
pub struct ModuleConfigGenParamsView {
    pub mint_amounts: Seq<Amount>,
    pub bitcoin_rpc: BitcoindRpcCfgView,
    pub other: Map<String, Json>,
}

impl View for ModuleConfigGenParams {
    type V = ModuleConfigGenParamsView;

    open spec fn view(&self) -> ModuleConfigGenParamsView {
        ModuleConfigGenParamsView {
            mint_amounts: self.mint_amounts@,
            bitcoin_rpc: self.bitcoin_rpc@,
            other: self.other@,
        }
    }
}

impl ServerConfigParamsView {
    /// What the modules generate their configurations from.
    pub open spec fn module_params(self) -> ModuleConfigGenParamsView {
        ModuleConfigGenParamsView {
            mint_amounts: self.amount_tiers,
            bitcoin_rpc: BitcoindRpcCfgView {
                btc_rpc_address: self.bitcoind_rpc,
                btc_rpc_user: "bitcoin"@,
                btc_rpc_pass: "bitcoin"@,
            },
            other: self.other,
        }
    }
}

impl ServerConfigParams {
    /// What the modules generate their configurations from.
    pub fn module_params(&self) -> (params: ModuleConfigGenParams)
        ensures
            params@ == self@.module_params(),
    {
        ModuleConfigGenParams {
            mint_amounts: clone_amounts(&self.amount_tiers),
            bitcoin_rpc: BitcoindRpcCfg {
                btc_rpc_address: self.bitcoind_rpc.clone(),
                btc_rpc_user: "bitcoin".to_owned(),
                btc_rpc_pass: "bitcoin".to_owned(),
            },
            other: self.other.clone(),
        }
    }
}

/// Something that each module has.
#[derive(Debug, PartialEq, Eq)]
pub struct PerModule<T> {
    pub wallet: T,
    pub mint: T,
    pub ln: T,
}

impl<T> PerModule<T> {
    /// What the module has.
    pub open spec fn of(self, kind: ModuleKind) -> T {
        match kind {
            ModuleKind::Wallet => self.wallet,
            ModuleKind::Mint => self.mint,
            ModuleKind::Ln => self.ln,
        }
    }
}

/// What each module has, under the module's name.
pub open spec fn by_name<T>(parts: PerModule<T>) -> Map<Seq<char>, T> {
    Map::new(
        |name: Seq<char>| kind_of(name) is Some,
        |name: Seq<char>| parts.of(kind_of(name)->0),
    )
}

/// What each module has, under the module's name.
pub fn named<T>(parts: PerModule<T>) -> (modules: ModuleMap<T>)
    ensures
        modules@ == by_name(parts),
{
    let ghost all = parts;
    let modules = ModuleMap::new().insert(
        ModuleKind::Wallet.name().to_owned(),
        parts.wallet,
    ).insert(ModuleKind::Mint.name().to_owned(), parts.mint).insert(
        ModuleKind::Ln.name().to_owned(),
        parts.ln,
    );
    proof {
        module_names_distinct(ModuleKind::Wallet);
        module_names_distinct(ModuleKind::Mint);
        module_names_distinct(ModuleKind::Ln);
        assert(modules@ =~= by_name(all));
    }
    modules
}

/// The configuration of the peer `id` with the given settings, among `peers`, with the given
/// keys and modules.
pub open spec fn server_of(
    params: ServerConfigParamsView,
    id: PeerId,
    peers: Map<PeerId, PeerView>,
    hbbft: ThresholdKeysView,
    epoch: ThresholdKeysView,
    modules: Map<Seq<char>, Seq<char>>,
) -> ServerConfigView {
    ServerConfigView {
        federation_name: params.federation_name,
        identity: id,
        hbbft_bind_addr: params.hbbft.bind_addr,
        api_bind_addr: params.api.bind_addr,
        tls_cert: params.tls.our_certificate,
        tls_key: params.tls.our_private_key,
        peers,
        hbbft_sks: hbbft.secret,
        hbbft_pk_set: hbbft.set,
        epoch_sks: epoch.secret,
        epoch_pk_set: epoch.set,
        modules,
    }
}

impl ServerConfig {
    /// Puts together the configuration of the peer `id`.
    pub fn assemble(
        params: &ServerConfigParams,
        id: PeerId,
        peers: BTreeMap<PeerId, Peer>,
        hbbft: ThresholdKeys,
        epoch: ThresholdKeys,
        modules: PerModule<ServerModuleConfig>,
    ) -> (config: ServerConfig)
        ensures
            config@ == server_of(
                params@,
                id,
                view_map(peers@),
                hbbft@,
                epoch@,
                view_modules(by_name(modules)),
            ),
            config.modules@ == by_name(modules),
    {
        ServerConfig {
            federation_name: params.federation_name.clone(),
            identity: id,
            hbbft_bind_addr: params.hbbft.bind_addr.clone(),
            api_bind_addr: params.api.bind_addr.clone(),
            tls_cert: params.tls.our_certificate.clone(),
            tls_key: params.tls.our_private_key.clone(),
            peers,
            hbbft_sks: hbbft.secret,
            hbbft_pk_set: hbbft.set,
            epoch_sks: epoch.secret,
            epoch_pk_set: epoch.set,
            modules: named(modules),
        }
    }
}

impl ClientConfig {
    /// Puts together the configuration for clients.
    pub fn assemble(
        params: &ServerConfigParams,
        nodes: Vec<Node>,
        modules: PerModule<ClientModuleConfig>,
    ) -> (config: ClientConfig)
        ensures
            config@ == (ClientConfigView {
                federation_name: params@.federation_name,
                nodes: crate::client::view_nodes(nodes@),
                modules: view_modules(by_name(modules)),
            }),
    {
        ClientConfig {
            federation_name: params.federation_name.clone(),
            nodes,
            modules: named(modules),
        }
    }
}

} // verus!
