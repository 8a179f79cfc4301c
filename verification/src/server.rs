//! The configuration of one federation member.

use crate::client::{view_modules, ClientConfig, Node, NodeView};
use crate::ids::PeerId;
use crate::keys::{share_matches, PublicKeySet, SecretKeyShare};
use crate::module_map::ModuleMap;
use crate::modules::{kind_of, ClientModuleConfig, ModuleKind, ServerModuleConfig};
use crate::net::{ConnectionConfig, NetworkConfig, NetworkConfigView};
use crate::peer::{Peer, PeerView};
use crate::peer_map::{
    ascending, collect_hash_map, collect_map, ids_of, lemma_ids_of, sorted_ids, view_map,
};
use crate::text::{node_name, node_name_spec};
use crate::tls::{Certificate, PrivateKey, TlsConfig, TlsConfigView};
use std::collections::BTreeMap;
use vstd::prelude::*;
use vstd::string::StringExecFns;

verus! {

broadcast use {
    vstd::std_specs::hash::group_hash_axioms,
    vstd::std_specs::btree::group_btree_axioms,
    vstd::laws_cmp::group_laws_cmp,
};

/// Everything that one federation member needs to take part.
pub struct ServerConfig {
    pub federation_name: String,
    pub identity: PeerId,
    pub hbbft_bind_addr: String,
    pub api_bind_addr: String,
    pub tls_cert: Certificate,
    pub tls_key: PrivateKey,
    pub peers: BTreeMap<PeerId, Peer>,
    pub hbbft_sks: SecretKeyShare,
    pub hbbft_pk_set: PublicKeySet,
    pub epoch_sks: SecretKeyShare,
    pub epoch_pk_set: PublicKeySet,
    pub modules: ModuleMap<ServerModuleConfig>,
}

/// What a `ServerConfig` holds.
#[verifier::ext_equal]
pub struct ServerConfigView {
    pub federation_name: Seq<char>,
    pub identity: PeerId,
    pub hbbft_bind_addr: Seq<char>,
    pub api_bind_addr: Seq<char>,
    pub tls_cert: Seq<u8>,
    pub tls_key: Seq<u8>,
    pub peers: Map<PeerId, PeerView>,
    pub hbbft_sks: Seq<char>,
    pub hbbft_pk_set: Seq<char>,
    pub epoch_sks: Seq<char>,
    pub epoch_pk_set: Seq<char>,
    pub modules: Map<Seq<char>, Seq<char>>,
}

impl View for ServerConfig {
    type V = ServerConfigView;

    open spec fn view(&self) -> ServerConfigView {
        ServerConfigView {
            federation_name: self.federation_name@,
            identity: self.identity,
            hbbft_bind_addr: self.hbbft_bind_addr@,
            api_bind_addr: self.api_bind_addr@,
            tls_cert: self.tls_cert@,
            tls_key: self.tls_key@,
            peers: view_map(self.peers@),
            hbbft_sks: self.hbbft_sks@,
            hbbft_pk_set: self.hbbft_pk_set@,
            epoch_sks: self.epoch_sks@,
            epoch_pk_set: self.epoch_pk_set@,
            modules: view_modules(self.modules@),
        }
    }
}

/// A copy of `modules`.
fn clone_modules(modules: &ModuleMap<ServerModuleConfig>) -> (copy: ModuleMap<ServerModuleConfig>)
    ensures
        copy@ == modules@,
{
    let copy = modules.clone();
    proof {
        assert(copy.values() =~= modules.values());
    }
    copy
}

impl Clone for ServerConfig {
    fn clone(&self) -> (copy: Self)
        ensures
            copy@ == self@,
    {
        ServerConfig {
            federation_name: self.federation_name.clone(),
            identity: self.identity,
            hbbft_bind_addr: self.hbbft_bind_addr.clone(),
            api_bind_addr: self.api_bind_addr.clone(),
            tls_cert: self.tls_cert.clone(),
            tls_key: self.tls_key.clone(),
            peers: self.peers.clone(),
            hbbft_sks: self.hbbft_sks.clone(),
            hbbft_pk_set: self.hbbft_pk_set.clone(),
            epoch_sks: self.epoch_sks.clone(),
            epoch_pk_set: self.epoch_pk_set.clone(),
            modules: clone_modules(&self.modules),
        }
    }
}

/// What is wrong with a configuration by itself.
#[derive(Clone, Copy, Debug, PartialEq, Eq, Structural)]
pub enum ConfigFault {
    /// The secret epoch key is not the one of this peer.
    EpochKey,
    /// The secret consensus key is not the one of this peer.
    HbbftKey,
    /// The peers are not numbered from 0 without gaps.
    PeerIds,
}

/// What the fault is called.
pub open spec fn fault_message(fault: ConfigFault) -> Seq<char> {
    match fault {
        ConfigFault::EpochKey => "Epoch private key doesn't match pubkey share"@,
        ConfigFault::HbbftKey => "HBBFT private key doesn't match pubkey share"@,
        ConfigFault::PeerIds => "Peer ids are not indexed from 0"@,
    }
}

impl ConfigFault {
    /// What the fault is called.
    pub fn message(self) -> (text: &'static str)
        ensures
            text@ == fault_message(self),
    {
        match self {
            ConfigFault::EpochKey => "Epoch private key doesn't match pubkey share",
            ConfigFault::HbbftKey => "HBBFT private key doesn't match pubkey share",
            ConfigFault::PeerIds => "Peer ids are not indexed from 0",
        }
    }
}

/// Why a configuration is not valid.
#[derive(Debug, PartialEq, Eq)]
pub enum ConfigError<E> {
    /// It is wrong by itself.
    Fault(ConfigFault),
    /// A module's own check failed.
    Module(E),
}

/// Why a module's configuration cannot be had.
#[derive(Debug, PartialEq, Eq)]
pub enum ModuleError<E> {
    /// There is no such module. Holds a message with the module's name.
    NotFound(String),
    /// The configuration is not of the type asked for.
    Typed(E),
}

/// The message about a module that is not there.
pub open spec fn not_found_message(name: Seq<char>) -> Seq<char> {
    "Module "@ + name + " not found"@
}

/// Whether `ids` are numbered from 0 without gaps, and there is at least one.
pub open spec fn indexed_from_zero(ids: Set<PeerId>) -> bool {
    &&& ids.len() > 0
    &&& forall|id: PeerId| #[trigger] ids.contains(id) <==> id < ids.len()
}

impl ServerConfigView {
    /// The first thing that is wrong with the configuration of `identity` by itself.
    pub open spec fn fault(self, identity: PeerId) -> Option<ConfigFault> {
        if !share_matches(self.epoch_sks, self.epoch_pk_set, identity as int) {
            Some(ConfigFault::EpochKey)
        } else if !share_matches(self.hbbft_sks, self.hbbft_pk_set, identity as int) {
            Some(ConfigFault::HbbftKey)
        } else if !indexed_from_zero(self.peers.dom()) {
            Some(ConfigFault::PeerIds)
        } else {
            None
        }
    }

    /// The network of the consensus protocol.
    pub open spec fn network(self) -> NetworkConfigView {
        NetworkConfigView {
            identity: self.identity,
            bind_addr: self.hbbft_bind_addr,
            peers: self.peers.map_values(|p: PeerView| p.hbbft),
        }
    }

    /// The certificates and names of all peers, and the own key.
    pub open spec fn tls(self) -> TlsConfigView {
        TlsConfigView {
            our_certificate: self.tls_cert,
            our_private_key: self.tls_key,
            peer_certs: self.peers.map_values(|p: PeerView| p.tls_cert),
            peer_names: self.peers.map_values(|p: PeerView| p.name),
        }
    }

    /// The peers as clients see them, in ascending order.
    pub open spec fn client_nodes(self) -> Seq<NodeView> {
        ids_of(self.peers.dom()).map_values(
            |id: PeerId| NodeView { url: self.peers[id].api_addr, name: node_name_spec(id) },
        )
    }
}

/// Ascending numbers reach at least their position.
proof fn lemma_ascending_at_least(ids: Seq<PeerId>, i: int)
    requires
        ascending(ids),
        0 <= i < ids.len(),
    ensures
        ids[i] >= i,
    decreases i,
{
    if i > 0 {
        lemma_ascending_at_least(ids, i - 1);
    }
}

/// Ascending numbers whose last one is their position are their positions.
proof fn lemma_ascending_dense(ids: Seq<PeerId>, i: int)
    requires
        ascending(ids),
        0 <= i < ids.len(),
        ids.last() == ids.len() - 1,
    ensures
        ids[i] == i,
    decreases ids.len() - i,
{
    lemma_ascending_at_least(ids, i);
    if i < ids.len() - 1 {
        lemma_ascending_dense(ids, i + 1);
    }
}

/// Peers are numbered from 0 exactly if the largest number is one less than their count.
pub proof fn lemma_indexed(ids: Set<PeerId>)
    ensures
        indexed_from_zero(ids) <==> ids.len() > 0 && ids_of(ids).last() == ids.len() - 1,
        indexed_from_zero(ids) ==> ids_of(ids)[0] == 0,
        indexed_from_zero(ids) ==> forall|i: int|
            0 <= i < ids_of(ids).len() ==> #[trigger] ids_of(ids)[i] == i,
{
    lemma_ids_of(ids);
    let list = ids_of(ids);
    if ids.len() > 0 && list.last() == ids.len() - 1 {
        assert forall|i: int| 0 <= i < list.len() implies #[trigger] list[i] == i by {
            lemma_ascending_dense(list, i);
        }
        assert forall|id: PeerId| #[trigger] ids.contains(id) <==> id < ids.len() by {
            if ids.contains(id) {
                assert(list.contains(id));
                let j = choose|j: int| 0 <= j < list.len() && list[j] == id;
                assert(list[j] == j);
            } else if id < ids.len() {
                assert(list[id as int] == id as int);
                assert(list.contains(list[id as int]));
            }
        }
    }
    if indexed_from_zero(ids) {
        let last = list.len() - 1;
        assert(list.contains(list[last]));
        assert(ids.contains(list[last]));
        lemma_ascending_at_least(list, last);
        assert(list[last] == last);
        assert forall|i: int| 0 <= i < list.len() implies #[trigger] list[i] == i by {
            lemma_ascending_dense(list, i);
        }
    }
}

impl ServerConfig {
    /// The configuration of the module called `name`, read by `typed`.
    pub fn get_module_config<T, E, F: Fn(&ServerModuleConfig) -> Result<T, E>>(
        &self,
        name: &str,
        typed: F,
    ) -> (res: Result<T, ModuleError<E>>)
        requires
            self.modules@.contains_key(name@) ==> typed.requires((&self.modules@[name@],)),
        ensures
            match res {
                Ok(config) => self.modules@.contains_key(name@) && typed.ensures(
                    (&self.modules@[name@],),
                    Ok(config),
                ),
                Err(ModuleError::NotFound(message)) => !self.modules@.contains_key(name@)
                    && message@ == not_found_message(name@),
                Err(ModuleError::Typed(e)) => self.modules@.contains_key(name@) && typed.ensures(
                    (&self.modules@[name@],),
                    Err(e),
                ),
            },
    {
        match self.modules.get(name) {
            None => Err(
                ModuleError::NotFound(
                    String::from_str("Module ").concat(name).concat(" not found"),
                ),
            ),
            Some(config) => match typed(config) {
                Ok(config) => Ok(config),
                Err(e) => Err(ModuleError::Typed(e)),
            },
        }
    }

    /// Whether each module is of a known kind.
    pub open spec fn modules_known(&self) -> bool {
        forall|name: Seq<char>| #[trigger]
            self.modules@.contains_key(name) ==> kind_of(name) is Some
    }

    /// The configuration for clients. `project` gives the client side of a module's
    /// configuration.
    pub fn to_client_config<F: Fn(ModuleKind, &ServerModuleConfig) -> ClientModuleConfig>(
        &self,
        project: F,
    ) -> (client: ClientConfig)
        requires
            self.modules_known(),
            forall|name: Seq<char>| #[trigger]
                self.modules@.contains_key(name) ==> project.requires(
                    (kind_of(name)->0, &self.modules@[name]),
                ),
        ensures
            client@.federation_name == self@.federation_name,
            client@.nodes == self@.client_nodes(),
            client.modules@.dom() == self.modules@.dom(),
            forall|name: Seq<char>| #[trigger]
                self.modules@.contains_key(name) ==> project.ensures(
                    (kind_of(name)->0, &self.modules@[name]),
                    client.modules@[name],
                ),
    {
        let ids = sorted_ids(&self.peers);
        proof {
            assert(self@.peers.dom() =~= self.peers@.dom());
        }
        let mut nodes: Vec<Node> = Vec::new();
        for i in 0..ids.len()
            invariant
                ids@.to_set() == self.peers@.dom(),
                nodes@.len() == i,
                forall|j: int|
                    0 <= j < i ==> (#[trigger] nodes@[j])@ == (NodeView {
                        url: self.peers@[ids@[j]].api_addr@,
                        name: node_name_spec(ids@[j]),
                    }),
        {
            let id: PeerId = ids[i];
            proof {
                assert(ids@.to_set().contains(id));
            }
            let peer = self.peers.get(&id).unwrap();
            nodes.push(Node { url: peer.api_addr.clone(), name: node_name(id) });
        }
        proof {
            assert forall|j: int| 0 <= j < ids@.len() implies crate::client::view_nodes(nodes@)[j]
                == self@.client_nodes()[j] by {
                assert(ids@.to_set().contains(ids@[j]));
            }
            assert(crate::client::view_nodes(nodes@) =~= self@.client_nodes());
        }
        let mut modules: ModuleMap<ClientModuleConfig> = ModuleMap::new();
        let count: usize = self.modules.len();
        let ghost names = self.modules.names();
        for i in 0..count
            invariant
                count == names.len(),
                names == self.modules.names(),
                self.modules.sorted(),
                self.modules_known(),
                forall|name: Seq<char>| #[trigger]
                    self.modules@.contains_key(name) ==> project.requires(
                        (kind_of(name)->0, &self.modules@[name]),
                    ),
                modules@.dom() == names.take(i as int).to_set(),
                forall|name: Seq<char>| #[trigger]
                    modules@.contains_key(name) ==> project.ensures(
                        (kind_of(name)->0, &self.modules@[name]),
                        modules@[name],
                    ),
        {
            proof {
                crate::module_map::lemma_zip_at(names, self.modules.values(), i as int);
                assert(self.modules@.contains_key(names[i as int]));
                assert(names.take(i + 1) =~= names.take(i as int).push(names[i as int]));
                names.take(i as int).lemma_push_to_set_commute(names[i as int]);
            }
            let name = self.modules.name_at(i);
            if let Some(kind) = ModuleKind::from_name(name.as_str()) {
                let projected = project(kind, self.modules.value_at(i));
                modules = modules.insert(name.clone(), projected);
            }
        }
        proof {
            assert(names.take(names.len() as int) =~= names);
            assert(modules@.dom() =~= self.modules@.dom());
        }
        ClientConfig { federation_name: self.federation_name.clone(), nodes, modules }
    }

    /// The first thing that is wrong with the configuration of `identity` by itself.
    fn find_fault(&self, identity: PeerId) -> (fault: Option<ConfigFault>)
        ensures
            fault == self@.fault(identity),
    {
        let index: usize = identity as usize;
        if !same_bytes(
            &self.epoch_sks.public_key_share(),
            &self.epoch_pk_set.public_key_share(index),
        ) {
            return Some(ConfigFault::EpochKey);
        }
        if !same_bytes(
            &self.hbbft_sks.public_key_share(),
            &self.hbbft_pk_set.public_key_share(index),
        ) {
            return Some(ConfigFault::HbbftKey);
        }
        let ids = sorted_ids(&self.peers);
        proof {
            assert(self@.peers.dom() =~= self.peers@.dom());
            lemma_ids_of(self@.peers.dom());
            lemma_indexed(self@.peers.dom());
        }
        if ids.len() == 0 {
            return Some(ConfigFault::PeerIds);
        }
        if ids[ids.len() - 1] as usize != ids.len() - 1 {
            return Some(ConfigFault::PeerIds);
        }
        if ids[0] != 0 {
            return Some(ConfigFault::PeerIds);
        }
        None
    }

    /// Checks that the configuration fits together and is the one of `identity`. `check` is
    /// what a module asks of its own configuration; it is asked module by module in ascending
    /// order of their names, until one objects. No module of an unknown kind may be reached that
    /// way.
    pub fn validate_config<E, F: Fn(ModuleKind, &ServerModuleConfig, PeerId) -> Result<(), E>>(
        &self,
        identity: PeerId,
        check: F,
    ) -> (res: Result<(), ConfigError<E>>)
        requires
            self@.fault(identity) is None ==> can_check(self, check, identity),
        ensures
            is_validation(self, check, identity, res),
    {
        match self.try_validate_config(identity, check) {
            Ok(answer) => answer,
            Err(i) => {
                proof {
                    assert(passes_before(self, check, identity, i as int));
                    assert(kind_of(self.modules.names()[i as int]) is Some);
                }
                Ok(())
            },
        }
    }

    /// Checks the configuration as `validate_config` does. `Err` holds the position of a module
    /// of an unknown kind that was reached, because no module before it objects.
    pub fn try_validate_config<
        E,
        F: Fn(ModuleKind, &ServerModuleConfig, PeerId) -> Result<(), E>,
    >(&self, identity: PeerId, check: F) -> (res: Result<Result<(), ConfigError<E>>, usize>)
        requires
            self@.fault(identity) is None ==> can_check_known(self, check, identity),
        ensures
            match res {
                Ok(answer) => is_validation(self, check, identity, answer),
                Err(i) => {
                    &&& self@.fault(identity) is None
                    &&& i < self.modules.names().len()
                    &&& passes_before(self, check, identity, i as int)
                    &&& kind_of(self.modules.names()[i as int]) is None
                },
            },
    {
        match self.find_fault(identity) {
            Some(fault) => {
                return Ok(Err(ConfigError::Fault(fault)));
            },
            None => {},
        }
        let count: usize = self.modules.len();
        for i in 0..count
            invariant
                count == self.modules.names().len(),
                self.modules.sorted(),
                self@.fault(identity) is None,
                can_check_known(self, check, identity),
                passes_before(self, check, identity, i as int),
        {
            let name = self.modules.name_at(i);
            match ModuleKind::from_name(name.as_str()) {
                None => {
                    return Err(i);
                },
                Some(kind) => {
                    match check(kind, self.modules.value_at(i), identity) {
                        Ok(unit) => {
                            proof {
                                assert(unit == ());
                            }
                        },
                        Err(e) => {
                            return Ok(Err(ConfigError::Module(e)));
                        },
                    }
                },
            }
        }
        Ok(Ok(()))
    }

    /// The network of the consensus protocol.
    pub fn network_config(&self) -> (network: NetworkConfig)
        ensures
            network@ == self@.network(),
    {
        let ids = sorted_ids(&self.peers);
        let connection_of = |id: PeerId| -> (connection: ConnectionConfig)
            requires
                self.peers@.contains_key(id),
            ensures
                connection@ == self.peers@[id].hbbft@,
            { self.peers.get(&id).unwrap().hbbft.clone() };
        proof {
            assert forall|id: PeerId| ids@.contains(id) implies #[trigger] connection_of.requires(
                (id,),
            ) by {
                assert(ids@.to_set().contains(id));
            }
        }
        let network = NetworkConfig {
            identity: self.identity,
            bind_addr: self.hbbft_bind_addr.clone(),
            peers: collect_map(ids.as_slice(), connection_of),
        };
        proof {
            assert(network@.peers =~= self@.network().peers);
        }
        network
    }

    /// The certificates and names of all peers, and the own key.
    pub fn tls_config(&self) -> (tls: TlsConfig)
        ensures
            tls@ == self@.tls(),
    {
        let ids = sorted_ids(&self.peers);
        let cert_of = |id: PeerId| -> (cert: Certificate)
            requires
                self.peers@.contains_key(id),
            ensures
                cert@ == self.peers@[id].tls_cert@,
            { self.peers.get(&id).unwrap().tls_cert.clone() };
        let name_of = |id: PeerId| -> (name: String)
            requires
                self.peers@.contains_key(id),
            ensures
                name@ == self.peers@[id].name@,
            { self.peers.get(&id).unwrap().name.clone() };
        proof {
            assert forall|id: PeerId| ids@.contains(id) implies #[trigger] cert_of.requires(
                (id,),
            ) by {
                assert(ids@.to_set().contains(id));
            }
            assert forall|id: PeerId| ids@.contains(id) implies #[trigger] name_of.requires(
                (id,),
            ) by {
                assert(ids@.to_set().contains(id));
            }
        }
        let tls = TlsConfig {
            our_certificate: self.tls_cert.clone(),
            our_private_key: self.tls_key.clone(),
            peer_certs: collect_hash_map(ids.as_slice(), cert_of),
            peer_names: collect_hash_map(ids.as_slice(), name_of),
        };
        proof {
            assert(tls@.peer_certs =~= self@.tls().peer_certs);
            assert(tls@.peer_names =~= self@.tls().peer_names);
        }
        tls
    }

    /// How many connections other peers open to this one: as many as there are numbers below
    /// its own.
    pub fn get_incoming_count(&self) -> (count: u16)
        ensures
            count == self@.identity,
    {
        self.identity
    }
}

/// Whether the first `end` modules are of known kinds and pass their checks.
pub open spec fn passes_before<
    E,
    F: Fn(ModuleKind, &ServerModuleConfig, PeerId) -> Result<(), E>,
>(config: &ServerConfig, check: F, identity: PeerId, end: int) -> bool {
    forall|i: int|
        0 <= i < end ==> {
            &&& kind_of(#[trigger] config.modules.names()[i]) is Some
            &&& check.ensures(
                (kind_of(config.modules.names()[i])->0, &config.modules.values()[i], identity),
                Ok(()),
            )
        }
}

/// Whether this is the answer to a check of the configuration: the first fault; else the
/// objection of the first module that objects, with all modules before it of known kinds and
/// passing; else, with all modules of known kinds and passing, none.
pub open spec fn is_validation<
    E,
    F: Fn(ModuleKind, &ServerModuleConfig, PeerId) -> Result<(), E>,
>(config: &ServerConfig, check: F, identity: PeerId, answer: Result<(), ConfigError<E>>) -> bool {
    match answer {
        Ok(()) => {
            &&& config@.fault(identity) is None
            &&& passes_before(config, check, identity, config.modules.names().len() as int)
        },
        Err(ConfigError::Fault(fault)) => config@.fault(identity) == Some(fault),
        Err(ConfigError::Module(e)) => {
            &&& config@.fault(identity) is None
            &&& exists|i: int|
                {
                    &&& 0 <= i < config.modules.names().len()
                    &&& #[trigger] passes_before(config, check, identity, i)
                    &&& kind_of(config.modules.names()[i]) is Some
                    &&& check.ensures(
                        (
                            kind_of(config.modules.names()[i])->0,
                            &config.modules.values()[i],
                            identity,
                        ),
                        Err(e),
                    )
                }
        },
    }
}

/// Whether each module of a known kind that is reached, because none before it has to object,
/// can be checked.
pub open spec fn can_check_known<
    E,
    F: Fn(ModuleKind, &ServerModuleConfig, PeerId) -> Result<(), E>,
>(config: &ServerConfig, check: F, identity: PeerId) -> bool {
    forall|i: int|
        0 <= i < config.modules.names().len() && #[trigger] passes_before(
            config,
            check,
            identity,
            i,
        ) && kind_of(config.modules.names()[i]) is Some ==> check.requires(
            (kind_of(config.modules.names()[i])->0, &config.modules.values()[i], identity),
        )
}

/// Whether each module that is reached, because none before it has to object, is of a known kind
/// and can be checked.
pub open spec fn can_check<E, F: Fn(ModuleKind, &ServerModuleConfig, PeerId) -> Result<(), E>>(
    config: &ServerConfig,
    check: F,
    identity: PeerId,
) -> bool {
    forall|i: int|
        0 <= i < config.modules.names().len() && #[trigger] passes_before(
            config,
            check,
            identity,
            i,
        ) ==> {
            &&& kind_of(config.modules.names()[i]) is Some
            &&& check.requires(
                (kind_of(config.modules.names()[i])->0, &config.modules.values()[i], identity),
            )
        }
}

/// Whether two lists of bytes are the same.
fn same_bytes(a: &Vec<u8>, b: &Vec<u8>) -> (same: bool)
    ensures
        same == (a@ == b@),
{
    if a.len() != b.len() {
        return false;
    }
    for i in 0..a.len()
        invariant
            a@.len() == b@.len(),
            forall|j: int| 0 <= j < i ==> a@[j] == b@[j],
    {
        if a[i] != b[i] {
            return false;
        }
    }
    proof {
        assert(a@ =~= b@);
    }
    true
}

} // verus!
