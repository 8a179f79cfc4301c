//! What holds of a member's configuration, in terms of what the functions are given and what they
//! answer.

use crate::client::{view_nodes, ClientConfig, Node};
use crate::generation::{named, PerModule};
use crate::ids::PeerId;
use crate::keys::{key_set_share, public_share, ThresholdKeys};
use crate::module_map::ModuleMap;
use crate::modules::{kind_of, ClientModuleConfig, ModuleKind, ServerModuleConfig};
use crate::net::NetworkConfig;
use crate::params::ServerConfigParams;
use crate::peer::Peer;
use crate::peer_map::view_map;
use crate::server::{
    is_validation, passes_before, ConfigError, ConfigFault, ModuleError, ServerConfig,
};
use crate::settings_laws::peers_stand_in_ascending_order;
use crate::text::decimal;
use crate::tls::TlsConfig;
use std::collections::BTreeMap;
use vstd::prelude::*;

verus! {

/// Whether `name` is a module's name, and the module's own check may answer so of its
/// configuration.
pub open spec fn answers<E, F: Fn(ModuleKind, &ServerModuleConfig, PeerId) -> Result<(), E>>(
    check: F,
    name: Seq<char>,
    module: ServerModuleConfig,
    identity: PeerId,
    answer: Result<(), E>,
) -> bool {
    ||| name == "wallet"@ && check.ensures((ModuleKind::Wallet, &module, identity), answer)
    ||| name == "mint"@ && check.ensures((ModuleKind::Mint, &module, identity), answer)
    ||| name == "ln"@ && check.ensures((ModuleKind::Ln, &module, identity), answer)
}

/// The three names are different.
pub proof fn module_names_differ()
    ensures
        "wallet"@ != "mint"@,
        "wallet"@ != "ln"@,
        "mint"@ != "ln"@,
{
    reveal_strlit("wallet");
    reveal_strlit("mint");
    reveal_strlit("ln");
    assert("wallet"@.len() == 6);
    assert("mint"@.len() == 4);
    assert("ln"@.len() == 2);
}

/// The faults of a configuration, in the order in which they are looked for: the epoch's secret
/// share is not the one at our number of the epoch's key set, the same of the consensus keys, or
/// the peers are not numbered 0, 1, 2 and so on.
proof fn lemma_fault(config: &ServerConfig, identity: PeerId)
    ensures
        config@.fault(identity) == Some(ConfigFault::EpochKey) <==> public_share(
            config.epoch_sks@,
        ) != key_set_share(config.epoch_pk_set@, identity as int),
        config@.fault(identity) == Some(ConfigFault::HbbftKey) <==> public_share(
            config.epoch_sks@,
        ) == key_set_share(config.epoch_pk_set@, identity as int) && public_share(
            config.hbbft_sks@,
        ) != key_set_share(config.hbbft_pk_set@, identity as int),
        config@.fault(identity) is None <==> {
            &&& public_share(config.epoch_sks@) == key_set_share(
                config.epoch_pk_set@,
                identity as int,
            )
            &&& public_share(config.hbbft_sks@) == key_set_share(
                config.hbbft_pk_set@,
                identity as int,
            )
            &&& config.peers@.dom().len() > 0
            &&& forall|id: PeerId| #[trigger]
                config.peers@.contains_key(id) <==> id < config.peers@.dom().len()
        },
{
    assert(config@.peers.dom() =~= config.peers@.dom());
    if config@.fault(identity) is None {
        assert forall|id: PeerId| #[trigger] config.peers@.contains_key(id) <==> id
            < config.peers@.dom().len() by {
            assert(config.peers@.dom().contains(id) <==> id < config.peers@.dom().len());
        }
    }
    if forall|id: PeerId| #[trigger]
        config.peers@.contains_key(id) <==> id < config.peers@.dom().len() {
        assert forall|id: PeerId| #[trigger] config.peers@.dom().contains(id) <==> id
            < config.peers@.dom().len() by {
            assert(config.peers@.contains_key(id) <==> id < config.peers@.dom().len());
        }
    }
}

/// What passing modules are.
proof fn lemma_passes<E, F: Fn(ModuleKind, &ServerModuleConfig, PeerId) -> Result<(), E>>(
    config: &ServerConfig,
    check: F,
    identity: PeerId,
    end: int,
)
    requires
        passes_before(config, check, identity, end),
    ensures
        forall|i: int|
            0 <= i < end ==> answers(
                check,
                #[trigger] config.modules.names()[i],
                config.modules.values()[i],
                identity,
                Ok(()),
            ),
{
    module_names_differ();
}

/// A configuration is accepted only if its secret shares are those at our number of the key sets,
/// its peers are numbered 0, 1, 2 and so on, and each of its modules is a wallet, a mint or a
/// lightning module whose own check accepts its configuration for us.
pub proof fn accepted_config_holds<
    E,
    F: Fn(ModuleKind, &ServerModuleConfig, PeerId) -> Result<(), E>,
>(
    config: &ServerConfig,
    identity: PeerId,
    check: F,
    asked: &str,
    found: Option<&ServerModuleConfig>,
    res: Result<(), ConfigError<E>>,
    tried: Result<Result<(), ConfigError<E>>, usize>,
)
    requires
        call_ensures(ServerConfig::validate_config::<E, F>, (config, identity, check), res),
        call_ensures(ServerConfig::try_validate_config::<E, F>, (config, identity, check), tried),
        call_ensures(
            ModuleMap::<ServerModuleConfig>::get,
            (&config.modules, asked),
            found,
        ),
        res is Ok || tried matches Ok(Ok(_)),
    ensures
        public_share(config.epoch_sks@) == key_set_share(config.epoch_pk_set@, identity as int),
        public_share(config.hbbft_sks@) == key_set_share(config.hbbft_pk_set@, identity as int),
        config.peers@.dom().len() > 0,
        forall|id: PeerId| #[trigger]
            config.peers@.contains_key(id) <==> id < config.peers@.dom().len(),
        found matches Some(module) ==> answers(check, asked@, *module, identity, Ok(())),
        forall|name: Seq<char>| #[trigger]
            config.modules@.contains_key(name) ==> answers(
                check,
                name,
                config.modules@[name],
                identity,
                Ok(()),
            ),
{
    lemma_fault(config, identity);
    let answer = if res is Ok {
        res
    } else {
        tried->Ok_0
    };
    assert(is_validation(config, check, identity, answer) && answer is Ok);
    lemma_passes(config, check, identity, config.modules.names().len() as int);
    let names = config.modules.names();
    assert forall|name: Seq<char>| #[trigger] config.modules@.contains_key(name) implies answers(
        check,
        name,
        config.modules@[name],
        identity,
        Ok(()),
    ) by {
        assert(names.contains(name));
        assert(names[names.index_of(name)] == name);
    }
}

/// A configuration is refused for its keys or its peers exactly where these are wrong: first for
/// the epoch's key, then for the consensus key, then for the peers' numbers.
pub proof fn faulty_config_is_refused<
    E,
    F: Fn(ModuleKind, &ServerModuleConfig, PeerId) -> Result<(), E>,
>(
    config: &ServerConfig,
    identity: PeerId,
    check: F,
    res: Result<(), ConfigError<E>>,
    tried: Result<Result<(), ConfigError<E>>, usize>,
)
    requires
        call_ensures(ServerConfig::validate_config::<E, F>, (config, identity, check), res),
        call_ensures(ServerConfig::try_validate_config::<E, F>, (config, identity, check), tried),
    ensures
        ({
            let epoch = public_share(config.epoch_sks@) == key_set_share(
                config.epoch_pk_set@,
                identity as int,
            );
            let hbbft = public_share(config.hbbft_sks@) == key_set_share(
                config.hbbft_pk_set@,
                identity as int,
            );
            let numbered = config.peers@.dom().len() > 0 && forall|id: PeerId| #[trigger]
                config.peers@.contains_key(id) <==> id < config.peers@.dom().len();
            let found = if !epoch {
                Some(ConfigFault::EpochKey)
            } else if !hbbft {
                Some(ConfigFault::HbbftKey)
            } else if !numbered {
                Some(ConfigFault::PeerIds)
            } else {
                None
            };
            &&& found matches Some(fault) ==> res == Err::<(), ConfigError<E>>(
                ConfigError::Fault(fault),
            )
            &&& found matches Some(fault) ==> tried == Ok::<Result<(), ConfigError<E>>, usize>(
                Err(ConfigError::Fault(fault)),
            )
            &&& found is None ==> !(res matches Err(ConfigError::Fault(_)))
            &&& found is None ==> !(tried matches Ok(Err(ConfigError::Fault(_))))
        }),
{
    lemma_fault(config, identity);
}

/// An objection is that of a module whose own check made it, while the check of each module
/// before it, in the order of their names, has accepted.
pub proof fn objection_is_a_modules_own<
    E,
    F: Fn(ModuleKind, &ServerModuleConfig, PeerId) -> Result<(), E>,
>(
    config: &ServerConfig,
    identity: PeerId,
    check: F,
    res: Result<(), ConfigError<E>>,
    tried: Result<Result<(), ConfigError<E>>, usize>,
)
    requires
        call_ensures(ServerConfig::validate_config::<E, F>, (config, identity, check), res),
        call_ensures(ServerConfig::try_validate_config::<E, F>, (config, identity, check), tried),
    ensures
        res matches Err(ConfigError::Module(e)) ==> exists|i: int|
            {
                &&& 0 <= i < config.modules.names().len()
                &&& answers(
                    check,
                    #[trigger] config.modules.names()[i],
                    config.modules.values()[i],
                    identity,
                    Err(e),
                )
                &&& forall|j: int|
                    0 <= j < i ==> answers(
                        check,
                        #[trigger] config.modules.names()[j],
                        config.modules.values()[j],
                        identity,
                        Ok(()),
                    )
            },
        tried matches Ok(Err(ConfigError::Module(e))) ==> exists|i: int|
            {
                &&& 0 <= i < config.modules.names().len()
                &&& answers(
                    check,
                    #[trigger] config.modules.names()[i],
                    config.modules.values()[i],
                    identity,
                    Err(e),
                )
                &&& forall|j: int|
                    0 <= j < i ==> answers(
                        check,
                        #[trigger] config.modules.names()[j],
                        config.modules.values()[j],
                        identity,
                        Ok(()),
                    )
            },
        tried matches Err(i) ==> {
            let name = config.modules.names()[i as int];
            &&& i < config.modules.names().len()
            &&& name != "wallet"@ && name != "mint"@ && name != "ln"@
            &&& forall|j: int|
                0 <= j < i ==> answers(
                    check,
                    #[trigger] config.modules.names()[j],
                    config.modules.values()[j],
                    identity,
                    Ok(()),
                )
        },
{
    if let Err(ConfigError::Module(e)) = res {
        lemma_objection(config, check, identity, e);
    }
    if let Ok(Err(ConfigError::Module(e))) = tried {
        lemma_objection(config, check, identity, e);
    }
    if let Err(i) = tried {
        lemma_passes(config, check, identity, i as int);
    }
}

proof fn lemma_objection<E, F: Fn(ModuleKind, &ServerModuleConfig, PeerId) -> Result<(), E>>(
    config: &ServerConfig,
    check: F,
    identity: PeerId,
    e: E,
)
    requires
        is_validation(config, check, identity, Err(ConfigError::Module(e))),
    ensures
        exists|i: int|
            {
                &&& 0 <= i < config.modules.names().len()
                &&& answers(
                    check,
                    #[trigger] config.modules.names()[i],
                    config.modules.values()[i],
                    identity,
                    Err(e),
                )
                &&& forall|j: int|
                    0 <= j < i ==> answers(
                        check,
                        #[trigger] config.modules.names()[j],
                        config.modules.values()[j],
                        identity,
                        Ok(()),
                    )
            },
{
    let i = choose|i: int|
        {
            &&& 0 <= i < config.modules.names().len()
            &&& #[trigger] passes_before(config, check, identity, i)
            &&& kind_of(config.modules.names()[i]) is Some
            &&& check.ensures(
                (kind_of(config.modules.names()[i])->0, &config.modules.values()[i], identity),
                Err(e),
            )
        };
    lemma_passes(config, check, identity, i);
    assert(answers(
        check,
        config.modules.names()[i],
        config.modules.values()[i],
        identity,
        Err(e),
    ));
}

/// The faults are called by their messages.
pub proof fn faults_are_called(fault: ConfigFault, text: &'static str)
    requires
        call_ensures(ConfigFault::message, (fault,), text),
    ensures
        fault == ConfigFault::EpochKey ==> text@
            == "Epoch private key doesn't match pubkey share"@,
        fault == ConfigFault::HbbftKey ==> text@
            == "HBBFT private key doesn't match pubkey share"@,
        fault == ConfigFault::PeerIds ==> text@ == "Peer ids are not indexed from 0"@,
{
}

/// A module's configuration is the one that is found under its name, as the caller reads it; a
/// name under which there is none is answered with a message that holds the name.
pub proof fn module_config_is_found<T, E, F: Fn(&ServerModuleConfig) -> Result<T, E>>(
    config: &ServerConfig,
    name: &str,
    typed: F,
    found: Option<&ServerModuleConfig>,
    res: Result<T, ModuleError<E>>,
)
    requires
        call_ensures(ServerConfig::get_module_config::<T, E, F>, (config, name, typed), res),
        call_ensures(ModuleMap::<ServerModuleConfig>::get, (&config.modules, name), found),
    ensures
        found is None <==> res matches Err(ModuleError::NotFound(_)),
        res matches Err(ModuleError::NotFound(message)) ==> message@ == "Module "@ + name@
            + " not found"@,
        res matches Ok(value) ==> typed.ensures((found->0,), Ok(value)),
        res matches Err(ModuleError::Typed(e)) ==> typed.ensures((found->0,), Err(e)),
{
}

/// Clients see the federation's name, each peer's API under the name `node #` and the peer's
/// number, in ascending order of the peers, and of each module what its own projection gives.
pub proof fn client_config_holds<F: Fn(ModuleKind, &ServerModuleConfig) -> ClientModuleConfig>(
    config: &ServerConfig,
    project: F,
    client: ClientConfig,
    id: PeerId,
    asked: &str,
    ours: Option<&ServerModuleConfig>,
    theirs: Option<&ClientModuleConfig>,
)
    requires
        call_ensures(ServerConfig::to_client_config::<F>, (config, project), client),
        call_ensures(ModuleMap::<ServerModuleConfig>::get, (&config.modules, asked), ours),
        call_ensures(ModuleMap::<ClientModuleConfig>::get, (&client.modules, asked), theirs),
    ensures
        client.federation_name@ == config.federation_name@,
        config.peers@.contains_key(id) ==> {
            let node = client.nodes@[config.peers@.dom().filter(|k: PeerId| k < id).len() as int];
            &&& client.nodes@.len() == config.peers@.dom().len()
            &&& node.url@ == config.peers@[id].api_addr@
            &&& node.name@ == seq!['n', 'o', 'd', 'e', ' ', '#'] + decimal(id as nat)
        },
        ours is Some <==> theirs is Some,
        ours is Some && asked@ == "wallet"@ ==> project.ensures(
            (ModuleKind::Wallet, ours->0),
            *theirs->0,
        ),
        ours is Some && asked@ == "mint"@ ==> project.ensures(
            (ModuleKind::Mint, ours->0),
            *theirs->0,
        ),
        ours is Some && asked@ == "ln"@ ==> project.ensures((ModuleKind::Ln, ours->0), *theirs->0),
{
    reveal_strlit("node #");
    assert("node #"@ =~= seq!['n', 'o', 'd', 'e', ' ', '#']);
    module_names_differ();
    if config.peers@.contains_key(id) {
        let ids = config.peers@.dom();
        assert(config@.peers.dom() =~= ids);
        peers_stand_in_ascending_order(ids, id);
        let i = ids.filter(|k: PeerId| k < id).len() as int;
        assert(view_nodes(client.nodes@).len() == client.nodes@.len());
        assert(view_nodes(client.nodes@)[i] == client.nodes@[i]@);
        assert(config@.client_nodes()[i].url == config@.peers[id].api_addr);
    }
    assert(client.modules@.contains_key(asked@) <==> config.modules@.contains_key(asked@)) by {
        assert(client.modules@.dom().contains(asked@) <==> config.modules@.dom().contains(asked@));
    }
}

/// The consensus network of a configuration is ours, listens where the configuration says, and
/// reaches each peer where the configuration says.
pub proof fn network_of_config_holds(config: &ServerConfig, network: NetworkConfig, id: PeerId)
    requires
        call_ensures(ServerConfig::network_config, (config,), network),
    ensures
        network.identity == config.identity,
        network.bind_addr@ == config.hbbft_bind_addr@,
        network.peers@.dom() == config.peers@.dom(),
        config.peers@.contains_key(id) ==> network.peers@[id].address@
            == config.peers@[id].hbbft.address@,
{
    assert(network@.peers.dom() =~= network.peers@.dom());
    assert(config@.peers.dom() =~= config.peers@.dom());
    assert(network@.peers.dom() =~= config.peers@.dom());
    if config.peers@.contains_key(id) {
        assert(network@.peers[id] == network.peers@[id]@);
    }
}

/// The TLS settings of a configuration hold its own certificate and key, and of each peer the
/// certificate and the name.
pub proof fn tls_of_config_holds(config: &ServerConfig, tls: TlsConfig, id: PeerId)
    requires
        call_ensures(ServerConfig::tls_config, (config,), tls),
    ensures
        tls.our_certificate.0@ == config.tls_cert.0@,
        tls.our_private_key.0@ == config.tls_key.0@,
        tls.peer_certs@.dom() == config.peers@.dom(),
        tls.peer_names@.dom() == config.peers@.dom(),
        config.peers@.contains_key(id) ==> tls.peer_certs@[id].0@ == config.peers@[id].tls_cert.0@,
        config.peers@.contains_key(id) ==> tls.peer_names@[id]@ == config.peers@[id].name@,
{
    assert(tls@.peer_certs.dom() =~= tls.peer_certs@.dom());
    assert(tls@.peer_names.dom() =~= tls.peer_names@.dom());
    assert(config@.peers.dom() =~= config.peers@.dom());
    assert(tls@.peer_certs.dom() =~= config.peers@.dom());
    assert(tls@.peer_names.dom() =~= config.peers@.dom());
    if config.peers@.contains_key(id) {
        assert(tls@.peer_certs[id] == tls.peer_certs@[id]@);
        assert(tls@.peer_names[id] == tls.peer_names@[id]@);
    }
}

/// As many peers connect to us as there are numbers below ours.
pub proof fn incoming_connections(config: &ServerConfig, count: u16)
    requires
        call_ensures(ServerConfig::get_incoming_count, (config,), count),
    ensures
        count == config.identity,
{
}

/// What the modules have is found under their names, and nothing else is.
pub proof fn named_parts_are_found<T>(
    parts: PerModule<T>,
    modules: ModuleMap<T>,
    asked: &str,
    found: Option<&T>,
)
    requires
        call_ensures(named::<T>, (parts,), modules),
        call_ensures(ModuleMap::<T>::get, (&modules, asked), found),
    ensures
        asked@ == "wallet"@ ==> found == Some(&parts.wallet),
        asked@ == "mint"@ ==> found == Some(&parts.mint),
        asked@ == "ln"@ ==> found == Some(&parts.ln),
        found is Some ==> asked@ == "wallet"@ || asked@ == "mint"@ || asked@ == "ln"@,
{
    module_names_differ();
}

/// A configuration is put together from the settings' name, addresses, certificate and key, from
/// the peers and keys that are given, each in its place, and from the modules' parts under their
/// names.
pub proof fn assembled_server_holds(
    params: &ServerConfigParams,
    id: PeerId,
    peers: BTreeMap<PeerId, Peer>,
    hbbft: ThresholdKeys,
    epoch: ThresholdKeys,
    modules: PerModule<ServerModuleConfig>,
    config: ServerConfig,
    asked: &str,
    found: Option<&ServerModuleConfig>,
)
    requires
        call_ensures(
            ServerConfig::assemble,
            (params, id, peers, hbbft, epoch, modules),
            config,
        ),
        call_ensures(ModuleMap::<ServerModuleConfig>::get, (&config.modules, asked), found),
    ensures
        config.federation_name@ == params.federation_name@,
        config.identity == id,
        config.hbbft_bind_addr@ == params.hbbft.bind_addr@,
        config.api_bind_addr@ == params.api.bind_addr@,
        config.tls_cert.0@ == params.tls.our_certificate.0@,
        config.tls_key.0@ == params.tls.our_private_key.0@,
        view_map(config.peers@) == view_map(peers@),
        config.hbbft_sks@ == hbbft.secret@,
        config.hbbft_pk_set@ == hbbft.set@,
        config.epoch_sks@ == epoch.secret@,
        config.epoch_pk_set@ == epoch.set@,
        asked@ == "wallet"@ ==> found == Some(&modules.wallet),
        asked@ == "mint"@ ==> found == Some(&modules.mint),
        asked@ == "ln"@ ==> found == Some(&modules.ln),
        found is Some ==> asked@ == "wallet"@ || asked@ == "mint"@ || asked@ == "ln"@,
{
    module_names_differ();
}

/// A configuration for clients is put together from the settings' name, the nodes that are given,
/// and the modules' parts under their names.
pub proof fn assembled_client_holds(
    params: &ServerConfigParams,
    nodes: Vec<Node>,
    modules: PerModule<ClientModuleConfig>,
    config: ClientConfig,
    asked: &str,
    found: Option<&ClientModuleConfig>,
)
    requires
        call_ensures(ClientConfig::assemble, (params, nodes, modules), config),
        call_ensures(ModuleMap::<ClientModuleConfig>::get, (&config.modules, asked), found),
    ensures
        config.federation_name@ == params.federation_name@,
        view_nodes(config.nodes@) == view_nodes(nodes@),
        asked@ == "wallet"@ ==> found is Some && (found->0).0@ == modules.wallet.0@,
        asked@ == "mint"@ ==> found is Some && (found->0).0@ == modules.mint.0@,
        asked@ == "ln"@ ==> found is Some && (found->0).0@ == modules.ln.0@,
        found is Some ==> asked@ == "wallet"@ || asked@ == "mint"@ || asked@ == "ln"@,
{
    module_names_differ();
    assert(config@.modules.contains_key(asked@) <==> config.modules@.contains_key(asked@));
    if config.modules@.contains_key(asked@) {
        assert(config@.modules[asked@] == config.modules@[asked@]@);
    }
}

} // verus!
