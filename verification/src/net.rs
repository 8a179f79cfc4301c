//! The network as one peer sees it.

use crate::address::Url;
use crate::client::{Node, NodeView};
use crate::ids::PeerId;
use crate::peer_map::{sorted_ids, view_map};
use std::collections::{BTreeMap, HashMap};
use vstd::prelude::*;
use vstd::string::StringExecFns;

verus! {

broadcast use {
    vstd::std_specs::hash::group_hash_axioms,
    vstd::std_specs::btree::group_btree_axioms,
    vstd::laws_cmp::group_laws_cmp,
};

/// How to reach a peer.
#[derive(Debug, PartialEq, Eq)]
pub struct ConnectionConfig {
    /// The peer's host and port.
    pub address: String,
}

impl View for ConnectionConfig {
    type V = Seq<char>;

    open spec fn view(&self) -> Seq<char> {
        self.address@
    }
}

impl Clone for ConnectionConfig {
    fn clone(&self) -> (copy: Self)
        ensures
            copy == *self,
    {
        ConnectionConfig { address: self.address.clone() }
    }
}

/// A network of peers: who we are, where we listen, and how to reach each peer.
#[derive(Debug, PartialEq, Eq)]
pub struct NetworkConfig {
    pub identity: PeerId,
    pub bind_addr: String,
    pub peers: BTreeMap<PeerId, ConnectionConfig>,
}

/// What a `NetworkConfig` holds.
#[verifier::ext_equal]
pub struct NetworkConfigView {
    pub identity: PeerId,
    pub bind_addr: Seq<char>,
    pub peers: Map<PeerId, Seq<char>>,
}

impl View for NetworkConfig {
    type V = NetworkConfigView;

    open spec fn view(&self) -> NetworkConfigView {
        NetworkConfigView {
            identity: self.identity,
            bind_addr: self.bind_addr@,
            peers: view_map(self.peers@),
        }
    }
}

impl Clone for NetworkConfig {
    fn clone(&self) -> (copy: Self)
        ensures
            copy@ == self@,
    {
        NetworkConfig {
            identity: self.identity,
            bind_addr: self.bind_addr.clone(),
            peers: self.peers.clone(),
        }
    }
}

/// The URL of the address with a scheme in front of it, if that is a URL.
pub open spec fn prefixed_url(prefix: Seq<char>, address: Seq<char>) -> Option<Seq<char>> {
    crate::address::url_of(prefix + address)
}

/// Whether each address of `ids` is a URL once `prefix` stands in front of it.
pub open spec fn all_parse(
    prefix: Seq<char>,
    addresses: Map<PeerId, Seq<char>>,
    ids: Set<PeerId>,
) -> bool {
    forall|id: PeerId| #[trigger]
        ids.contains(id) ==> prefixed_url(prefix, addresses[id]) is Some
}

/// The URLs of the peers `ids`.
pub open spec fn prefixed_urls(
    prefix: Seq<char>,
    addresses: Map<PeerId, Seq<char>>,
    ids: Set<PeerId>,
) -> Map<PeerId, Seq<char>> {
    Map::new(
        |id: PeerId| ids.contains(id),
        |id: PeerId| prefixed_url(prefix, addresses[id])->0,
    )
}

/// The nodes of `ids`, in that order.
pub open spec fn node_list(
    ids: Seq<PeerId>,
    urls: Map<PeerId, Seq<char>>,
    names: Map<PeerId, Seq<char>>,
) -> Seq<NodeView> {
    ids.map_values(|id: PeerId| NodeView { url: urls[id], name: names[id] })
}

/// Reads the addresses of `ids` as URLs, each with `prefix` in front of it. `None` if one of
/// them is not a URL.
pub fn parse_addresses(
    prefix: &str,
    addresses: &BTreeMap<PeerId, ConnectionConfig>,
    ids: &Vec<PeerId>,
) -> (urls: Option<BTreeMap<PeerId, Url>>)
    requires
        ids@.to_set().subset_of(addresses@.dom()),
    ensures
        match urls {
            Some(urls) => {
                &&& all_parse(prefix@, view_map(addresses@), ids@.to_set())
                &&& view_map(urls@) == prefixed_urls(
                    prefix@,
                    view_map(addresses@),
                    ids@.to_set(),
                )
            },
            None => !all_parse(prefix@, view_map(addresses@), ids@.to_set()),
        },
{
    let mut urls: BTreeMap<PeerId, Url> = BTreeMap::new();
    for i in 0..ids.len()
        invariant
            ids@.to_set().subset_of(addresses@.dom()),
            urls@.dom() == ids@.take(i as int).to_set(),
            forall|id: PeerId| #[trigger]
                urls@.contains_key(id) ==> prefixed_url(prefix@, addresses@[id]@) == Some(
                    urls@[id]@,
                ),
    {
        let id: PeerId = ids[i];
        proof {
            assert(ids@.to_set().contains(id));
            assert(ids@.take(i + 1) =~= ids@.take(i as int).push(id));
            ids@.take(i as int).lemma_push_to_set_commute(id);
        }
        let address = match addresses.get(&id) {
            Some(connection) => connection.address.as_str(),
            None => {
                return None;
            },
        };
        match Url::parse(String::from_str(prefix).concat(address).as_str()) {
            Ok(url) => {
                urls.insert(id, url);
            },
            Err(_) => {
                proof {
                    assert(view_map(addresses@)[id] == addresses@[id]@);
                }
                return None;
            },
        }
    }
    proof {
        assert(ids@.take(ids@.len() as int) =~= ids@);
        assert(view_map(urls@) =~= prefixed_urls(prefix@, view_map(addresses@), ids@.to_set()));
    }
    Some(urls)
}

impl NetworkConfigView {
    /// Whether every peer's address is a URL once `prefix` stands in front of it.
    pub open spec fn addresses_parse(self, prefix: Seq<char>) -> bool {
        all_parse(prefix, self.peers, self.peers.dom())
    }

    /// The peers as nodes with the given names, in ascending order, each at its address with
    /// `prefix` in front of it.
    pub open spec fn nodes(self, prefix: Seq<char>, names: Map<PeerId, Seq<char>>) -> Seq<
        NodeView,
    > {
        node_list(
            crate::peer_map::ids_of(self.peers.dom()),
            prefixed_urls(prefix, self.peers, self.peers.dom()),
            names,
        )
    }
}

impl NetworkConfig {
    /// The URLs of the peers, each with `prefix` in front of its address. `None` if one of them
    /// is not a URL.
    pub fn urls(&self, prefix: &str) -> (urls: Option<BTreeMap<PeerId, Url>>)
        ensures
            match urls {
                Some(urls) => self@.addresses_parse(prefix@) && view_map(urls@) == prefixed_urls(
                    prefix@,
                    self@.peers,
                    self@.peers.dom(),
                ),
                None => !self@.addresses_parse(prefix@),
            },
    {
        let ids = sorted_ids(&self.peers);
        proof {
            assert(self@.peers.dom() =~= self.peers@.dom());
        }
        parse_addresses(prefix, &self.peers, &ids)
    }

    /// The peers as nodes at the given URLs and with the given names, in ascending order.
    pub fn nodes_at(
        &self,
        urls: &BTreeMap<PeerId, Url>,
        names: &HashMap<PeerId, String>,
    ) -> (nodes: Vec<Node>)
        requires
            self@.peers.dom().subset_of(urls@.dom()),
            self@.peers.dom().subset_of(names@.dom()),
        ensures
            crate::client::view_nodes(nodes@) == node_list(
                crate::peer_map::ids_of(self@.peers.dom()),
                view_map(urls@),
                view_map(names@),
            ),
    {
        let ids = sorted_ids(&self.peers);
        proof {
            assert(self@.peers.dom() =~= self.peers@.dom());
        }
        let mut nodes: Vec<Node> = Vec::new();
        for i in 0..ids.len()
            invariant
                ids@.to_set() == self@.peers.dom(),
                self@.peers.dom().subset_of(urls@.dom()),
                self@.peers.dom().subset_of(names@.dom()),
                nodes@.len() == i,
                forall|j: int|
                    0 <= j < i ==> (#[trigger] nodes@[j])@ == (NodeView {
                        url: urls@[ids@[j]]@,
                        name: names@[ids@[j]]@,
                    }),
        {
            let id: PeerId = ids[i];
            proof {
                assert(ids@.to_set().contains(id));
            }
            if let Some(url) = urls.get(&id) {
                if let Some(name) = names.get(&id) {
                    nodes.push(Node { url: url.clone(), name: name.clone() });
                }
            }
        }
        proof {
            let list = node_list(ids@, view_map(urls@), view_map(names@));
            assert forall|j: int| 0 <= j < list.len() implies crate::client::view_nodes(nodes@)[j]
                == list[j] by {
                assert(ids@.to_set().contains(ids@[j]));
            }
            assert(crate::client::view_nodes(nodes@) =~= list);
        }
        nodes
    }

    /// The peers as nodes with the given names, in ascending order, each at its address with
    /// `prefix` in front of it.
    pub fn nodes(&self, prefix: &str, names: &HashMap<PeerId, String>) -> (nodes: Vec<Node>)
        requires
            self@.addresses_parse(prefix@),
            self@.peers.dom().subset_of(names@.dom()),
        ensures
            crate::client::view_nodes(nodes@) == self@.nodes(prefix@, view_map(names@)),
    {
        match self.urls(prefix) {
            Some(urls) => {
                proof {
                    assert(view_map(urls@).dom() =~= urls@.dom());
                    assert(view_map(urls@).dom() =~= self@.peers.dom());
                }
                self.nodes_at(&urls, names)
            },
            None => Vec::new(),
        }
    }

    /// The peers as nodes with the given names, in ascending order, each at its address with
    /// `prefix` in front of it. `None` if one of those is not a URL.
    pub fn try_nodes(&self, prefix: &str, names: &HashMap<PeerId, String>) -> (nodes: Option<
        Vec<Node>,
    >)
        requires
            self@.peers.dom().subset_of(names@.dom()),
        ensures
            match nodes {
                Some(nodes) => self@.addresses_parse(prefix@) && crate::client::view_nodes(nodes@)
                    == self@.nodes(prefix@, view_map(names@)),
                None => !self@.addresses_parse(prefix@),
            },
    {
        match self.urls(prefix) {
            Some(_) => Some(self.nodes(prefix, names)),
            None => None,
        }
    }
}

} // verus!
