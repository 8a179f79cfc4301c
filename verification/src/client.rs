//! What a client has to know of a federation.

use crate::address::Url;
use crate::module_map::ModuleMap;
use crate::modules::ClientModuleConfig;
use vstd::prelude::*;

verus! {

/// A federation member as clients see it.
#[derive(Debug, PartialEq, Eq)]
pub struct Node {
    pub url: Url,
    pub name: String,
}

/// What a `Node` holds.
#[verifier::ext_equal]
pub struct NodeView {
    pub url: Seq<char>,
    pub name: Seq<char>,
}

impl View for Node {
    type V = NodeView;

    open spec fn view(&self) -> NodeView {
        NodeView { url: self.url@, name: self.name@ }
    }
}

/// The configuration that is handed out to clients.
#[derive(Debug, PartialEq, Eq)]
pub struct ClientConfig {
    pub federation_name: String,
    pub nodes: Vec<Node>,
    pub modules: ModuleMap<ClientModuleConfig>,
}

/// What a `ClientConfig` holds.
#[verifier::ext_equal]
pub struct ClientConfigView {
    pub federation_name: Seq<char>,
    pub nodes: Seq<NodeView>,
    pub modules: Map<Seq<char>, Seq<char>>,
}

/// The views of a list of nodes.
pub open spec fn view_nodes(nodes: Seq<Node>) -> Seq<NodeView> {
    nodes.map_values(|n: Node| n@)
}

/// The module configurations as text.
pub open spec fn view_modules<C: View<V = Seq<char>>>(modules: Map<Seq<char>, C>) -> Map<
    Seq<char>,
    Seq<char>,
> {
    modules.map_values(|c: C| c@)
}

impl View for ClientConfig {
    type V = ClientConfigView;

    open spec fn view(&self) -> ClientConfigView {
        ClientConfigView {
            federation_name: self.federation_name@,
            nodes: view_nodes(self.nodes@),
            modules: view_modules(self.modules@),
        }
    }
}

} // verus!
