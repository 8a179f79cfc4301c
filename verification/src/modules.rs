//! The modules of a federation: their kinds and their configurations.

use crate::text_order::{compare, Order};
use vstd::prelude::*;

verus! {

/// A JSON document, as text.
pub type Json = String;

/// The server side of a module's configuration.
#[derive(Debug, PartialEq, Eq)]
pub struct ServerModuleConfig(pub Json);

/// The client side of a module's configuration.
#[derive(Debug, PartialEq, Eq)]
pub struct ClientModuleConfig(pub Json);

impl View for ServerModuleConfig {
    type V = Seq<char>;

    open spec fn view(&self) -> Seq<char> {
        self.0@
    }
}

impl View for ClientModuleConfig {
    type V = Seq<char>;

    open spec fn view(&self) -> Seq<char> {
        self.0@
    }
}

impl Clone for ServerModuleConfig {
    fn clone(&self) -> (copy: Self)
        ensures
            copy == *self,
    {
        ServerModuleConfig(self.0.clone())
    }
}

impl Clone for ClientModuleConfig {
    fn clone(&self) -> (copy: Self)
        ensures
            copy == *self,
    {
        ClientModuleConfig(self.0.clone())
    }
}

/// The modules that a federation runs.
#[derive(Clone, Copy, Debug, PartialEq, Eq, Structural)]
pub enum ModuleKind {
    Wallet,
    Mint,
    Ln,
}

/// The module's name in a configuration.
pub open spec fn module_name(kind: ModuleKind) -> Seq<char> {
    match kind {
        ModuleKind::Wallet => "wallet"@,
        ModuleKind::Mint => "mint"@,
        ModuleKind::Ln => "ln"@,
    }
}

/// The kind of the module called `name`, if there is one.
pub open spec fn kind_of(name: Seq<char>) -> Option<ModuleKind> {
    if name == "wallet"@ {
        Some(ModuleKind::Wallet)
    } else if name == "mint"@ {
        Some(ModuleKind::Mint)
    } else if name == "ln"@ {
        Some(ModuleKind::Ln)
    } else {
        None
    }
}

/// Each kind has a name of its own, by which it is found again.
pub proof fn module_names_distinct(kind: ModuleKind)
    ensures
        kind_of(module_name(kind)) == Some(kind),
{
    reveal_strlit("wallet");
    reveal_strlit("mint");
    reveal_strlit("ln");
    assert("wallet"@.len() == 6);
    assert("mint"@.len() == 4);
    assert("ln"@.len() == 2);
}

impl ModuleKind {
    /// The module's name.
    pub fn name(self) -> (name: &'static str)
        ensures
            name@ == module_name(self),
    {
        match self {
            ModuleKind::Wallet => "wallet",
            ModuleKind::Mint => "mint",
            ModuleKind::Ln => "ln",
        }
    }

    /// The kind of the module called `name`.
    pub fn from_name(name: &str) -> (kind: Option<ModuleKind>)
        ensures
            kind == kind_of(name@),
    {
        if let Order::Same = compare(name, "wallet") {
            Some(ModuleKind::Wallet)
        } else if let Order::Same = compare(name, "mint") {
            Some(ModuleKind::Mint)
        } else if let Order::Same = compare(name, "ln") {
            Some(ModuleKind::Ln)
        } else {
            None
        }
    }
}

} // verus!
