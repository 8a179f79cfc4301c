//! A federation member as the other members know it.

use crate::address::Url;
use crate::net::ConnectionConfig;
use crate::tls::Certificate;
use vstd::prelude::*;

verus! {

/// A federation member.
#[derive(Debug, PartialEq, Eq)]
pub struct Peer {
    pub hbbft: ConnectionConfig,
    pub tls_cert: Certificate,
    /// The peer's websocket network address and port (e.g. `ws://10.42.0.10:5000`)
    pub api_addr: Url,
    /// human-readable name
    pub name: String,
}

/// What a `Peer` holds.
#[verifier::ext_equal]
pub struct PeerView {
    pub hbbft: Seq<char>,
    pub tls_cert: Seq<u8>,
    pub api_addr: Seq<char>,
    pub name: Seq<char>,
}

impl View for Peer {
    type V = PeerView;

    open spec fn view(&self) -> PeerView {
        PeerView {
            hbbft: self.hbbft@,
            tls_cert: self.tls_cert@,
            api_addr: self.api_addr@,
            name: self.name@,
        }
    }
}

impl Clone for Peer {
    fn clone(&self) -> (copy: Self)
        ensures
            copy@ == self@,
    {
        Peer {
            hbbft: self.hbbft.clone(),
            tls_cert: self.tls_cert.clone(),
            api_addr: self.api_addr.clone(),
            name: self.name.clone(),
        }
    }
}

} // verus!
