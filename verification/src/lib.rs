//! The configuration of a federation: the settings from which it is generated, the keys and
//! module configurations that its members share, the checks that a member makes before it takes
//! part, and what is handed out to clients.
//!
//! A federation is either set up by a trusted dealer (`dealer`) or by its members together
//! (`distributed`). `laws` states what holds of the results as a whole; `text_laws`,
//! `settings_laws`, `config_laws` and `federation_laws` state what the functions answer, in terms
//! of what they are given.

pub mod address;
pub mod client;
pub mod config_laws;
pub mod dealer;
pub mod distributed;
pub mod federation_laws;
pub mod generation;
pub mod hex_codec;
pub mod ids;
pub mod keys;
pub mod laws;
pub mod local;
pub mod module_map;
pub mod modules;
pub mod net;
pub mod params;
pub mod peer;
pub mod peer_map;
pub mod serde_tls_cert;
pub mod serde_tls_key;
pub mod server;
pub mod settings_laws;
pub mod text;
pub mod text_laws;
pub mod text_order;
pub mod tls;
