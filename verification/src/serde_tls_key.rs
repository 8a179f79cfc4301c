//! A TLS private key as text in a configuration file.

use crate::hex_codec::{decode, encode, InvalidHex};
use crate::tls::PrivateKey;
use vstd::prelude::*;

verus! {

/// The private key's bytes in lower-case hexadecimal.
pub fn serialize(key: &PrivateKey) -> (text: String)
    requires
        2 * key@.len() <= isize::MAX,
    ensures
        text@ == crate::hex_codec::hex_encode(key@),
{
    encode(&key.0)
}

/// The private key whose bytes `text` gives in hexadecimal.
pub fn deserialize(text: &str) -> (res: Result<PrivateKey, InvalidHex>)
    ensures
        match res {
            Ok(key) => crate::hex_codec::hex_decode(text@) == Some(key@),
            Err(_) => crate::hex_codec::hex_decode(text@) is None,
        },
{
    match decode(text) {
        Ok(bytes) => Ok(PrivateKey(bytes)),
        Err(e) => Err(e),
    }
}

} // verus!
