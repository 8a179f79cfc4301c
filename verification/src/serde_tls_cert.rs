//! A TLS certificate as text in a configuration file.

use crate::hex_codec::{decode, encode, InvalidHex};
use crate::tls::Certificate;
use vstd::prelude::*;

verus! {

/// The certificate's bytes in lower-case hexadecimal.
pub fn serialize(cert: &Certificate) -> (text: String)
    requires
        2 * cert@.len() <= isize::MAX,
    ensures
        text@ == crate::hex_codec::hex_encode(cert@),
{
    encode(&cert.0)
}

/// The certificate whose bytes `text` gives in hexadecimal.
pub fn deserialize(text: &str) -> (res: Result<Certificate, InvalidHex>)
    ensures
        match res {
            Ok(cert) => crate::hex_codec::hex_decode(text@) == Some(cert@),
            Err(_) => crate::hex_codec::hex_decode(text@) is None,
        },
{
    match decode(text) {
        Ok(bytes) => Ok(Certificate(bytes)),
        Err(e) => Err(e),
    }
}

} // verus!
