//! Whether a private key can sign for a certificate.
use vstd::prelude::*;

use crate::pem::{KeyDer, KeyKind};
use crate::transport::tls;

verus! {

/// Whether `fault` is the answer that was got for `key`: why it cannot sign, or
/// `None`. The answer may change from one time to the next; this is closed, so that
/// outside of this module only [`vet`] says it.
pub closed spec fn answered(key: (KeyKind, Seq<u8>), fault: Option<Seq<char>>) -> bool {
    fault matches Some(e) ==> e
        == "unexpected error: failed to parse private key as RSA, ECDSA, or EdDSA"@
}

/// Asks why `key` cannot sign; `None` where it can.
pub fn vet(key: &KeyDer) -> (r: Option<String>)
    ensures
        r matches Some(e) ==> e@
            == "unexpected error: failed to parse private key as RSA, ECDSA, or EdDSA"@,
        answered(
            key@,
            match r {
                Some(e) => Some(e@),
                None => None,
            },
        ),
{
    tls::signing_fault(key)
}

} // verus!
