//! Whether a client certificate goes with its key.
use vstd::prelude::*;

use crate::pem;
use crate::pem::{KeyDer, KeyKind};
use crate::upstream::tls;

verus! {

/// Whether `fault` is the answer that was got for a client certificate and its key:
/// why they do not go together, or `None`. The answer may change from one time to
/// the next; this is closed, so that outside of this module only [`vet`] says it.
pub closed spec fn answered(
    chain: Seq<Seq<u8>>,
    key: (KeyKind, Seq<u8>),
    fault: Option<Seq<char>>,
) -> bool {
    true
}

/// Asks why a client certificate does not go with its key; `None` where it does.
pub fn vet(chain: &Vec<Vec<u8>>, key: &KeyDer) -> (r: Option<String>)
    ensures
        answered(
            pem::chain_view(chain@),
            key@,
            match r {
                Some(e) => Some(e@),
                None => None,
            },
        ),
{
    tls::client_auth_fault(chain, key)
}

} // verus!
