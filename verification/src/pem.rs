//! Certificates and private keys out of PEM files.
//!
//! A file that was asked for is a `Result`: its bytes, or why it could not be
//! read. Decoding turns the bytes into sections; what the sections amount to is
//! decided here.
use vstd::prelude::*;

use rustls_pki_types::pem::PemObject;
use rustls_pki_types::{CertificateDer, PrivateKeyDer};

verus! {

/// How the bytes of a private key are encoded.
#[derive(Debug, Clone, Copy, PartialEq, Eq, Structural)]
pub enum KeyKind {
    /// PKCS #1, an RSA key.
    Pkcs1,
    /// SEC 1, an elliptic-curve key.
    Sec1,
    /// PKCS #8.
    Pkcs8,
}

/// A private key in DER.
#[derive(Debug)]
pub struct KeyDer {
    /// The encoding.
    pub kind: KeyKind,
    /// The encoded key.
    pub der: Vec<u8>,
}

impl View for KeyDer {
    type V = (KeyKind, Seq<u8>);

    open spec fn view(&self) -> (KeyKind, Seq<u8>) {
        (self.kind, self.der@)
    }
}

/// Why there is no key.
#[derive(Debug)]
pub enum KeyFault {
    /// The file holds no private key.
    NoItemsFound,
    /// The file could not be read or decoded.
    Failed(String),
}

/// Why there is no certificate chain.
#[derive(Debug)]
pub enum ChainFault {
    /// The file could not be read or decoded.
    Failed(String),
    /// The file holds no certificate.
    Empty,
}

/// One certificate section of a PEM file: its DER bytes, or why it could not
/// be decoded.
pub type Section = Result<Vec<u8>, String>;

/// A section by the values that it holds.
pub open spec fn section_view(s: Section) -> Result<Seq<u8>, Seq<char>> {
    match s {
        Ok(der) => Ok(der@),
        Err(e) => Err(e@),
    }
}

/// Sections by the values that they hold.
pub open spec fn section_views(v: Seq<Section>) -> Seq<Result<Seq<u8>, Seq<char>>> {
    v.map_values(|s: Section| section_view(s))
}

/// A decoded key by the values that it holds; a fault by its text, `None` where
/// no key was found.
pub open spec fn key_view(r: Result<KeyDer, KeyFault>) -> Result<
    (KeyKind, Seq<u8>),
    Option<Seq<char>>,
> {
    match r {
        Ok(k) => Ok(k@),
        Err(KeyFault::NoItemsFound) => Err(None),
        Err(KeyFault::Failed(e)) => Err(Some(e@)),
    }
}

/// DER certificates by their bytes.
pub open spec fn chain_view(v: Seq<Vec<u8>>) -> Seq<Seq<u8>> {
    v.map_values(|c: Vec<u8>| c@)
}

/// The certificate sections of the PEM text `pem`, in order: the items of
/// `CertificateDer::pem_slice_iter`.
pub uninterp spec fn pem_certificates(pem: Seq<u8>) -> Seq<Result<Seq<u8>, Seq<char>>>;

/// The first private key of the PEM text `pem`, or the error text, `None` where
/// no key was found: the result of `PrivateKeyDer::from_pem_slice`.
pub uninterp spec fn pem_private_key(pem: Seq<u8>) -> Result<
    (KeyKind, Seq<u8>),
    Option<Seq<char>>,
>;

/// `CertificateDer::pem_slice_iter` of `rustls_pki_types`: every item that it
/// yields, in order. The items are a function of the bytes; they are named, not
/// described.
#[verifier::external_body]
fn certificate_sections(pem: &Vec<u8>) -> (r: Vec<Section>)
    ensures
        section_views(r@) == pem_certificates(pem@),
{
    let mut out = Vec::new();
    for item in CertificateDer::pem_slice_iter(pem) {
        out.push(match item {
            Ok(c) => Ok(c.as_ref().to_vec()),
            Err(e) => Err(e.to_string()),
        });
    }
    out
}

/// `PrivateKeyDer::from_pem_slice` of `rustls_pki_types`: the first private key
/// in the text. The result is a function of the bytes; it is named, not
/// described. The crate yields the three encodings of [`KeyKind`].
#[verifier::external_body]
fn first_private_key(pem: &Vec<u8>) -> (r: Result<KeyDer, KeyFault>)
    ensures
        key_view(r) == pem_private_key(pem@),
{
    let key = PrivateKeyDer::from_pem_slice(pem).map_err(|e| match e {
        rustls_pki_types::pem::Error::NoItemsFound => KeyFault::NoItemsFound,
        e => KeyFault::Failed(e.to_string()),
    })?;
    let kind = match &key {
        PrivateKeyDer::Pkcs1(_) => KeyKind::Pkcs1,
        PrivateKeyDer::Sec1(_) => KeyKind::Sec1,
        PrivateKeyDer::Pkcs8(_) => KeyKind::Pkcs8,
        _ => return Err(KeyFault::Failed(String::from("unknown key encoding"))),
    };
    Ok(KeyDer { kind, der: key.secret_der().to_vec() })
}

/// A fresh list of the same bytes.
pub(crate) fn copy_bytes(v: &Vec<u8>) -> (r: Vec<u8>)
    ensures
        r@ == v@,
{
    let r = v.clone();
    assert(r@ =~= v@);
    r
}

impl KeyDer {
    /// A copy of the key.
    pub fn copy(&self) -> (r: KeyDer)
        ensures
            r@ == self@,
    {
        KeyDer { kind: self.kind, der: copy_bytes(&self.der) }
    }
}

/// The certificate sections of a file.
pub fn decode_certs(file: &Result<Vec<u8>, String>) -> (r: Result<Vec<Section>, String>)
    ensures
        match *file {
            Ok(pem) => r matches Ok(v) && section_views(v@) == pem_certificates(pem@),
            Err(e) => r == Err::<Vec<Section>, String>(e),
        },
{
    match file {
        Ok(pem) => Ok(certificate_sections(pem)),
        Err(e) => Err(e.clone()),
    }
}

/// The private key of a file.
pub fn decode_key(file: &Result<Vec<u8>, String>) -> (r: Result<KeyDer, KeyFault>)
    ensures
        match *file {
            Ok(pem) => key_view(r) == pem_private_key(pem@),
            Err(e) => r == Err::<KeyDer, KeyFault>(KeyFault::Failed(e)),
        },
{
    match file {
        Ok(pem) => first_private_key(pem),
        Err(e) => Err(KeyFault::Failed(e.clone())),
    }
}

/// The error of the first section from `i` on that could not be decoded.
pub open spec fn first_error(v: Seq<Section>, i: int) -> Option<String>
    decreases v.len() - i,
{
    if i < 0 || i >= v.len() {
        None
    } else {
        match v[i] {
            Err(e) => Some(e),
            Ok(_) => first_error(v, i + 1),
        }
    }
}

/// The DER bytes of the sections `v`, all of which were decoded.
pub open spec fn ders(v: Seq<Section>) -> Seq<Seq<u8>> {
    v.map_values(|s: Section| s->Ok_0@)
}

/// The certificate chain that the sections of a file make.
pub open spec fn chain_result(certs: Result<Vec<Section>, String>) -> Result<
    Seq<Seq<u8>>,
    ChainFault,
> {
    match certs {
        Err(e) => Err(ChainFault::Failed(e)),
        Ok(v) => match first_error(v@, 0) {
            Some(e) => Err(ChainFault::Failed(e)),
            None => if v@.len() == 0 {
                Err(ChainFault::Empty)
            } else {
                Ok(ders(v@))
            },
        },
    }
}

/// The certificate chain that the sections of a file make: all of them, in
/// order. The first section that could not be decoded decides, and a file
/// without certificates is at fault too.
pub fn chain_of(certs: &Result<Vec<Section>, String>) -> (r: Result<Vec<Vec<u8>>, ChainFault>)
    ensures
        match r {
            Ok(c) => chain_result(*certs) == Ok::<_, ChainFault>(chain_view(c@)),
            Err(e) => chain_result(*certs) == Err::<Seq<Seq<u8>>, _>(e),
        },
{
    let v = match certs {
        Ok(v) => v,
        Err(e) => return Err(ChainFault::Failed(e.clone())),
    };
    let mut chain: Vec<Vec<u8>> = Vec::new();
    let mut i: usize = 0;
    while i < v.len()
        invariant
            i <= v@.len(),
            chain@.len() == i,
            *certs == Ok::<_, String>(*v),
            first_error(v@, 0) == first_error(v@, i as int),
            forall|j: int| 0 <= j < i ==> (#[trigger] chain@[j])@ == ders(v@)[j],
        decreases v@.len() - i,
    {
        match &v[i] {
            Ok(der) => {
                chain.push(copy_bytes(der));
            },
            Err(e) => {
                return Err(ChainFault::Failed(e.clone()));
            },
        }
        i += 1;
    }
    if chain.len() == 0 {
        return Err(ChainFault::Empty);
    }
    assert(chain_view(chain@) =~= ders(v@));
    Ok(chain)
}

/// A file makes a chain exactly where it could be read, holds a certificate, and
/// every section of it could be decoded. The chain is then all of them, in their
/// order.
pub proof fn chain_is_every_section(certs: Result<Vec<Section>, String>)
    ensures
        chain_result(certs) is Ok <==> (certs matches Ok(v) && v@.len() > 0 && forall|i: int|
            0 <= i < v@.len() ==> (#[trigger] v@[i]) is Ok),
        chain_result(certs) matches Ok(chain) ==> {
            let v = certs->Ok_0@;
            chain.len() == v.len() && forall|i: int|
                0 <= i < v.len() ==> (#[trigger] chain[i]) == v[i]->Ok_0@
        },
        chain_result(certs) matches Err(ChainFault::Empty) ==> certs matches Ok(v) && v@.len()
            == 0,
{
    if let Ok(v) = certs {
        lemma_first_error(v@, 0);
    }
}

proof fn lemma_first_error(v: Seq<Section>, i: int)
    requires
        0 <= i <= v.len(),
    ensures
        first_error(v, i) is None <==> (forall|j: int| i <= j < v.len() ==> (#[trigger] v[j])
            is Ok),
        first_error(v, i) matches Some(e) ==> exists|j: int|
            i <= j < v.len() && #[trigger] v[j] == Err::<Vec<u8>, String>(e) && forall|k: int|
                i <= k < j ==> (#[trigger] v[k]) is Ok,
    decreases v.len() - i,
{
    if i < v.len() {
        lemma_first_error(v, i + 1);
        if let Err(e) = v[i] {
            assert(v[i] == Err::<Vec<u8>, String>(e));
        } else if let Some(e) = first_error(v, i + 1) {
            let j = choose|j: int|
                i + 1 <= j < v.len() && #[trigger] v[j] == Err::<Vec<u8>, String>(e) && forall|
                    k: int,
                |
                    i + 1 <= k < j ==> (#[trigger] v[k]) is Ok;
            assert(v[j] == Err::<Vec<u8>, String>(e));
        }
    }
}

/// Of the sections that could not be decoded, the first one decides.
pub proof fn first_undecoded_section_decides(v: Vec<Section>, e: String)
    requires
        chain_result(Ok(v)) == Err::<Seq<Seq<u8>>, _>(ChainFault::Failed(e)),
    ensures
        exists|j: int|
            0 <= j < v@.len() && #[trigger] v@[j] == Err::<Vec<u8>, String>(e) && forall|k: int|
                0 <= k < j ==> (#[trigger] v@[k]) is Ok,
{
    lemma_first_error(v@, 0);
}

} // verus!
