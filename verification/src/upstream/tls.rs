//! What an upstream connection needs for TLS: the roots that it trusts, the
//! client certificate that it shows, and whether it checks the peer at all.
use vstd::prelude::*;
use vstd::string::*;

use crate::pem;
use crate::pem::{ChainFault, KeyDer, KeyFault, KeyKind, Section};
use crate::text;
use crate::upstream::auth;
use rustls_pki_types::{CertificateDer, PrivateKeyDer};

verus! {

/// TLS settings of an upstream. The default trusts the bundled roots, shows no
/// client certificate, and checks the peer.
#[derive(Debug)]
pub struct UpstreamTlsOptions {
    /// PEM file with the CA certificates to trust in place of the bundled
    /// roots.
    pub ca: Option<String>,
    /// PEM file with the client certificate chain. Goes with `client_key`.
    pub client_cert: Option<String>,
    /// PEM file with the client key. Goes with `client_cert`.
    pub client_key: Option<String>,
    /// Whether the peer's certificate is checked.
    pub verify: bool,
}

impl Default for UpstreamTlsOptions {
    fn default() -> (r: UpstreamTlsOptions)
        ensures
            r.ca is None,
            r.client_cert is None,
            r.client_key is None,
            r.verify,
    {
        UpstreamTlsOptions { ca: None, client_cert: None, client_key: None, verify: true }
    }
}

impl Clone for UpstreamTlsOptions {
    fn clone(&self) -> (r: UpstreamTlsOptions)
        ensures
            r == *self,
    {
        UpstreamTlsOptions {
            ca: copy_path(&self.ca),
            client_cert: copy_path(&self.client_cert),
            client_key: copy_path(&self.client_key),
            verify: self.verify,
        }
    }
}

/// A copy of an optional string.
pub(crate) fn copy_path(p: &Option<String>) -> (r: Option<String>)
    ensures
        r == *p,
{
    match p {
        Some(s) => Some(s.clone()),
        None => None,
    }
}

/// A file that was asked for, by its path: its bytes, or why it could not be
/// read.
#[derive(Debug)]
pub struct PemFile {
    /// The path that was asked for.
    pub path: String,
    /// What came back.
    pub contents: Result<Vec<u8>, String>,
}

/// The files that [`UpstreamTlsOptions`] names, as they were read.
#[derive(Debug)]
pub struct UpstreamTlsFiles {
    /// The CA bundle.
    pub ca: Option<PemFile>,
    /// The client certificate chain.
    pub client_cert: Option<PemFile>,
    /// The client key.
    pub client_key: Option<PemFile>,
    /// Whether the peer's certificate is checked.
    pub verify: bool,
}

/// Whether `file` is there exactly where an option names one, and was read from
/// the path that the option names.
pub open spec fn read_from(path: Option<String>, file: Option<PemFile>) -> bool {
    match (path, file) {
        (None, None) => true,
        (Some(p), Some(f)) => f.path@ == p@,
        _ => false,
    }
}

/// Whether `files` are those that the settings `o` name.
pub open spec fn read_for(o: UpstreamTlsOptions, files: UpstreamTlsFiles) -> bool {
    &&& files.verify == o.verify
    &&& read_from(o.ca, files.ca)
    &&& read_from(o.client_cert, files.client_cert)
    &&& read_from(o.client_key, files.client_key)
}

/// Why the TLS settings of an upstream cannot be used.
#[derive(Debug)]
#[non_exhaustive]
pub enum TlsLoadError {
    /// A file could not be read or decoded.
    ReadFile {
        /// Path attempted.
        path: String,
        /// What went wrong.
        source: String,
    },
    /// A file holds nothing of the expected kind.
    EmptyPem {
        /// Path that came up empty.
        path: String,
    },
    /// A certificate, or the client certificate with its key, was refused.
    Rustls(String),
    /// A client certificate without a key, or a key without a certificate.
    MismatchedClientCert,
}

/// [`TlsLoadError`] by the values that it holds.
pub enum LoadFault {
    /// See [`TlsLoadError::ReadFile`].
    ReadFile(Seq<char>, Seq<char>),
    /// See [`TlsLoadError::EmptyPem`].
    EmptyPem(Seq<char>),
    /// See [`TlsLoadError::Rustls`].
    Rustls(Seq<char>),
    /// See [`TlsLoadError::MismatchedClientCert`].
    MismatchedClientCert,
}

impl View for TlsLoadError {
    type V = LoadFault;

    open spec fn view(&self) -> LoadFault {
        match *self {
            TlsLoadError::ReadFile { path, source } => LoadFault::ReadFile(path@, source@),
            TlsLoadError::EmptyPem { path } => LoadFault::EmptyPem(path@),
            TlsLoadError::Rustls(source) => LoadFault::Rustls(source@),
            TlsLoadError::MismatchedClientCert => LoadFault::MismatchedClientCert,
        }
    }
}

impl TlsLoadError {
    /// The error as one line of text.
    pub fn message(&self) -> (r: String)
        ensures
            r@ == match self@ {
                LoadFault::ReadFile(path, _) => "read tls file `"@ + path + "`"@,
                LoadFault::EmptyPem(path) => "file `"@ + path
                    + "` did not yield any PEM items of the expected kind"@,
                LoadFault::Rustls(_) => "rustls rejected client cert + key for upstream mTLS"@,
                LoadFault::MismatchedClientCert =>
                    "upstream tls.client_cert and tls.client_key must both be set or both unset"@,
            },
    {
        match self {
            TlsLoadError::ReadFile { path, .. } => text::around("read tls file `", path, "`"),
            TlsLoadError::EmptyPem { path } => text::around(
                "file `",
                path,
                "` did not yield any PEM items of the expected kind",
            ),
            TlsLoadError::Rustls(_) => {
                "rustls rejected client cert + key for upstream mTLS".to_owned()
            },
            TlsLoadError::MismatchedClientCert => {
                "upstream tls.client_cert and tls.client_key must both be set or both unset".to_owned()
            },
        }
    }
}

/// Why a section of a CA bundle cannot be used.
#[derive(Debug)]
pub enum RootFault {
    /// It could not be decoded.
    Undecoded(String),
    /// It is no certificate that can be trusted.
    Rejected(String),
}

/// One section of a CA bundle: a certificate to trust, or why there is none.
pub type RootSection = Result<Vec<u8>, RootFault>;

/// Why `RootCertStore::add` refuses the certificate `der`; `None` where it
/// takes it.
pub uninterp spec fn root_rejection(der: Seq<u8>) -> Option<Seq<char>>;

/// `RootCertStore::add` of `rustls`, on an empty store: the text of its error,
/// or `None`. It depends on the certificate alone; it is named, not described.
#[verifier::external_body]
fn root_fault(der: &Vec<u8>) -> (r: Option<String>)
    ensures
        match r {
            Some(e) => root_rejection(der@) == Some(e@),
            None => root_rejection(der@) == None::<Seq<char>>,
        },
{
    let mut store = rustls::RootCertStore::empty();
    match store.add(CertificateDer::from(der.as_slice())) {
        Ok(()) => None,
        Err(e) => Some(e.to_string()),
    }
}

/// `CertifiedKey::from_der` of `rustls` with the `ring` provider: the text of
/// its error, or `None`. Making an ECDSA key draws random bytes, which can
/// fail, so nothing is claimed of the answer.
#[verifier::external_body]
pub(crate) fn client_auth_fault(chain: &Vec<Vec<u8>>, key: &KeyDer) -> (r: Option<String>) {
    let certs = chain.iter().map(|c| CertificateDer::from(c.clone())).collect();
    let key = match key.kind {
        KeyKind::Pkcs1 => PrivateKeyDer::Pkcs1(key.der.clone().into()),
        KeyKind::Sec1 => PrivateKeyDer::Sec1(key.der.clone().into()),
        KeyKind::Pkcs8 => PrivateKeyDer::Pkcs8(key.der.clone().into()),
    };
    let provider = rustls::crypto::ring::default_provider();
    match rustls::sign::CertifiedKey::from_der(certs, key, &provider) {
        Ok(_) => None,
        Err(e) => Some(e.to_string()),
    }
}

/// What the section `s` of a CA bundle amounts to.
pub open spec fn vetted(s: Section, r: RootSection) -> bool {
    match s {
        Err(e) => r == Err::<Vec<u8>, RootFault>(RootFault::Undecoded(e)),
        Ok(der) => match root_rejection(der@) {
            Some(e) => r matches Err(RootFault::Rejected(t)) && t@ == e,
            None => r matches Ok(d) && d@ == der@,
        },
    }
}

/// Asks of each section of a CA bundle whether it can be trusted.
pub fn vet_roots(v: &Vec<Section>) -> (r: Vec<RootSection>)
    ensures
        r@.len() == v@.len(),
        forall|i: int| 0 <= i < v@.len() ==> vetted(#[trigger] v@[i], r@[i]),
{
    let mut r: Vec<RootSection> = Vec::new();
    for i in 0..v.len()
        invariant
            r@.len() == i,
            forall|j: int| 0 <= j < i ==> vetted(#[trigger] v@[j], r@[j]),
    {
        match &v[i] {
            Err(e) => {
                r.push(Err(RootFault::Undecoded(e.clone())));
            },
            Ok(der) => {
                match root_fault(der) {
                    Some(e) => {
                        r.push(Err(RootFault::Rejected(e)));
                    },
                    None => {
                        r.push(Ok(pem::copy_bytes(der)));
                    },
                }
            },
        }
    }
    r
}

/// The files of an upstream's TLS settings, decoded. Each stands with its path.
#[derive(Debug)]
pub struct DecodedTls {
    /// The CA bundle.
    pub ca: Option<(String, Result<Vec<RootSection>, String>)>,
    /// The client certificate chain.
    pub client_cert: Option<(String, Result<Vec<Section>, String>)>,
    /// The client key.
    pub client_key: Option<(String, Result<KeyDer, KeyFault>)>,
    /// Whether the peer's certificate is checked.
    pub verify: bool,
}

/// What an upstream connection needs for TLS.
#[derive(Debug)]
pub struct ClientTls {
    /// The certificates to trust; `None` for the bundled roots.
    pub roots: Option<Vec<Vec<u8>>>,
    /// The client certificate chain and its key.
    pub client_auth: Option<(Vec<Vec<u8>>, KeyDer)>,
    /// Whether the peer's certificate is checked.
    pub verify: bool,
}

/// [`ClientTls`] by the values that it holds.
#[verifier::ext_equal]
pub struct ClientMaterial {
    /// The certificates to trust; `None` for the bundled roots.
    pub roots: Option<Seq<Seq<u8>>>,
    /// The client certificate chain and its key.
    pub client_auth: Option<(Seq<Seq<u8>>, (KeyKind, Seq<u8>))>,
    /// Whether the peer's certificate is checked.
    pub verify: bool,
}

impl View for ClientTls {
    type V = ClientMaterial;

    open spec fn view(&self) -> ClientMaterial {
        ClientMaterial {
            roots: match self.roots {
                Some(v) => Some(pem::chain_view(v@)),
                None => None,
            },
            client_auth: match self.client_auth {
                Some((chain, key)) => Some((pem::chain_view(chain@), key@)),
                None => None,
            },
            verify: self.verify,
        }
    }
}

/// The fault of the first section from `i` on that cannot be used.
pub open spec fn first_root_fault(v: Seq<RootSection>, i: int) -> Option<RootFault>
    decreases v.len() - i,
{
    if i < 0 || i >= v.len() {
        None
    } else {
        match v[i] {
            Err(e) => Some(e),
            Ok(_) => first_root_fault(v, i + 1),
        }
    }
}

/// The roots that a CA bundle makes.
pub open spec fn roots_result(
    ca: Option<(String, Result<Vec<RootSection>, String>)>,
) -> Result<Option<Seq<Seq<u8>>>, LoadFault> {
    match ca {
        None => Ok(None),
        Some((path, Err(e))) => Err(LoadFault::ReadFile(path@, e@)),
        Some((path, Ok(v))) => match first_root_fault(v@, 0) {
            Some(RootFault::Undecoded(e)) => Err(LoadFault::ReadFile(path@, e@)),
            Some(RootFault::Rejected(e)) => Err(LoadFault::Rustls(e@)),
            None => if v@.len() == 0 {
                Err(LoadFault::EmptyPem(path@))
            } else {
                Ok(Some(v@.map_values(|s: RootSection| s->Ok_0@)))
            },
        },
    }
}

/// The client certificate and key that two files make.
pub open spec fn auth_result(
    cert: Option<(String, Result<Vec<Section>, String>)>,
    key: Option<(String, Result<KeyDer, KeyFault>)>,
) -> Result<Option<(Seq<Seq<u8>>, (KeyKind, Seq<u8>))>, LoadFault> {
    match (cert, key) {
        (None, None) => Ok(None),
        (Some((cert_path, certs)), Some((key_path, key))) => match pem::chain_result(certs) {
            Err(ChainFault::Failed(e)) => Err(LoadFault::ReadFile(cert_path@, e@)),
            Err(ChainFault::Empty) => Err(LoadFault::EmptyPem(cert_path@)),
            Ok(chain) => match key {
                Err(KeyFault::NoItemsFound) => Err(
                    LoadFault::ReadFile(key_path@, "no items found"@),
                ),
                Err(KeyFault::Failed(e)) => Err(LoadFault::ReadFile(key_path@, e@)),
                Ok(k) => Ok(Some((chain, k@))),
            },
        },
        _ => Err(LoadFault::MismatchedClientCert),
    }
}

/// What the decoded files amount to.
pub open spec fn material_result(d: DecodedTls) -> Result<ClientMaterial, LoadFault> {
    match roots_result(d.ca) {
        Err(e) => Err(e),
        Ok(roots) => match auth_result(d.client_cert, d.client_key) {
            Err(e) => Err(e),
            Ok(client_auth) => Ok(ClientMaterial { roots, client_auth, verify: d.verify }),
        },
    }
}

fn roots_of(ca: &Option<(String, Result<Vec<RootSection>, String>)>) -> (r: Result<
    Option<Vec<Vec<u8>>>,
    TlsLoadError,
>)
    ensures
        match r {
            Ok(None) => roots_result(*ca) == Ok::<Option<Seq<Seq<u8>>>, LoadFault>(None),
            Ok(Some(v)) => roots_result(*ca) == Ok::<_, LoadFault>(Some(pem::chain_view(v@))),
            Err(e) => roots_result(*ca) == Err::<Option<Seq<Seq<u8>>>, _>(e@),
        },
{
    let (path, v) = match ca {
        None => return Ok(None),
        Some((path, Err(e))) => return Err(
            TlsLoadError::ReadFile { path: path.clone(), source: e.clone() },
        ),
        Some((path, Ok(v))) => (path, v),
    };
    let mut roots: Vec<Vec<u8>> = Vec::new();
    let ghost all = v@.map_values(|s: RootSection| s->Ok_0@);
    let mut i: usize = 0;
    while i < v.len()
        invariant
            i <= v@.len(),
            roots@.len() == i,
            *ca == Some((*path, Ok::<_, String>(*v))),
            all == v@.map_values(|s: RootSection| s->Ok_0@),
            first_root_fault(v@, 0) == first_root_fault(v@, i as int),
            forall|j: int| 0 <= j < i ==> (#[trigger] roots@[j])@ == all[j],
        decreases v@.len() - i,
    {
        match &v[i] {
            Ok(der) => {
                roots.push(pem::copy_bytes(der));
            },
            Err(RootFault::Undecoded(e)) => {
                return Err(TlsLoadError::ReadFile { path: path.clone(), source: e.clone() });
            },
            Err(RootFault::Rejected(e)) => {
                return Err(TlsLoadError::Rustls(e.clone()));
            },
        }
        i += 1;
    }
    if roots.len() == 0 {
        return Err(TlsLoadError::EmptyPem { path: path.clone() });
    }
    assert(pem::chain_view(roots@) =~= all);
    Ok(Some(roots))
}

fn auth_of(
    cert: &Option<(String, Result<Vec<Section>, String>)>,
    key: &Option<(String, Result<KeyDer, KeyFault>)>,
) -> (r: Result<Option<(Vec<Vec<u8>>, KeyDer)>, TlsLoadError>)
    ensures
        match r {
            Ok(None) => auth_result(*cert, *key) == Ok::<
                Option<(Seq<Seq<u8>>, (KeyKind, Seq<u8>))>,
                LoadFault,
            >(None),
            Ok(Some((c, k))) => auth_result(*cert, *key) == Ok::<_, LoadFault>(
                Some((pem::chain_view(c@), k@)),
            ),
            Err(e) => auth_result(*cert, *key) == Err::<
                Option<(Seq<Seq<u8>>, (KeyKind, Seq<u8>))>,
                _,
            >(e@),
        },
{
    match (cert, key) {
        (None, None) => Ok(None),
        (Some((cert_path, certs)), Some((key_path, key))) => {
            let chain = match pem::chain_of(certs) {
                Ok(c) => c,
                Err(ChainFault::Failed(e)) => return Err(
                    TlsLoadError::ReadFile { path: cert_path.clone(), source: e },
                ),
                Err(ChainFault::Empty) => return Err(
                    TlsLoadError::EmptyPem { path: cert_path.clone() },
                ),
            };
            match key {
                Ok(k) => Ok(Some((chain, k.copy()))),
                Err(KeyFault::NoItemsFound) => Err(
                    TlsLoadError::ReadFile {
                        path: key_path.clone(),
                        source: "no items found".to_owned(),
                    },
                ),
                Err(KeyFault::Failed(e)) => Err(
                    TlsLoadError::ReadFile { path: key_path.clone(), source: e.clone() },
                ),
            }
        },
        _ => Err(TlsLoadError::MismatchedClientCert),
    }
}

/// What the decoded files amount to: first the roots, then the client
/// certificate with its key. The first fault on that way is the answer.
pub fn client_material(d: &DecodedTls) -> (r: Result<ClientTls, TlsLoadError>)
    ensures
        match r {
            Ok(m) => material_result(*d) == Ok::<_, LoadFault>(m@),
            Err(e) => material_result(*d) == Err::<ClientMaterial, _>(e@),
        },
{
    let roots = match roots_of(&d.ca) {
        Ok(r) => r,
        Err(e) => return Err(e),
    };
    let client_auth = match auth_of(&d.client_cert, &d.client_key) {
        Ok(a) => a,
        Err(e) => return Err(e),
    };
    Ok(ClientTls { roots, client_auth, verify: d.verify })
}

/// Whether `v` is what the CA bundle `pem` decodes to.
pub open spec fn vets(pem: Seq<u8>, v: Seq<RootSection>) -> bool {
    exists|s: Vec<Section>|
        #![trigger pem::section_views(s@)]
        pem::section_views(s@) == pem::pem_certificates(pem) && v.len() == s@.len() && forall|
            i: int,
        |
            0 <= i < s@.len() ==> vetted(#[trigger] s@[i], v[i])
}

/// Whether `d` is what the files `f` decode to.
pub open spec fn decodes(f: UpstreamTlsFiles, d: DecodedTls) -> bool {
    &&& d.verify == f.verify
    &&& match (f.ca, d.ca) {
        (None, None) => true,
        (Some(file), Some((path, sections))) => path@ == file.path@ && match file.contents {
            Err(e) => sections matches Err(t) && t@ == e@,
            Ok(bytes) => sections matches Ok(v) && vets(bytes@, v@),
        },
        _ => false,
    }
    &&& match (f.client_cert, d.client_cert) {
        (None, None) => true,
        (Some(file), Some((path, sections))) => path@ == file.path@ && match file.contents {
            Err(e) => sections matches Err(t) && t@ == e@,
            Ok(bytes) => sections matches Ok(v) && pem::section_views(v@)
                == pem::pem_certificates(bytes@),
        },
        _ => false,
    }
    &&& match (f.client_key, d.client_key) {
        (None, None) => true,
        (Some(file), Some((path, key))) => path@ == file.path@ && match file.contents {
            Err(e) => key matches Err(KeyFault::Failed(t)) && t@ == e@,
            Ok(bytes) => pem::key_view(key) == pem::pem_private_key(bytes@),
        },
        _ => false,
    }
}

/// Decodes the files of an upstream's TLS settings.
pub fn decode(f: &UpstreamTlsFiles) -> (d: DecodedTls)
    ensures
        decodes(*f, d),
{
    let ca = match &f.ca {
        None => None,
        Some(file) => {
            let sections = pem::decode_certs(&file.contents);
            let vetted_sections = match &sections {
                Ok(v) => Ok(vet_roots(v)),
                Err(e) => Err(e.clone()),
            };
            Some((file.path.clone(), vetted_sections))
        },
    };
    let client_cert = match &f.client_cert {
        None => None,
        Some(file) => Some((file.path.clone(), pem::decode_certs(&file.contents))),
    };
    let client_key = match &f.client_key {
        None => None,
        Some(file) => Some((file.path.clone(), pem::decode_key(&file.contents))),
    };
    DecodedTls { ca, client_cert, client_key, verify: f.verify }
}

/// What `material` amounts to once the client certificate was held against its
/// key and `fault` came of it.
pub fn settle(material: ClientTls, fault: Option<String>) -> (r: Result<ClientTls, TlsLoadError>)
    ensures
        r == match fault {
            Some(e) => Err(TlsLoadError::Rustls(e)),
            None => Ok(material),
        },
{
    match fault {
        Some(e) => Err(TlsLoadError::Rustls(e)),
        None => Ok(material),
    }
}

/// Whether `r` is what came of the files `f`: their first fault; or what a
/// connection needs, unless it was answered that the client certificate does not
/// go with its key.
pub open spec fn builds(f: UpstreamTlsFiles, r: Result<ClientMaterial, LoadFault>) -> bool {
    exists|d: DecodedTls| #[trigger]
        decodes(f, d) && match material_result(d) {
            Err(e) => r == Err::<ClientMaterial, LoadFault>(e),
            Ok(m) => match m.client_auth {
                None => r == Ok::<ClientMaterial, LoadFault>(m),
                Some((chain, key)) => match r {
                    Ok(c) => c == m && auth::answered(chain, key, None),
                    Err(LoadFault::Rustls(e)) => auth::answered(chain, key, Some(e)),
                    Err(_) => false,
                },
            },
        }
}

/// The result of building [`ClientTls`] by the values that it holds.
pub open spec fn built(r: Result<ClientTls, TlsLoadError>) -> Result<ClientMaterial, LoadFault> {
    match r {
        Ok(c) => Ok(c@),
        Err(e) => Err(e@),
    }
}

/// What an upstream connection needs for TLS, from the files that its settings
/// name. A fault of the files comes back as it is. Without one, only a client
/// certificate that does not go with its key is refused.
pub fn build_client_config(f: &UpstreamTlsFiles) -> (r: Result<ClientTls, TlsLoadError>)
    ensures
        exists|d: DecodedTls| #[trigger]
            decodes(*f, d) && match material_result(d) {
                Err(e) => r matches Err(t) && t@ == e,
                Ok(m) => match r {
                    Ok(c) => c@ == m,
                    Err(e) => e is Rustls && m.client_auth is Some,
                },
            },
        builds(*f, built(r)),
{
    let d = decode(f);
    let m = match client_material(&d) {
        Ok(m) => m,
        Err(e) => return Err(e),
    };
    let fault = match &m.client_auth {
        Some((chain, key)) => auth::vet(chain, key),
        None => None,
    };
    settle(m, fault)
}

/// An upstream that trusts the bundled roots and shows no client certificate
/// always gets its TLS.
pub proof fn plain_settings_never_fail(d: DecodedTls)
    requires
        d.ca is None,
        d.client_cert is None,
        d.client_key is None,
    ensures
        material_result(d) == Ok::<_, LoadFault>(
            (ClientMaterial { roots: None, client_auth: None, verify: d.verify }),
        ),
{
}

/// A client certificate without a key, or a key without a certificate, is
/// always refused, unless the roots are at fault already.
pub proof fn half_client_auth_is_refused(d: DecodedTls)
    requires
        d.client_cert is Some != d.client_key is Some,
    ensures
        material_result(d) is Err,
        roots_result(d.ca) is Ok ==> material_result(d) == Err::<ClientMaterial, _>(
            LoadFault::MismatchedClientCert,
        ),
{
}

proof fn lemma_root_fault(v: Seq<RootSection>, i: int)
    requires
        0 <= i <= v.len(),
    ensures
        first_root_fault(v, i) is None <==> (forall|j: int|
            i <= j < v.len() ==> (#[trigger] v[j]) is Ok),
        first_root_fault(v, i) matches Some(e) ==> exists|j: int|
            i <= j < v.len() && #[trigger] v[j] == Err::<Vec<u8>, RootFault>(e) && forall|k: int|
                i <= k < j ==> (#[trigger] v[k]) is Ok,
    decreases v.len() - i,
{
    if i < v.len() {
        lemma_root_fault(v, i + 1);
        if let Err(e) = v[i] {
            assert(v[i] == Err::<Vec<u8>, RootFault>(e));
        } else if let Some(e) = first_root_fault(v, i + 1) {
            let j = choose|j: int|
                i + 1 <= j < v.len() && #[trigger] v[j] == Err::<Vec<u8>, RootFault>(e) && forall|
                    k: int,
                |
                    i + 1 <= k < j ==> (#[trigger] v[k]) is Ok;
            assert(v[j] == Err::<Vec<u8>, RootFault>(e));
        }
    }
}

/// Where files make TLS for an upstream, its roots are all sections of the CA bundle,
/// in their order; its client certificate is all sections of that file, with the key
/// of the key file; and the peer is checked as the settings say.
pub proof fn material_is_what_the_files_hold(d: DecodedTls)
    ensures
        material_result(d) matches Ok(m) ==> {
            &&& m.verify == d.verify
            &&& m.roots is Some == d.ca is Some
            &&& d.ca matches Some((_, ca)) ==> {
                &&& ca matches Ok(v)
                &&& m.roots->0.len() == v@.len() > 0
                &&& forall|i: int|
                    0 <= i < v@.len() ==> (#[trigger] v@[i]) is Ok && (m.roots->0)[i]
                        == v@[i]->Ok_0@
            }
            &&& m.client_auth is Some == d.client_cert is Some
            &&& m.client_auth is Some == d.client_key is Some
            &&& (d.client_cert, m.client_auth) matches (Some((_, certs)), Some((chain, _))) ==> {
                &&& certs matches Ok(v)
                &&& chain.len() == v@.len() > 0
                &&& forall|i: int|
                    0 <= i < v@.len() ==> (#[trigger] v@[i]) is Ok && chain[i] == v@[i]->Ok_0@
            }
            &&& (d.client_key, m.client_auth) matches (Some((_, key)), Some((_, k))) ==> (
            key matches Ok(der) && k == der@)
        },
{
    if let Some((path, Ok(v))) = d.ca {
        lemma_root_fault(v@, 0);
    }
    if let Some((path, certs)) = d.client_cert {
        pem::chain_is_every_section(certs);
    }
}

/// A CA bundle that could not be read or holds no certificate, or of which a section
/// cannot be used, is always refused, with its path where it is the file that is at
/// fault.
pub proof fn faulty_roots_are_refused(
    d: DecodedTls,
    path: String,
    ca: Result<Vec<RootSection>, String>,
)
    requires
        d.ca == Some((path, ca)),
    ensures
        ca matches Err(e) ==> material_result(d) == Err::<ClientMaterial, _>(
            LoadFault::ReadFile(path@, e@),
        ),
        ca matches Ok(v) ==> {
            &&& v@.len() == 0 ==> material_result(d) == Err::<ClientMaterial, _>(
                LoadFault::EmptyPem(path@),
            )
            &&& forall|i: int|
                0 <= i < v@.len() && (forall|k: int| 0 <= k < i ==> v@[k] is Ok)
                    ==> match #[trigger] v@[i] {
                    Err(RootFault::Undecoded(e)) => material_result(d) == Err::<ClientMaterial, _>(
                        LoadFault::ReadFile(path@, e@),
                    ),
                    Err(RootFault::Rejected(e)) => material_result(d) == Err::<ClientMaterial, _>(
                        LoadFault::Rustls(e@),
                    ),
                    Ok(_) => true,
                }
        },
{
    if let Some((path, Ok(v))) = d.ca {
        lemma_root_fault(v@, 0);
        if v@.len() == 0 {
            assert(first_root_fault(v@, 0) is None);
        }
    }
}

} // verus!
