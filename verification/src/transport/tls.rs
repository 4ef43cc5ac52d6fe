//! Certificates for TLS termination: loading them, and picking one by the name
//! that a client asks for.
//!
//! A name is looked up in two passes, both without regard to case: first among
//! the full names, then among the wildcards, where `*.example.com` stands for
//! one label below `example.com`. Where neither pass finds anything, and where
//! the client names nothing, the first certificate is the answer.
use vstd::prelude::*;
use vstd::string::*;

use crate::config::schema::{CertSpec, TlsConfig, TlsMinVersion};
use crate::pem;
use crate::pem::{ChainFault, KeyDer, KeyFault, KeyKind, Section};
use crate::text;
use crate::transport::sign;
use rustls_pki_types::PrivateKeyDer;

verus! {

/// Why TLS cannot be served.
#[derive(Debug)]
#[non_exhaustive]
pub enum TlsError {
    /// A file could not be read or decoded.
    ReadFile {
        /// Path attempted.
        path: String,
        /// What went wrong.
        source: String,
    },
    /// A file holds nothing of use.
    InvalidPem {
        /// Path that came up empty.
        path: String,
    },
    /// A certificate file holds no certificate.
    NoCert {
        /// Path that came up empty.
        path: String,
    },
    /// A key file holds no key.
    NoKey {
        /// Path that came up empty.
        path: String,
    },
    /// A key was refused.
    Rustls {
        /// SNI of the entry.
        sni: String,
        /// Why it was refused.
        source: String,
    },
    /// A handshake failed.
    Handshake(String),
    /// There are no certificates.
    NoCerts,
}

/// [`TlsError`] by the values that it holds.
pub enum TlsFault {
    /// See [`TlsError::ReadFile`].
    ReadFile(Seq<char>, Seq<char>),
    /// See [`TlsError::InvalidPem`].
    InvalidPem(Seq<char>),
    /// See [`TlsError::NoCert`].
    NoCert(Seq<char>),
    /// See [`TlsError::NoKey`].
    NoKey(Seq<char>),
    /// See [`TlsError::Rustls`].
    Rustls(Seq<char>, Seq<char>),
    /// See [`TlsError::Handshake`].
    Handshake(Seq<char>),
    /// See [`TlsError::NoCerts`].
    NoCerts,
}

impl View for TlsError {
    type V = TlsFault;

    open spec fn view(&self) -> TlsFault {
        match *self {
            TlsError::ReadFile { path, source } => TlsFault::ReadFile(path@, source@),
            TlsError::InvalidPem { path } => TlsFault::InvalidPem(path@),
            TlsError::NoCert { path } => TlsFault::NoCert(path@),
            TlsError::NoKey { path } => TlsFault::NoKey(path@),
            TlsError::Rustls { sni, source } => TlsFault::Rustls(sni@, source@),
            TlsError::Handshake(source) => TlsFault::Handshake(source@),
            TlsError::NoCerts => TlsFault::NoCerts,
        }
    }
}

impl TlsError {
    /// The error as one line of text.
    pub fn message(&self) -> (r: String)
        ensures
            r@ == match self@ {
                TlsFault::ReadFile(path, _) => "read tls file `"@ + path + "`"@,
                TlsFault::InvalidPem(path) => "file `"@ + path
                    + "` is not a valid PEM cert or key"@,
                TlsFault::NoCert(path) => "cert file `"@ + path
                    + "` contained no CERTIFICATE blocks"@,
                TlsFault::NoKey(path) => "key file `"@ + path
                    + "` contained no PKCS8 / RSA / EC PRIVATE KEY"@,
                TlsFault::Rustls(sni, _) => "rustls rejected cert/key for sni `"@ + sni + "`"@,
                TlsFault::Handshake(_) => "tls handshake failed"@,
                TlsFault::NoCerts => "[tls] section is empty or missing"@,
            },
    {
        match self {
            TlsError::ReadFile { path, .. } => text::around("read tls file `", path, "`"),
            TlsError::InvalidPem { path } => text::around(
                "file `",
                path,
                "` is not a valid PEM cert or key",
            ),
            TlsError::NoCert { path } => text::around(
                "cert file `",
                path,
                "` contained no CERTIFICATE blocks",
            ),
            TlsError::NoKey { path } => text::around(
                "key file `",
                path,
                "` contained no PKCS8 / RSA / EC PRIVATE KEY",
            ),
            TlsError::Rustls { sni, .. } => text::around(
                "rustls rejected cert/key for sni `",
                sni,
                "`",
            ),
            TlsError::Handshake(_) => "tls handshake failed".to_owned(),
            TlsError::NoCerts => "[tls] section is empty or missing".to_owned(),
        }
    }
}

/// A certificate chain with its key.
#[derive(Debug)]
pub struct CertifiedKey {
    /// The chain in DER, the end-entity certificate first.
    pub chain: Vec<Vec<u8>>,
    /// The key of the first certificate.
    pub key: KeyDer,
}

impl View for CertifiedKey {
    type V = (Seq<Seq<u8>>, (KeyKind, Seq<u8>));

    open spec fn view(&self) -> (Seq<Seq<u8>>, (KeyKind, Seq<u8>)) {
        (pem::chain_view(self.chain@), self.key@)
    }
}

/// The two files of a certificate entry, as they were read.
#[derive(Debug)]
pub struct PairFiles {
    /// The certificate file.
    pub cert: Result<Vec<u8>, String>,
    /// The key file.
    pub key: Result<Vec<u8>, String>,
}

/// The two files of a certificate entry, decoded.
#[derive(Debug)]
pub struct DecodedPair {
    /// The sections of the certificate file.
    pub certs: Result<Vec<Section>, String>,
    /// The key of the key file.
    pub key: Result<KeyDer, KeyFault>,
    /// Why the key cannot sign, if so.
    pub signing_fault: Option<String>,
}

/// `any_supported_type` of `rustls::crypto::ring::sign`: the text of its error,
/// or `None`. The error is always the same. Whether it comes is not claimed:
/// making an ECDSA key draws random bytes, which can fail.
#[verifier::external_body]
pub(crate) fn signing_fault(key: &KeyDer) -> (r: Option<String>)
    ensures
        r matches Some(e) ==> e@
            == "unexpected error: failed to parse private key as RSA, ECDSA, or EdDSA"@,
{
    let key = match key.kind {
        KeyKind::Pkcs1 => PrivateKeyDer::Pkcs1(key.der.as_slice().into()),
        KeyKind::Sec1 => PrivateKeyDer::Sec1(key.der.as_slice().into()),
        KeyKind::Pkcs8 => PrivateKeyDer::Pkcs8(key.der.as_slice().into()),
    };
    match rustls::crypto::ring::sign::any_supported_type(&key) {
        Ok(_) => None,
        Err(e) => Some(e.to_string()),
    }
}

/// The chain that a decoded certificate file makes, or the fault.
pub open spec fn certs_result(path: Seq<char>, certs: Result<Vec<Section>, String>) -> Result<
    Seq<Seq<u8>>,
    TlsFault,
> {
    match pem::chain_result(certs) {
        Ok(chain) => Ok(chain),
        Err(ChainFault::Failed(e)) => Err(TlsFault::ReadFile(path, e@)),
        Err(ChainFault::Empty) => Err(TlsFault::NoCert(path)),
    }
}

/// The key that a decoded key file makes, or the fault.
pub open spec fn key_result(path: Seq<char>, key: Result<KeyDer, KeyFault>) -> Result<
    (KeyKind, Seq<u8>),
    TlsFault,
> {
    match key {
        Ok(k) => Ok(k@),
        Err(KeyFault::NoItemsFound) => Err(TlsFault::NoKey(path)),
        Err(KeyFault::Failed(e)) => Err(TlsFault::ReadFile(path, e@)),
    }
}

/// The chain of the certificate file at `path`, whose sections are `certs`.
pub fn certs_from(path: &str, certs: &Result<Vec<Section>, String>) -> (r: Result<
    Vec<Vec<u8>>,
    TlsError,
>)
    ensures
        match r {
            Ok(c) => certs_result(path@, *certs) == Ok::<_, TlsFault>(pem::chain_view(c@)),
            Err(e) => certs_result(path@, *certs) == Err::<Seq<Seq<u8>>, _>(e@),
        },
{
    match pem::chain_of(certs) {
        Ok(c) => Ok(c),
        Err(ChainFault::Failed(e)) => Err(
            TlsError::ReadFile { path: path.to_owned(), source: e },
        ),
        Err(ChainFault::Empty) => Err(TlsError::NoCert { path: path.to_owned() }),
    }
}

/// The key of the key file at `path`, which holds `key`.
pub fn key_from(path: &str, key: &Result<KeyDer, KeyFault>) -> (r: Result<KeyDer, TlsError>)
    ensures
        match r {
            Ok(k) => key_result(path@, *key) == Ok::<_, TlsFault>(k@),
            Err(e) => key_result(path@, *key) == Err::<(KeyKind, Seq<u8>), _>(e@),
        },
{
    match key {
        Ok(k) => Ok(k.copy()),
        Err(KeyFault::NoItemsFound) => Err(TlsError::NoKey { path: path.to_owned() }),
        Err(KeyFault::Failed(e)) => Err(
            TlsError::ReadFile { path: path.to_owned(), source: e.clone() },
        ),
    }
}

/// The chain of the certificate file at `path`, as it was read.
pub fn load_certs(path: &str, file: &Result<Vec<u8>, String>) -> (r: Result<
    Vec<Vec<u8>>,
    TlsError,
>)
    ensures
        match *file {
            Err(e) => r matches Err(t) && t@ == TlsFault::ReadFile(path@, e@),
            Ok(bytes) => exists|v: Vec<Section>|
                #![trigger pem::section_views(v@)]
                pem::section_views(v@) == pem::pem_certificates(bytes@) && match r {
                    Ok(c) => certs_result(path@, Ok(v)) == Ok::<_, TlsFault>(
                        pem::chain_view(c@),
                    ),
                    Err(e) => certs_result(path@, Ok(v)) == Err::<Seq<Seq<u8>>, _>(e@),
                },
        },
{
    let certs = pem::decode_certs(file);
    let r = certs_from(path, &certs);
    proof {
        if let Ok(v) = certs {
            assert(pem::section_views(v@) == pem::pem_certificates(file->Ok_0@));
        }
    }
    r
}

/// The key of the key file at `path`, as it was read.
pub fn load_key(path: &str, file: &Result<Vec<u8>, String>) -> (r: Result<KeyDer, TlsError>)
    ensures
        match *file {
            Err(e) => r matches Err(t) && t@ == TlsFault::ReadFile(path@, e@),
            Ok(bytes) => match pem::pem_private_key(bytes@) {
                Ok(k) => r matches Ok(t) && t@ == k,
                Err(None) => r matches Err(t) && t@ == TlsFault::NoKey(path@),
                Err(Some(e)) => r matches Err(t) && t@ == TlsFault::ReadFile(path@, e),
            },
        },
{
    let key = pem::decode_key(file);
    key_from(path, &key)
}

/// Whether `d` is what the files `f` decode to.
pub open spec fn decodes(f: PairFiles, d: DecodedPair) -> bool {
    &&& match f.cert {
        Err(e) => d.certs matches Err(t) && t@ == e@,
        Ok(bytes) => d.certs matches Ok(v) && pem::section_views(v@) == pem::pem_certificates(
            bytes@,
        ),
    }
    &&& match f.key {
        Err(e) => d.key matches Err(KeyFault::Failed(t)) && t@ == e@,
        Ok(bytes) => pem::key_view(d.key) == pem::pem_private_key(bytes@),
    }
    &&& match d.key {
        Ok(k) => sign::answered(
            k@,
            match d.signing_fault {
                Some(e) => Some(e@),
                None => None,
            },
        ),
        Err(_) => d.signing_fault is None,
    }
    &&& d.signing_fault matches Some(e) ==> d.key is Ok && e@
        == "unexpected error: failed to parse private key as RSA, ECDSA, or EdDSA"@
}

/// Decodes the files of a certificate entry.
pub fn decode_pair(f: &PairFiles) -> (d: DecodedPair)
    ensures
        decodes(*f, d),
{
    let certs = pem::decode_certs(&f.cert);
    let key = pem::decode_key(&f.key);
    let fault = match &key {
        Ok(k) => sign::vet(k),
        Err(_) => None,
    };
    DecodedPair { certs, key, signing_fault: fault }
}

/// What a certificate entry comes to: the chain is looked at first, then the
/// key, then whether the key can sign.
pub open spec fn pair_result(spec: CertSpec, d: DecodedPair) -> Result<
    (Seq<Seq<u8>>, (KeyKind, Seq<u8>)),
    TlsFault,
> {
    match certs_result(spec.cert@, d.certs) {
        Err(e) => Err(e),
        Ok(chain) => match key_result(spec.key@, d.key) {
            Err(e) => Err(e),
            Ok(key) => match d.signing_fault {
                Some(e) => Err(TlsFault::Rustls(spec.sni@, e@)),
                None => Ok((chain, key)),
            },
        },
    }
}

/// What a certificate entry comes to.
pub fn certified(spec: &CertSpec, d: &DecodedPair) -> (r: Result<CertifiedKey, TlsError>)
    ensures
        match r {
            Ok(c) => pair_result(*spec, *d) == Ok::<_, TlsFault>(c@),
            Err(e) => pair_result(*spec, *d) == Err::<(Seq<Seq<u8>>, (KeyKind, Seq<u8>)), _>(e@),
        },
{
    let chain = match certs_from(&spec.cert, &d.certs) {
        Ok(c) => c,
        Err(e) => return Err(e),
    };
    let key = match key_from(&spec.key, &d.key) {
        Ok(k) => k,
        Err(e) => return Err(e),
    };
    match &d.signing_fault {
        Some(e) => Err(TlsError::Rustls { sni: spec.sni.clone(), source: e.clone() }),
        None => Ok(CertifiedKey { chain, key }),
    }
}

/// The names that a certificate is for: one full name, or all one label below
/// `name`.
pub struct Pattern {
    /// Whether the pattern is a wildcard.
    pub wildcard: bool,
    /// The name in lower case, of a wildcard the part behind `*.`.
    pub name: Seq<char>,
}

/// The pattern that an SNI of the configuration stands for.
pub open spec fn pattern_of(sni: Seq<char>) -> Pattern {
    if text::begins_with(sni, "*."@) {
        Pattern { wildcard: true, name: text::lowered(sni.skip(2)) }
    } else {
        Pattern { wildcard: false, name: text::lowered(sni) }
    }
}

/// What follows the first dot of `s`.
pub open spec fn after_dot(s: Seq<char>) -> Option<Seq<char>>
    decreases s.len(),
{
    if s.len() == 0 {
        None
    } else if s[0] == '.' {
        Some(s.drop_first())
    } else {
        after_dot(s.drop_first())
    }
}

/// The last of the first `n` patterns that is the full name `name`.
pub open spec fn last_exact(p: Seq<Pattern>, name: Seq<char>, n: int) -> Option<int>
    decreases n,
{
    if n <= 0 {
        None
    } else if !p[n - 1].wildcard && p[n - 1].name == name {
        Some(n - 1)
    } else {
        last_exact(p, name, n - 1)
    }
}

/// The first pattern from `i` on that is the wildcard below `name`.
pub open spec fn first_wildcard(p: Seq<Pattern>, name: Seq<char>, i: int) -> Option<int>
    decreases p.len() - i,
{
    if i < 0 || i >= p.len() {
        None
    } else if p[i].wildcard && p[i].name == name {
        Some(i)
    } else {
        first_wildcard(p, name, i + 1)
    }
}

/// The position of the certificate for `sni`.
pub open spec fn chosen(p: Seq<Pattern>, sni: Seq<char>) -> int {
    let name = text::lowered(sni);
    match last_exact(p, name, p.len() as int) {
        Some(i) => i,
        None => match after_dot(name) {
            Some(suffix) => match first_wildcard(p, suffix, 0) {
                Some(i) => i,
                None => 0,
            },
            None => 0,
        },
    }
}

/// The position of the certificate for what a client asks for. A client that
/// names nothing, or the empty name, gets the first.
pub open spec fn resolved(p: Seq<Pattern>, sni: Option<&str>) -> int {
    match sni {
        Some(s) => if s@.len() == 0 {
            0
        } else {
            chosen(p, s@)
        },
        None => 0,
    }
}

#[derive(Debug)]
struct Entry {
    wildcard: bool,
    name: String,
    key: CertifiedKey,
}

/// The certificates of a TLS section, of which there is at least one, by the
/// names that they are for.
#[derive(Debug)]
pub struct MultiCertResolver {
    entries: Vec<Entry>,
}

/// The fault of the first entry from `i` on that is at fault.
pub open spec fn first_fault(specs: Seq<CertSpec>, d: Seq<DecodedPair>, i: int) -> Option<TlsFault>
    decreases specs.len() - i,
{
    if i < 0 || i >= specs.len() {
        None
    } else {
        match pair_result(specs[i], d[i]) {
            Err(e) => Some(e),
            Ok(_) => first_fault(specs, d, i + 1),
        }
    }
}

/// What is wrong with a list of certificate entries, if anything.
pub open spec fn table_fault(specs: Seq<CertSpec>, d: Seq<DecodedPair>) -> Option<TlsFault> {
    if specs.len() == 0 {
        Some(TlsFault::NoCerts)
    } else {
        first_fault(specs, d, 0)
    }
}

impl MultiCertResolver {
    #[verifier::type_invariant]
    spec fn inv(self) -> bool {
        self.entries@.len() > 0
    }

    /// The names that the certificates are for, in order.
    pub closed spec fn patterns(self) -> Seq<Pattern> {
        self.entries@.map_values(|e: Entry| Pattern { wildcard: e.wildcard, name: e.name@ })
    }

    /// The certificates, in order.
    pub closed spec fn keys(self) -> Seq<CertifiedKey> {
        self.entries@.map_values(|e: Entry| e.key)
    }

    /// Whether the certificates are those of `specs`, decoded as `d`.
    pub open spec fn holds(self, specs: Seq<CertSpec>, d: Seq<DecodedPair>) -> bool {
        &&& self.keys().len() == specs.len()
        &&& self.patterns() == Seq::new(specs.len(), |i: int| pattern_of(specs[i].sni@))
        &&& forall|i: int|
            0 <= i < specs.len() ==> pair_result(specs[i], d[i]) == Ok::<_, TlsFault>(
                (#[trigger] self.keys()[i])@,
            )
    }

    /// The certificates of `specs`, whose files decode to `pairs`. The first
    /// entry that is at fault decides.
    pub fn from_decoded(specs: &Vec<CertSpec>, pairs: &Vec<DecodedPair>) -> (r: Result<
        MultiCertResolver,
        TlsError,
    >)
        requires
            pairs@.len() == specs@.len(),
        ensures
            match r {
                Ok(t) => table_fault(specs@, pairs@) is None && t.holds(specs@, pairs@),
                Err(e) => table_fault(specs@, pairs@) == Some(e@),
            },
    {
        if specs.len() == 0 {
            return Err(TlsError::NoCerts);
        }
        let mut entries: Vec<Entry> = Vec::new();
        let mut i: usize = 0;
        while i < specs.len()
            invariant
                i <= specs@.len() == pairs@.len(),
                specs@.len() > 0,
                entries@.len() == i,
                first_fault(specs@, pairs@, 0) == first_fault(specs@, pairs@, i as int),
                forall|j: int|
                    #![trigger entries@[j]]
                    0 <= j < i ==> {
                        &&& (Pattern { wildcard: entries@[j].wildcard, name: entries@[j].name@ })
                            == pattern_of(specs@[j].sni@)
                        &&& pair_result(specs@[j], pairs@[j]) == Ok::<_, TlsFault>(
                            entries@[j].key@,
                        )
                    },
            decreases specs@.len() - i,
        {
            let key = match certified(&specs[i], &pairs[i]) {
                Ok(k) => k,
                Err(e) => return Err(e),
            };
            let sni = &specs[i].sni;
            if text::starts_with(sni, "*.") {
                proof {
                    reveal_strlit("*.");
                }
                let n: usize = sni.as_str().unicode_len();
                let suffix = sni.as_str().substring_char(2, n);
                assert(suffix@ =~= sni@.skip(2));
                entries.push(Entry { wildcard: true, name: text::to_lower(suffix), key });
            } else {
                entries.push(Entry { wildcard: false, name: text::to_lower(sni), key });
            }
            i += 1;
        }
        let t = MultiCertResolver { entries };
        proof {
            assert(t.patterns() =~= Seq::new(specs@.len(), |i: int| pattern_of(specs@[i].sni@)));
            assert forall|j: int| 0 <= j < specs@.len() implies pair_result(specs@[j], pairs@[j])
                == Ok::<_, TlsFault>((#[trigger] t.keys()[j])@) by {
                assert(t.keys()[j] == entries@[j].key);
            }
        }
        Ok(t)
    }

    /// The certificates of `specs`, whose files were read as `files`.
    pub fn from_config(specs: &Vec<CertSpec>, files: &Vec<PairFiles>) -> (r: Result<
        MultiCertResolver,
        TlsError,
    >)
        requires
            files@.len() == specs@.len(),
        ensures
            exists|d: Seq<DecodedPair>| #[trigger]
                decoded(files@, d) && match r {
                    Ok(t) => table_fault(specs@, d) is None && t.holds(specs@, d),
                    Err(e) => table_fault(specs@, d) == Some(e@),
                },
    {
        let pairs = decode_pairs(files);
        assert(decoded(files@, pairs@));
        MultiCertResolver::from_decoded(specs, &pairs)
    }

    /// Puts the certificates of `specs` in place of the present ones. Where an
    /// entry is at fault, the present ones stay.
    pub fn reload(&mut self, specs: &Vec<CertSpec>, files: &Vec<PairFiles>) -> (r: Result<
        (),
        TlsError,
    >)
        requires
            files@.len() == specs@.len(),
        ensures
            exists|d: Seq<DecodedPair>| #[trigger]
                decoded(files@, d) && match r {
                    Ok(()) => table_fault(specs@, d) is None && final(self).holds(specs@, d),
                    Err(e) => table_fault(specs@, d) == Some(e@),
                },
            r is Err ==> *final(self) == *old(self),
    {
        match MultiCertResolver::from_config(specs, files) {
            Ok(t) => {
                *self = t;
                Ok(())
            },
            Err(e) => Err(e),
        }
    }

    /// The position of the certificate for `sni`.
    pub fn lookup_index(&self, sni: &str) -> (i: usize)
        ensures
            i == chosen(self.patterns(), sni@),
            i < self.keys().len(),
    {
        proof {
            use_type_invariant(self);
        }
        let ghost p = self.patterns();
        let name = text::to_lower(sni);
        let mut n: usize = self.entries.len();
        while n > 0
            invariant
                n <= self.entries@.len(),
                p == self.patterns(),
                name@ == text::lowered(sni@),
                self.entries@.len() > 0,
                last_exact(p, name@, p.len() as int) == last_exact(p, name@, n as int),
            decreases n,
        {
            n -= 1;
            assert(p[n as int] == (Pattern {
                wildcard: self.entries@[n as int].wildcard,
                name: self.entries@[n as int].name@,
            }));
            if !self.entries[n].wildcard && self.entries[n].name == name {
                return n;
            }
        }
        if let Some(suffix) = behind_dot(&name) {
            let mut i: usize = 0;
            while i < self.entries.len()
                invariant
                    i <= self.entries@.len(),
                    p == self.patterns(),
                    name@ == text::lowered(sni@),
                    self.entries@.len() > 0,
                    last_exact(p, name@, p.len() as int) is None,
                    after_dot(name@) == Some(suffix@),
                    first_wildcard(p, suffix@, 0) == first_wildcard(p, suffix@, i as int),
                decreases self.entries@.len() - i,
            {
                assert(p[i as int] == (Pattern {
                    wildcard: self.entries@[i as int].wildcard,
                    name: self.entries@[i as int].name@,
                }));
                if self.entries[i].wildcard && self.entries[i].name == suffix {
                    return i;
                }
                i += 1;
            }
        }
        0
    }

    /// The certificate for `sni`.
    pub fn lookup(&self, sni: &str) -> (r: &CertifiedKey)
        ensures
            *r == self.keys()[chosen(self.patterns(), sni@)],
    {
        let i: usize = self.lookup_index(sni);
        &self.entries[i].key
    }

    /// The position of the certificate for what a client asks for.
    pub fn resolve_index(&self, sni: Option<&str>) -> (i: usize)
        ensures
            i == resolved(self.patterns(), sni),
            i < self.keys().len(),
    {
        proof {
            use_type_invariant(self);
        }
        match sni {
            Some(s) => if s.unicode_len() == 0 {
                0
            } else {
                self.lookup_index(s)
            },
            None => 0,
        }
    }

    /// The certificate for what a client asks for.
    pub fn resolve(&self, sni: Option<&str>) -> (r: &CertifiedKey)
        ensures
            *r == self.keys()[resolved(self.patterns(), sni)],
    {
        let i: usize = self.resolve_index(sni);
        &self.entries[i].key
    }

    /// How many certificates there are.
    pub fn len(&self) -> (n: usize)
        ensures
            n == self.keys().len(),
            n > 0,
    {
        proof {
            use_type_invariant(self);
        }
        self.entries.len()
    }

    /// The certificate at `i`.
    pub fn get(&self, i: usize) -> (r: &CertifiedKey)
        requires
            i < self.keys().len(),
        ensures
            *r == self.keys()[i as int],
    {
        &self.entries[i].key
    }
}

/// Whether `d` is what the files `files` decode to.
pub open spec fn decoded(files: Seq<PairFiles>, d: Seq<DecodedPair>) -> bool {
    &&& d.len() == files.len()
    &&& forall|i: int| 0 <= i < files.len() ==> decodes(#[trigger] files[i], d[i])
}

fn decode_pairs(files: &Vec<PairFiles>) -> (r: Vec<DecodedPair>)
    ensures
        decoded(files@, r@),
{
    let mut r: Vec<DecodedPair> = Vec::new();
    for i in 0..files.len()
        invariant
            r@.len() == i,
            forall|j: int| 0 <= j < i ==> decodes(#[trigger] files@[j], r@[j]),
    {
        r.push(decode_pair(&files[i]));
    }
    r
}

/// What follows the first dot of `s`.
fn behind_dot(s: &String) -> (r: Option<String>)
    ensures
        match r {
            Some(t) => after_dot(s@) == Some(t@),
            None => after_dot(s@) is None,
        },
{
    let v = text::chars_of(s);
    let n: usize = v.len();
    let mut i: usize = 0;
    assert(s@.skip(0) =~= s@);
    while i < n
        invariant
            i <= n == v@.len(),
            v@ == s@,
            after_dot(s@) == after_dot(s@.skip(i as int)),
        decreases n - i,
    {
        assert(s@.skip(i as int).drop_first() =~= s@.skip(i + 1));
        assert(s@.skip(i as int)[0] == v@[i as int]);
        if v[i] == '.' {
            let rest = s.as_str().substring_char(i + 1, n);
            assert(rest@ =~= s@.skip(i + 1));
            return Some(rest.to_owned());
        }
        i += 1;
    }
    None
}

/// What a TLS listener needs.
#[derive(Debug)]
pub struct ServerTls {
    /// The certificates.
    pub resolver: MultiCertResolver,
    /// The protocols that are offered, the most wanted first.
    pub alpn: Vec<&'static str>,
    /// The lowest version that is accepted.
    pub min_version: TlsMinVersion,
    /// Whether clients are asked for a certificate.
    pub asks_client_cert: bool,
}

/// Whether a listener whose lowest version is `min` accepts the version `v`:
/// that version or a later one.
pub open spec fn admits(min: TlsMinVersion, v: TlsMinVersion) -> bool {
    min == TlsMinVersion::V1_2 || v == TlsMinVersion::V1_3
}

/// Whether a listener whose lowest version is `min` accepts the version `v`.
pub fn accepts(min: TlsMinVersion, v: TlsMinVersion) -> (r: bool)
    ensures
        r == (min == TlsMinVersion::V1_2 || v == TlsMinVersion::V1_3),
        r == admits(min, v),
{
    match min {
        TlsMinVersion::V1_2 => true,
        TlsMinVersion::V1_3 => match v {
            TlsMinVersion::V1_2 => false,
            TlsMinVersion::V1_3 => true,
        },
    }
}

impl ServerTls {
    /// Whether the listener negotiates the version `v`.
    pub open spec fn negotiates(self, v: TlsMinVersion) -> bool {
        admits(self.min_version, v)
    }

    /// Whether the listener negotiates the version `v`.
    pub fn accepts(&self, v: TlsMinVersion) -> (r: bool)
        ensures
            r == self.negotiates(v),
    {
        accepts(self.min_version, v)
    }
}

/// What a TLS listener needs, from the TLS section `cfg` whose files were read
/// as `files`: HTTP/2 is offered before HTTP/1.1, the versions from the lowest
/// that the section names are accepted, and no client certificate is asked for.
pub fn load_server_config_with_resolver(cfg: &TlsConfig, files: &Vec<PairFiles>) -> (r: Result<
    ServerTls,
    TlsError,
>)
    requires
        files@.len() == cfg.certs@.len(),
    ensures
        exists|d: Seq<DecodedPair>| #[trigger]
            decoded(files@, d) && match r {
                Ok(t) => {
                    &&& table_fault(cfg.certs@, d) is None
                    &&& t.resolver.holds(cfg.certs@, d)
                    &&& t.alpn@.len() == 2
                    &&& t.alpn@[0]@ == "h2"@
                    &&& t.alpn@[1]@ == "http/1.1"@
                    &&& t.min_version == cfg.min_version
                    &&& t.negotiates(TlsMinVersion::V1_3)
                    &&& t.negotiates(TlsMinVersion::V1_2) == (cfg.min_version
                        == TlsMinVersion::V1_2)
                    &&& !t.asks_client_cert
                },
                Err(e) => table_fault(cfg.certs@, d) == Some(e@),
            },
{
    match MultiCertResolver::from_config(&cfg.certs, files) {
        Ok(resolver) => {
            let mut alpn: Vec<&'static str> = Vec::new();
            alpn.push("h2");
            alpn.push("http/1.1");
            Ok(
                ServerTls {
                    resolver,
                    alpn,
                    min_version: cfg.min_version,
                    asks_client_cert: false,
                },
            )
        },
        Err(e) => Err(e),
    }
}

/// What a TLS listener needs, where nothing is reloaded later.
pub fn load_server_config(cfg: &TlsConfig, files: &Vec<PairFiles>) -> (r: Result<
    ServerTls,
    TlsError,
>)
    requires
        files@.len() == cfg.certs@.len(),
    ensures
        exists|d: Seq<DecodedPair>| #[trigger]
            decoded(files@, d) && match r {
                Ok(t) => {
                    &&& table_fault(cfg.certs@, d) is None
                    &&& t.resolver.holds(cfg.certs@, d)
                    &&& t.alpn@.len() == 2
                    &&& t.alpn@[0]@ == "h2"@
                    &&& t.alpn@[1]@ == "http/1.1"@
                    &&& t.min_version == cfg.min_version
                    &&& t.negotiates(TlsMinVersion::V1_3)
                    &&& t.negotiates(TlsMinVersion::V1_2) == (cfg.min_version
                        == TlsMinVersion::V1_2)
                    &&& !t.asks_client_cert
                },
                Err(e) => table_fault(cfg.certs@, d) == Some(e@),
            },
{
    load_server_config_with_resolver(cfg, files)
}

/// The same for an HTTP/3 listener, which offers `h3` alone. QUIC has TLS 1.3,
/// whatever the section says.
pub fn load_h3_config(cfg: &TlsConfig, files: &Vec<PairFiles>) -> (r: Result<ServerTls, TlsError>)
    requires
        files@.len() == cfg.certs@.len(),
    ensures
        exists|d: Seq<DecodedPair>| #[trigger]
            decoded(files@, d) && match r {
                Ok(t) => {
                    &&& table_fault(cfg.certs@, d) is None
                    &&& t.resolver.holds(cfg.certs@, d)
                    &&& t.alpn@.len() == 1
                    &&& t.alpn@[0]@ == "h3"@
                    &&& t.negotiates(TlsMinVersion::V1_3)
                    &&& !t.negotiates(TlsMinVersion::V1_2)
                    &&& !t.asks_client_cert
                },
                Err(e) => table_fault(cfg.certs@, d) == Some(e@),
            },
{
    match MultiCertResolver::from_config(&cfg.certs, files) {
        Ok(resolver) => {
            let mut alpn: Vec<&'static str> = Vec::new();
            alpn.push("h3");
            Ok(
                ServerTls {
                    resolver,
                    alpn,
                    min_version: TlsMinVersion::V1_3,
                    asks_client_cert: false,
                },
            )
        },
        Err(e) => Err(e),
    }
}

/// The case of the letters that a client sends makes no difference.
pub proof fn case_makes_no_difference(p: Seq<Pattern>, a: Seq<char>, b: Seq<char>)
    requires
        text::lowered(a) == text::lowered(b),
    ensures
        chosen(p, a) == chosen(p, b),
{
}

proof fn lemma_last_exact(p: Seq<Pattern>, name: Seq<char>, n: int)
    requires
        0 <= n <= p.len(),
    ensures
        match last_exact(p, name, n) {
            Some(i) => {
                &&& 0 <= i < n
                &&& !p[i].wildcard && p[i].name == name
                &&& forall|j: int| i < j < n ==> (#[trigger] p[j]).wildcard || p[j].name != name
            },
            None => forall|j: int| 0 <= j < n ==> (#[trigger] p[j]).wildcard || p[j].name != name,
        },
    decreases n,
{
    if n > 0 {
        lemma_last_exact(p, name, n - 1);
    }
}

proof fn lemma_first_wildcard(p: Seq<Pattern>, name: Seq<char>, i: int)
    requires
        0 <= i <= p.len(),
    ensures
        match first_wildcard(p, name, i) {
            Some(k) => {
                &&& i <= k < p.len()
                &&& p[k].wildcard && p[k].name == name
                &&& forall|j: int| i <= j < k ==> !(#[trigger] p[j]).wildcard || p[j].name != name
            },
            None => forall|j: int|
                i <= j < p.len() ==> !(#[trigger] p[j]).wildcard || p[j].name != name,
        },
    decreases p.len() - i,
{
    if i < p.len() {
        lemma_first_wildcard(p, name, i + 1);
    }
}

/// A full name wins over every wildcard: where one of the patterns is the name
/// that is asked for, the answer is a certificate for that very name.
pub proof fn full_name_wins(p: Seq<Pattern>, sni: Seq<char>, i: int)
    requires
        0 <= i < p.len(),
        !p[i].wildcard,
        p[i].name == text::lowered(sni),
    ensures
        0 <= chosen(p, sni) < p.len(),
        !p[chosen(p, sni)].wildcard,
        p[chosen(p, sni)].name == text::lowered(sni),
{
    lemma_last_exact(p, text::lowered(sni), p.len() as int);
}

/// Whether the pattern `p` is for `name`: the full name, or, of a wildcard, one
/// label, which holds no dot, then a dot, then the name of the wildcard.
pub open spec fn is_for(p: Pattern, name: Seq<char>) -> bool {
    if p.wildcard {
        exists|k: int| #[trigger] splits(name, k) && p.name == name.skip(k + 1)
    } else {
        p.name == name
    }
}

/// The answer is a certificate for the name that is asked for, or the first one
/// where no certificate is: a wildcard stands for exactly one label, wherever it
/// is in the list.
pub proof fn wildcard_stands_for_one_label(p: Seq<Pattern>, sni: Seq<char>)
    requires
        p.len() > 0,
    ensures
        0 <= chosen(p, sni) < p.len(),
        is_for(p[chosen(p, sni)], text::lowered(sni)) || (chosen(p, sni) == 0 && forall|i: int|
            0 <= i < p.len() ==> !is_for(#[trigger] p[i], text::lowered(sni))),
{
    let name = text::lowered(sni);
    lemma_last_exact(p, name, p.len() as int);
    lemma_after_dot(name);
    match after_dot(name) {
        Some(suffix) => {
            lemma_first_wildcard(p, suffix, 0);
            let k = choose|k: int| #[trigger] splits(name, k) && suffix == name.skip(k + 1);
            assert(splits(name, k));
            assert forall|j: int| #[trigger] splits(name, j) implies j == k by {
                if j < k {
                    assert(name[j] != '.');
                } else if k < j {
                    assert(name[k] != '.');
                }
            }
        },
        None => {
            assert forall|j: int| !(#[trigger] splits(name, j)) by {
                if 0 <= j < name.len() {
                    assert(name[j] != '.');
                }
            }
        },
    }
}

/// Whether the first dot of `s` stands at `k`.
pub open spec fn splits(s: Seq<char>, k: int) -> bool {
    &&& 0 <= k < s.len()
    &&& s[k] == '.'
    &&& forall|j: int| 0 <= j < k ==> #[trigger] s[j] != '.'
}

proof fn lemma_after_dot(s: Seq<char>)
    ensures
        match after_dot(s) {
            Some(t) => exists|k: int| #[trigger] splits(s, k) && t == s.skip(k + 1),
            None => forall|j: int| 0 <= j < s.len() ==> #[trigger] s[j] != '.',
        },
    decreases s.len(),
{
    if s.len() > 0 {
        if s[0] == '.' {
            assert(s.drop_first() =~= s.skip(1));
            assert(splits(s, 0));
        } else {
            let rest = s.drop_first();
            lemma_after_dot(rest);
            match after_dot(rest) {
                Some(t) => {
                    let k = choose|k: int| #[trigger] splits(rest, k) && t == rest.skip(k + 1);
                    assert forall|j: int| 0 <= j < k + 1 implies #[trigger] s[j] != '.' by {
                        if j > 0 {
                            assert(s[j] == rest[j - 1]);
                        }
                    }
                    assert(rest.skip(k + 1) =~= s.skip(k + 2));
                    assert(splits(s, k + 1));
                },
                None => {
                    assert forall|j: int| 0 <= j < s.len() implies #[trigger] s[j] != '.' by {
                        if j > 0 {
                            assert(s[j] == rest[j - 1]);
                        }
                    }
                },
            }
        }
    }
}

/// The answer is always one of the certificates; where no pattern covers the
/// name, it is the first.
pub proof fn unknown_name_gets_the_first(p: Seq<Pattern>, sni: Seq<char>)
    requires
        p.len() > 0,
    ensures
        0 <= chosen(p, sni) < p.len(),
        (forall|i: int|
            0 <= i < p.len() ==> {
                &&& (!(#[trigger] p[i]).wildcard ==> p[i].name != text::lowered(sni))
                &&& (p[i].wildcard ==> after_dot(text::lowered(sni)) != Some(p[i].name))
            }) ==> chosen(p, sni) == 0,
{
    let name = text::lowered(sni);
    lemma_last_exact(p, name, p.len() as int);
    if let Some(suffix) = after_dot(name) {
        lemma_first_wildcard(p, suffix, 0);
    }
}

/// A name of the configuration that begins with `*.` is for the names one label below
/// what follows; every other is for itself. Both without regard to case.
pub proof fn star_makes_a_wildcard(sni: Seq<char>, rest: Seq<char>)
    requires
        !(sni.len() >= 2 && sni[0] == '*' && sni[1] == '.'),
    ensures
        pattern_of(seq!['*', '.'] + rest) == (Pattern {
            wildcard: true,
            name: text::lowered(rest),
        }),
        pattern_of(sni) == (Pattern { wildcard: false, name: text::lowered(sni) }),
{
    reveal_strlit("*.");
    assert("*."@ =~= seq!['*', '.']);
    let star = seq!['*', '.'] + rest;
    assert(star.take(2) =~= seq!['*', '.']);
    assert(star.skip(2) =~= rest);
    if sni.len() >= 2 && sni.take(2) == "*."@ {
        assert(sni[0] == sni.take(2)[0] && sni[1] == sni.take(2)[1]);
    }
}

/// A client that names nothing, or the empty name, gets the first certificate; every
/// other gets the one for its name.
pub proof fn nameless_client_gets_the_first(p: Seq<Pattern>, sni: Option<&str>)
    ensures
        sni is None ==> resolved(p, sni) == 0,
        sni matches Some(s) ==> s@.len() == 0 ==> resolved(p, sni) == 0,
        sni matches Some(s) ==> s@.len() > 0 ==> resolved(p, sni) == chosen(p, s@),
{
}

/// Of several certificates for one full name the last one answers, and of several
/// wildcards the first one, where no full name does.
pub proof fn last_full_name_and_first_wildcard_answer(p: Seq<Pattern>, sni: Seq<char>, i: int)
    requires
        0 <= i < p.len(),
    ensures
        !p[i].wildcard && p[i].name == text::lowered(sni) ==> chosen(p, sni) >= i,
        p[i].wildcard && is_for(p[i], text::lowered(sni)) && (forall|j: int|
            0 <= j < p.len() ==> (#[trigger] p[j]).wildcard || p[j].name != text::lowered(sni))
            ==> chosen(p, sni) <= i && p[chosen(p, sni)].wildcard && is_for(
            p[chosen(p, sni)],
            text::lowered(sni),
        ),
{
    let name = text::lowered(sni);
    lemma_last_exact(p, name, p.len() as int);
    lemma_after_dot(name);
    if p[i].wildcard && is_for(p[i], name) {
        let k = choose|k: int| #[trigger] splits(name, k) && p[i].name == name.skip(k + 1);
        match after_dot(name) {
            Some(suffix) => {
                let m = choose|m: int| #[trigger] splits(name, m) && suffix == name.skip(m + 1);
                assert(m == k) by {
                    if m < k {
                        assert(name[m] != '.');
                    } else if k < m {
                        assert(name[k] != '.');
                    }
                }
                lemma_first_wildcard(p, suffix, 0);
                assert(splits(name, k));
            },
            None => {
                assert(name[k] != '.');
            },
        }
    }
}

/// A list of certificate entries is taken exactly where there is one and each of them
/// is sound: its certificate file makes a chain, its key file a key, and the key can
/// sign.
pub proof fn table_is_taken_where_every_entry_is_sound(specs: Seq<CertSpec>, d: Seq<DecodedPair>)
    requires
        d.len() == specs.len(),
    ensures
        table_fault(specs, d) is None <==> specs.len() > 0 && forall|i: int|
            0 <= i < specs.len() ==> {
                &&& pem::chain_result((#[trigger] d[i]).certs) is Ok
                &&& d[i].key is Ok
                &&& d[i].signing_fault is None
            },
{
    lemma_first_fault(specs, d, 0);
}

proof fn lemma_first_fault(specs: Seq<CertSpec>, d: Seq<DecodedPair>, i: int)
    requires
        d.len() == specs.len(),
        0 <= i <= specs.len(),
    ensures
        first_fault(specs, d, i) is None <==> (forall|j: int|
            i <= j < specs.len() ==> {
                &&& pem::chain_result((#[trigger] d[j]).certs) is Ok
                &&& d[j].key is Ok
                &&& d[j].signing_fault is None
            }),
    decreases specs.len() - i,
{
    if i < specs.len() {
        lemma_first_fault(specs, d, i + 1);
        let here = d[i];
        assert(pair_result(specs[i], here) is Ok <==> pem::chain_result(here.certs) is Ok
            && here.key is Ok && here.signing_fault is None);
    }
}

/// What a listener hands out for a name is what the files of that entry hold: the
/// chain of its certificate file and the key of its key file.
pub proof fn entry_holds_what_its_files_hold(
    t: MultiCertResolver,
    specs: Seq<CertSpec>,
    d: Seq<DecodedPair>,
    i: int,
)
    requires
        t.holds(specs, d),
        0 <= i < specs.len(),
    ensures
        t.keys().len() == specs.len(),
        t.patterns().len() == specs.len(),
        t.patterns()[i] == pattern_of(specs[i].sni@),
        pem::chain_result(d[i].certs) == Ok::<_, ChainFault>(pem::chain_view(t.keys()[i].chain@)),
        d[i].key matches Ok(k) && k@ == t.keys()[i].key@,
        d[i].signing_fault is None,
{
    assert(pair_result(specs[i], d[i]) == Ok::<_, TlsFault>(t.keys()[i]@));
}

/// A listener takes its lowest version and every later one, and no earlier one.
pub proof fn versions_from_the_lowest_on_are_admitted(min: TlsMinVersion)
    ensures
        admits(min, min),
        admits(min, TlsMinVersion::V1_3),
        admits(TlsMinVersion::V1_2, min),
        min != TlsMinVersion::V1_2 ==> !admits(min, TlsMinVersion::V1_2),
{
}

/// The fault of an entry tells the file that is at fault, the certificate file before
/// the key file, and the name of the entry where it is the key that cannot sign.
pub proof fn fault_tells_the_file(spec: CertSpec, d: DecodedPair)
    ensures
        d.certs matches Err(e) ==> pair_result(spec, d) == Err::<
            (Seq<Seq<u8>>, (KeyKind, Seq<u8>)),
            _,
        >(TlsFault::ReadFile(spec.cert@, e@)),
        d.certs matches Ok(v) ==> (v@.len() == 0 ==> pair_result(spec, d) == Err::<
            (Seq<Seq<u8>>, (KeyKind, Seq<u8>)),
            _,
        >(TlsFault::NoCert(spec.cert@))),
        pem::chain_result(d.certs) is Ok ==> match d.key {
            Err(KeyFault::NoItemsFound) => pair_result(spec, d) == Err::<
                (Seq<Seq<u8>>, (KeyKind, Seq<u8>)),
                _,
            >(TlsFault::NoKey(spec.key@)),
            Err(KeyFault::Failed(e)) => pair_result(spec, d) == Err::<
                (Seq<Seq<u8>>, (KeyKind, Seq<u8>)),
                _,
            >(TlsFault::ReadFile(spec.key@, e@)),
            Ok(_) => d.signing_fault matches Some(e) ==> pair_result(spec, d) == Err::<
                (Seq<Seq<u8>>, (KeyKind, Seq<u8>)),
                _,
            >(TlsFault::Rustls(spec.sni@, e@)),
        },
{
    pem::chain_is_every_section(d.certs);
}

} // verus!
