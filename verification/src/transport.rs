//! The transport context: a validated certificate chain and exactly one
//! private key, handed read-only to every listener.
//!
//! PEM decoding is done by `rustls_pemfile` on the raw bytes of the
//! configuration files; what each decoding yields is named here and the
//! selection rule — exactly one private key across all recognized
//! encodings combined, never a guess — is proved over those names.

use vstd::prelude::*;

use crate::errors::CertificateLoadError;
use crate::errors::KeyLoadError;

verus! {

/// The DER bytes of one certificate of the chain, leaf first.
pub struct Certificate {
    /// The DER-encoded certificate.
    pub der: Vec<u8>,
}

/// The DER bytes of the single private key of the service.
pub struct PrivateKey {
    /// The DER-encoded key.
    pub der: Vec<u8>,
}

/// What `rustls_pemfile::certs` yields on the given file bytes: the DER
/// contents of its CERTIFICATE sections in order, or nothing where the PEM
/// framing or base64 payload is malformed.
pub uninterp spec fn pem_certs_of(data: Seq<u8>) -> Option<Seq<Seq<u8>>>;

/// What `rustls_pemfile::ec_private_keys` yields: the DER contents of the
/// EC PRIVATE KEY sections, or nothing on a malformed file.
pub uninterp spec fn pem_ec_keys_of(data: Seq<u8>) -> Option<Seq<Seq<u8>>>;

/// What `rustls_pemfile::pkcs8_private_keys` yields: the DER contents of
/// the PRIVATE KEY sections, or nothing on a malformed file.
pub uninterp spec fn pem_pkcs8_keys_of(data: Seq<u8>) -> Option<Seq<Seq<u8>>>;

/// What `rustls_pemfile::rsa_private_keys` yields: the DER contents of the
/// RSA PRIVATE KEY sections, or nothing on a malformed file.
pub uninterp spec fn pem_rsa_keys_of(data: Seq<u8>) -> Option<Seq<Seq<u8>>>;

/// Relies on rustls_pemfile::certs: extracts the DER contents of the
/// CERTIFICATE sections of `data`, a function of the bytes alone; it fails
/// exactly where the PEM framing or base64 payload is malformed.
#[verifier::external_body]
fn pem_certs(data: &[u8]) -> (r: Option<Vec<Vec<u8>>>)
    ensures
        match r {
            Some(v) => pem_certs_of(data@) == Some(Seq::new(v@.len(), |i: int| v@[i]@)),
            None => pem_certs_of(data@) is None,
        },
{
    match rustls_pemfile::certs(&mut &data[..]) {
        Ok(v) => Some(v),
        Err(_) => None,
    }
}

/// Relies on rustls_pemfile::ec_private_keys: extracts the DER contents of
/// the EC PRIVATE KEY sections of `data`, a function of the bytes alone.
#[verifier::external_body]
fn pem_ec_keys(data: &[u8]) -> (r: Option<Vec<Vec<u8>>>)
    ensures
        match r {
            Some(v) => pem_ec_keys_of(data@) == Some(Seq::new(v@.len(), |i: int| v@[i]@)),
            None => pem_ec_keys_of(data@) is None,
        },
{
    match rustls_pemfile::ec_private_keys(&mut &data[..]) {
        Ok(v) => Some(v),
        Err(_) => None,
    }
}

/// Relies on rustls_pemfile::pkcs8_private_keys: extracts the DER contents
/// of the PRIVATE KEY sections of `data`, a function of the bytes alone.
#[verifier::external_body]
fn pem_pkcs8_keys(data: &[u8]) -> (r: Option<Vec<Vec<u8>>>)
    ensures
        match r {
            Some(v) => pem_pkcs8_keys_of(data@) == Some(Seq::new(v@.len(), |i: int| v@[i]@)),
            None => pem_pkcs8_keys_of(data@) is None,
        },
{
    match rustls_pemfile::pkcs8_private_keys(&mut &data[..]) {
        Ok(v) => Some(v),
        Err(_) => None,
    }
}

/// Relies on rustls_pemfile::rsa_private_keys: extracts the DER contents of
/// the RSA PRIVATE KEY sections of `data`, a function of the bytes alone.
#[verifier::external_body]
fn pem_rsa_keys(data: &[u8]) -> (r: Option<Vec<Vec<u8>>>)
    ensures
        match r {
            Some(v) => pem_rsa_keys_of(data@) == Some(Seq::new(v@.len(), |i: int| v@[i]@)),
            None => pem_rsa_keys_of(data@) is None,
        },
{
    match rustls_pemfile::rsa_private_keys(&mut &data[..]) {
        Ok(v) => Some(v),
        Err(_) => None,
    }
}

/// How the chain loads from certificate file bytes: every CERTIFICATE
/// section in order, at least one required.
pub open spec fn load_certs_spec(data: Seq<u8>) -> Result<Seq<Seq<u8>>, CertificateLoadError> {
    match pem_certs_of(data) {
        None => Err(CertificateLoadError::ParseFailed),
        Some(ds) => if ds.len() == 0 {
            Err(CertificateLoadError::NoCertificates)
        } else {
            Ok(ds)
        },
    }
}

/// Which key the key file selects, given what each decoding yielded:
/// exactly one key across the three encodings combined succeeds; zero
/// keys or several (in any combination) always fail.
pub open spec fn select_key_spec(ec: Seq<Seq<u8>>, pkcs8: Seq<Seq<u8>>, rsa: Seq<Seq<u8>>) -> Result<
    Seq<u8>,
    KeyLoadError,
> {
    let total = ec.len() + pkcs8.len() + rsa.len();
    if total == 0 {
        Err(KeyLoadError::NoKey)
    } else if total > 1 {
        Err(KeyLoadError::MultipleKeys)
    } else if ec.len() == 1 {
        Ok(ec[0])
    } else if pkcs8.len() == 1 {
        Ok(pkcs8[0])
    } else {
        Ok(rsa[0])
    }
}

/// How the single private key loads from key file bytes: the file is
/// scanned once per recognized encoding, and the selection rule is applied
/// to everything found.
pub open spec fn load_key_spec(data: Seq<u8>) -> Result<Seq<u8>, KeyLoadError> {
    match pem_ec_keys_of(data) {
        None => Err(KeyLoadError::EcParseFailed),
        Some(ec) => match pem_pkcs8_keys_of(data) {
            None => Err(KeyLoadError::Pkcs8ParseFailed),
            Some(pkcs8) => match pem_rsa_keys_of(data) {
                None => Err(KeyLoadError::RsaParseFailed),
                Some(rsa) => select_key_spec(ec, pkcs8, rsa),
            },
        },
    }
}

/// The selection rule in words: a key file yielding zero keys, or more
/// than one in any combination of encodings, always fails; exactly one key
/// succeeds regardless of which encoding it used.
pub proof fn lemma_single_key_rule(ec: Seq<Seq<u8>>, pkcs8: Seq<Seq<u8>>, rsa: Seq<Seq<u8>>)
    ensures
        select_key_spec(ec, pkcs8, rsa) is Ok <==> ec.len() + pkcs8.len() + rsa.len() == 1,
        ec.len() + pkcs8.len() + rsa.len() == 0 ==> select_key_spec(ec, pkcs8, rsa) == Err::<
            Seq<u8>,
            KeyLoadError,
        >(KeyLoadError::NoKey),
        ec.len() + pkcs8.len() + rsa.len() > 1 ==> select_key_spec(ec, pkcs8, rsa) == Err::<
            Seq<u8>,
            KeyLoadError,
        >(KeyLoadError::MultipleKeys),
        ec.len() == 1 && pkcs8.len() == 0 && rsa.len() == 0 ==> select_key_spec(ec, pkcs8, rsa)
            == Ok::<Seq<u8>, KeyLoadError>(ec[0]),
        pkcs8.len() == 1 && ec.len() == 0 && rsa.len() == 0 ==> select_key_spec(ec, pkcs8, rsa)
            == Ok::<Seq<u8>, KeyLoadError>(pkcs8[0]),
        rsa.len() == 1 && ec.len() == 0 && pkcs8.len() == 0 ==> select_key_spec(ec, pkcs8, rsa)
            == Ok::<Seq<u8>, KeyLoadError>(rsa[0]),
{
}

/// Loads the certificate chain from the bytes of the certificate file.
pub fn load_certs(data: &[u8]) -> (r: Result<Vec<Certificate>, CertificateLoadError>)
    ensures
        match r {
            Ok(v) => load_certs_spec(data@) matches Ok(ds) && v@.len() == ds.len() && forall|k: int|
                0 <= k < ds.len() ==> v@[k].der@ == ds[k],
            Err(e) => load_certs_spec(data@) == Err::<Seq<Seq<u8>>, CertificateLoadError>(e),
        },
{
    match pem_certs(data) {
        None => Err(CertificateLoadError::ParseFailed),
        Some(ders) => {
            if ders.len() == 0 {
                Err(CertificateLoadError::NoCertificates)
            } else {
                let ghost ds = Seq::new(ders@.len(), |i: int| ders@[i]@);
                let mut out: Vec<Certificate> = Vec::new();
                let mut ders = ders;
                let ghost n = ders@.len();
                while ders.len() > 0
                    invariant
                        out@.len() + ders@.len() == n,
                        ds.len() == n,
                        forall|k: int| 0 <= k < out@.len() ==> #[trigger] out@[k].der@ == ds[k],
                        forall|k: int|
                            0 <= k < ders@.len() ==> #[trigger] ders@[k]@ == ds[out@.len() + k],
                    decreases ders@.len(),
                {
                    let der = ders.remove(0);
                    out.push(Certificate { der });
                }
                Ok(out)
            }
        },
    }
}

/// Loads the single private key from the bytes of the key file.
pub fn load_private_key(data: &[u8]) -> (r: Result<PrivateKey, KeyLoadError>)
    ensures
        match r {
            Ok(k) => load_key_spec(data@) == Ok::<Seq<u8>, KeyLoadError>(k.der@),
            Err(e) => load_key_spec(data@) == Err::<Seq<u8>, KeyLoadError>(e),
        },
{
    let ec = match pem_ec_keys(data) {
        None => {
            return Err(KeyLoadError::EcParseFailed);
        },
        Some(v) => v,
    };
    let pkcs8 = match pem_pkcs8_keys(data) {
        None => {
            return Err(KeyLoadError::Pkcs8ParseFailed);
        },
        Some(v) => v,
    };
    let rsa = match pem_rsa_keys(data) {
        None => {
            return Err(KeyLoadError::RsaParseFailed);
        },
        Some(v) => v,
    };
    if ec.len() == 0 && pkcs8.len() == 0 && rsa.len() == 0 {
        Err(KeyLoadError::NoKey)
    } else if ec.len() > 1 || pkcs8.len() > 1 || rsa.len() > 1 || (ec.len() >= 1 && pkcs8.len()
        >= 1) || (pkcs8.len() >= 1 && rsa.len() >= 1) || (ec.len() >= 1 && rsa.len() >= 1) {
        Err(KeyLoadError::MultipleKeys)
    } else if ec.len() == 1 {
        let mut ec = ec;
        let der = ec.remove(0);
        Ok(PrivateKey { der })
    } else if pkcs8.len() == 1 {
        let mut pkcs8 = pkcs8;
        let der = pkcs8.remove(0);
        Ok(PrivateKey { der })
    } else {
        let mut rsa = rsa;
        let der = rsa.remove(0);
        Ok(PrivateKey { der })
    }
}

/// The immutable shared configuration of every listener: an ordered,
/// non-empty certificate chain and the single private key.
pub struct TransportContext {
    /// The chain, leaf first; never empty.
    pub certs: Vec<Certificate>,
    /// The single private key of the service.
    pub key: PrivateKey,
}

impl TransportContext {
    /// A context is well formed when it holds at least one certificate.
    pub open spec fn wf(self) -> bool {
        self.certs@.len() > 0
    }

    /// Builds the context from a validated chain and key.
    pub fn new(certs: Vec<Certificate>, key: PrivateKey) -> (r: TransportContext)
        requires
            certs@.len() > 0,
        ensures
            r.wf(),
            r.certs == certs,
            r.key == key,
    {
        TransportContext { certs, key }
    }
}

} // verus!
