use vstd::prelude::*;

use std::sync::Arc;

use rustls_pki_types::pem::PemObject;

use crate::host::{normalize_hostname, spec_normalize_hostname};
use crate::text::eq_str;

verus! {

#[verifier::external_type_specification]
#[verifier::external_body]
pub struct ExKeyPair(rcgen::KeyPair);

#[verifier::external_type_specification]
#[verifier::external_body]
#[verifier::reject_recursive_types(S)]
pub struct ExIssuer<'a, S>(rcgen::Issuer<'a, S>);

#[verifier::external_type_specification]
#[verifier::external_body]
pub struct ExServerConfig(rustls::ServerConfig);

/// That a certificate PEM and a key PEM are a loadable certificate
/// authority: what `create_ca_certificate` produces and what loading an
/// issuer expects.
pub uninterp spec fn valid_ca_pem(cert: Seq<char>, key: Seq<char>) -> bool;

/// A per-hostname TLS server configuration, modelled by the hostname its
/// leaf certificate was minted for: the leaf's CN and single DNS SAN are
/// exactly that hostname.
pub struct LeafConfig {
    pub hostname: String,
    pub tls: Arc<rustls::ServerConfig>,
}

/// The certificate authority could not be created or loaded, or a leaf
/// could not be minted.
pub struct CertError;

/// Relies on rcgen: `CertificateParams::default` marked as an
/// unconstrained CA with `KeyCertSign`, `CrlSign` and `DigitalSignature`
/// usages, a fresh key pair, and the self-signed certificate and key
/// serialized as PEM. The two PEMs load back as an issuer.
#[verifier::external_body]
pub fn create_ca_certificate() -> (r: Option<(String, String)>)
    ensures
        match r {
            Some(p) => valid_ca_pem(p.0@, p.1@),
            None => true,
        },
{
    let mut params = rcgen::CertificateParams::default();
    params.is_ca = rcgen::IsCa::Ca(rcgen::BasicConstraints::Unconstrained);
    let u = [rcgen::KeyUsagePurpose::KeyCertSign, rcgen::KeyUsagePurpose::CrlSign,
        rcgen::KeyUsagePurpose::DigitalSignature];
    params.key_usages = u.to_vec();
    let mut dn = rcgen::DistinguishedName::new();
    dn.push(rcgen::DnType::CommonName, "Mboi Tata Proxy Root CA");
    dn.push(rcgen::DnType::OrganizationName, "Mboi Tata");
    params.distinguished_name = dn;
    let key = rcgen::KeyPair::generate().ok()?;
    let cert = params.self_signed(&key).ok()?;
    Some((cert.pem(), key.serialize_pem()))
}

/// Relies on `rcgen::KeyPair::from_pem` and `rcgen::Issuer::from_ca_cert_pem`:
/// loads the signing issuer back from the two PEMs; PEMs written by
/// `create_ca_certificate` load successfully.
#[verifier::external_body]
fn load_issuer(ca_cert_pem: &str, ca_key_pem: &str) -> (r: Option<
    rcgen::Issuer<'static, rcgen::KeyPair>,
>)
    ensures
        valid_ca_pem(ca_cert_pem@, ca_key_pem@) ==> r is Some,
{
    let key = rcgen::KeyPair::from_pem(ca_key_pem).ok()?;
    rcgen::Issuer::from_ca_cert_pem(ca_cert_pem, key).ok()
}

#[verifier::external_type_specification]
#[verifier::external_body]
pub struct ExCertificateParams(rcgen::CertificateParams);

/// Whether leaf parameters can be built for a hostname: exactly the
/// hostnames whose characters the IA5 string check accepts.
pub uninterp spec fn leaf_params_ok(h: Seq<char>) -> bool;

/// Relies on `rcgen::CertificateParams::new` and `Ia5String::try_from`:
/// leaf parameters whose CN and single DNS subject alternative name are
/// exactly `hostname`, with the fixed organization name. Both checks are
/// deterministic in the hostname alone, and succeed exactly when the IA5
/// check accepts it.
#[verifier::external_body]
fn leaf_params(hostname: &str) -> (r: Option<rcgen::CertificateParams>)
    ensures
        r is Some <==> leaf_params_ok(hostname@),
{
    let mut params = rcgen::CertificateParams::new(vec![hostname.to_string()]).ok()?;
    let mut dn = rcgen::DistinguishedName::new();
    dn.push(rcgen::DnType::CommonName, hostname);
    dn.push(rcgen::DnType::OrganizationName, "Mboi Tata Proxy");
    params.distinguished_name = dn;
    let san = rcgen::string::Ia5String::try_from(hostname).ok()?;
    params.subject_alt_names = vec![rcgen::SanType::DnsName(san)];
    Some(params)
}

/// Relies on `rcgen::KeyPair::generate`, `CertificateParams::signed_by` and
/// rustls's `ServerConfig` builder: signs a leaf with those parameters
/// under a fresh key pair and assembles the configuration with no client
/// auth. The result's `hostname` field is exactly the argument.
#[verifier::external_body]
fn sign_leaf(
    issuer: &rcgen::Issuer<'static, rcgen::KeyPair>,
    params: rcgen::CertificateParams,
    hostname: &str,
) -> (r: Option<LeafConfig>)
    ensures
        match r {
            Some(c) => c.hostname@ == hostname@,
            None => true,
        },
{
    let key_pair = rcgen::KeyPair::generate().ok()?;
    let cert = params.signed_by(&key_pair, issuer).ok()?;
    let kind = rustls_pki_types::pem::SectionKind::PrivateKey;
    let key = rustls_pki_types::PrivateKeyDer::from_pem(kind, key_pair.serialize_der())?;
    let builder = rustls::ServerConfig::builder().with_no_client_auth();
    let config = builder.with_single_cert(vec![cert.der().clone()], key).ok()?;
    Some(LeafConfig { hostname: hostname.to_string(), tls: Arc::new(config) })
}

/// Mints the leaf configuration for a hostname: parameters naming exactly
/// that hostname, signed by the issuer. A hostname the IA5 check rejects
/// never yields a configuration; key generation or signing may also fail.
fn mint_leaf(issuer: &rcgen::Issuer<'static, rcgen::KeyPair>, hostname: &str) -> (r: Option<
    LeafConfig,
>)
    ensures
        match r {
            Some(c) => c.hostname@ == hostname@ && leaf_params_ok(hostname@),
            None => true,
        },
        !leaf_params_ok(hostname@) ==> r is None,
{
    match leaf_params(hostname) {
        Some(params) => sign_leaf(issuer, params, hostname),
        None => None,
    }
}

/// Relies on `Arc::clone`: a second handle to the same configuration.
#[verifier::external_body]
fn clone_tls(c: &Arc<rustls::ServerConfig>) -> (r: Arc<rustls::ServerConfig>) {
    Arc::clone(c)
}

impl LeafConfig {
    /// A second handle to the same leaf configuration.
    pub fn duplicate(&self) -> (r: LeafConfig)
        ensures
            r.hostname@ == self.hostname@,
    {
        LeafConfig { hostname: self.hostname.clone(), tls: clone_tls(&self.tls) }
    }
}

/// The leaf-certificate factory: a loaded issuer and the per-hostname
/// cache of minted configurations. For a given normalized hostname the
/// cache grows once and is then reused.
pub struct CertificateManager {
    issuer: rcgen::Issuer<'static, rcgen::KeyPair>,
    cert_cache: Vec<LeafConfig>,
}

impl CertificateManager {
    /// The normalized hostnames a leaf has been minted and cached for, in
    /// insertion order.
    pub closed spec fn spec_cache(&self) -> Seq<Seq<char>> {
        self.cert_cache@.map_values(|c: LeafConfig| c.hostname@)
    }

    /// Loads the issuer from the CA PEMs. PEMs from
    /// `create_ca_certificate`, or any pair satisfying `valid_ca_pem`,
    /// load successfully: reloading a created CA yields a working issuer,
    /// starting with an empty leaf cache.
    pub fn new(ca_cert_pem: &str, ca_key_pem: &str) -> (r: Result<Self, CertError>)
        ensures
            valid_ca_pem(ca_cert_pem@, ca_key_pem@) ==> r is Ok,
            r matches Ok(m) ==> m.spec_cache() == Seq::<Seq<char>>::empty(),
    {
        match load_issuer(ca_cert_pem, ca_key_pem) {
            Some(issuer) => {
                let m = CertificateManager { issuer, cert_cache: Vec::new() };
                proof {
                    assert(m.spec_cache() =~= Seq::<Seq<char>>::empty());
                }
                Ok(m)
            },
            None => Err(CertError),
        }
    }

    /// The TLS configuration for a hostname: the cached one when the
    /// normalized hostname was seen before, a freshly minted one
    /// otherwise. Any configuration handed out was minted for exactly the
    /// normalized form of `hostname`; a hostname already cached always
    /// succeeds without changing the cache; a fresh mint grows the cache
    /// by exactly that hostname; a failure leaves the manager untouched,
    /// and is certain when the hostname is new and fails the IA5 check.
    pub fn get_server_config(&mut self, hostname: &str) -> (r: Result<LeafConfig, CertError>)
        ensures
            ({
                let norm = spec_normalize_hostname(hostname@);
                &&& match r {
                    Ok(c) => c.hostname@ == norm,
                    Err(_) => true,
                }
                &&& old(self).spec_cache().contains(norm) ==> r is Ok && final(self).spec_cache()
                    == old(self).spec_cache()
                &&& r is Ok ==> final(self).spec_cache() == old(self).spec_cache()
                    || final(self).spec_cache() == old(self).spec_cache().push(norm)
                &&& !old(self).spec_cache().contains(norm) && !leaf_params_ok(norm) ==> r is Err
                &&& r is Err ==> *final(self) == *old(self)
            }),
    {
        let norm = normalize_hostname(hostname);
        let mut k: usize = 0;
        while k < self.cert_cache.len()
            invariant
                0 <= k <= self.cert_cache.len(),
                *self == *old(self),
                norm@ == spec_normalize_hostname(hostname@),
                forall|j: int|
                    0 <= j < k ==> (#[trigger] self.cert_cache@[j]).hostname@ != norm@,
            decreases self.cert_cache.len() - k,
        {
            if eq_str(self.cert_cache[k].hostname.as_str(), norm.as_str()) {
                proof {
                    assert(self.spec_cache()[k as int] == norm@);
                    assert(old(self).spec_cache().contains(norm@));
                }
                return Ok(self.cert_cache[k].duplicate());
            }
            k = k + 1;
        }
        proof {
            assert(!old(self).spec_cache().contains(norm@)) by {
                if old(self).spec_cache().contains(norm@) {
                    let j = choose|j: int|
                        0 <= j < old(self).spec_cache().len() && old(self).spec_cache()[j]
                            == norm@;
                    assert(self.cert_cache@[j].hostname@ != norm@);
                }
            }
        }
        match mint_leaf(&self.issuer, norm.as_str()) {
            Some(cfg) => {
                let out = cfg.duplicate();
                let ghost pre = self.spec_cache();
                self.cert_cache.push(cfg);
                proof {
                    assert(self.spec_cache() =~= pre.push(norm@));
                }
                Ok(out)
            },
            None => Err(CertError),
        }
    }
}

} // verus!
