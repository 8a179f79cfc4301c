//! The certificates and keys with which peers authenticate their connections.

use crate::ids::PeerId;
use crate::peer_map::view_map;
use std::collections::HashMap;
use vstd::prelude::*;

verus! {

/// An X.509 certificate in DER form.
#[derive(Debug, PartialEq, Eq)]
pub struct Certificate(pub Vec<u8>);

/// A private key in PKCS#8 DER form.
#[derive(Debug, PartialEq, Eq)]
pub struct PrivateKey(pub Vec<u8>);

impl View for Certificate {
    type V = Seq<u8>;

    open spec fn view(&self) -> Seq<u8> {
        self.0@
    }
}

impl View for PrivateKey {
    type V = Seq<u8>;

    open spec fn view(&self) -> Seq<u8> {
        self.0@
    }
}

fn clone_bytes(bytes: &Vec<u8>) -> (copy: Vec<u8>)
    ensures
        copy@ == bytes@,
{
    let copy = bytes.clone();
    proof {
        assert(copy@ =~= bytes@);
    }
    copy
}

impl Clone for Certificate {
    fn clone(&self) -> (copy: Self)
        ensures
            copy@ == self@,
    {
        Certificate(clone_bytes(&self.0))
    }
}

impl Clone for PrivateKey {
    fn clone(&self) -> (copy: Self)
        ensures
            copy@ == self@,
    {
        PrivateKey(clone_bytes(&self.0))
    }
}

/// Our own certificate and key, and what we know of the other peers.
#[derive(Debug)]
pub struct TlsConfig {
    pub our_certificate: Certificate,
    pub our_private_key: PrivateKey,
    pub peer_certs: HashMap<PeerId, Certificate>,
    pub peer_names: HashMap<PeerId, String>,
}

/// What a `TlsConfig` holds.
#[verifier::ext_equal]
pub struct TlsConfigView {
    pub our_certificate: Seq<u8>,
    pub our_private_key: Seq<u8>,
    pub peer_certs: Map<PeerId, Seq<u8>>,
    pub peer_names: Map<PeerId, Seq<char>>,
}

impl View for TlsConfig {
    type V = TlsConfigView;

    open spec fn view(&self) -> TlsConfigView {
        TlsConfigView {
            our_certificate: self.our_certificate@,
            our_private_key: self.our_private_key@,
            peer_certs: view_map(self.peer_certs@),
            peer_names: view_map(self.peer_names@),
        }
    }
}

impl Clone for TlsConfig {
    fn clone(&self) -> (copy: Self)
        ensures
            copy@ == self@,
    {
        TlsConfig {
            our_certificate: self.our_certificate.clone(),
            our_private_key: self.our_private_key.clone(),
            peer_certs: self.peer_certs.clone(),
            peer_names: self.peer_names.clone(),
        }
    }
}

/// The error of `rcgen`, carried without a look inside.
#[verifier::external_type_specification]
#[verifier::external_body]
pub struct ExRcgenError(rcgen::RcgenError);

/// Why no certificate could be made.
#[derive(Debug, PartialEq, Eq)]
pub enum CertError {
    /// No key pair could be generated.
    KeyPair(rcgen::RcgenError),
    /// The certificate could not be made or signed.
    Certificate(rcgen::RcgenError),
}

/// How a key pair signs.
#[derive(Clone, Copy, Debug, PartialEq, Eq, Structural)]
pub enum SignatureAlgorithm {
    /// ECDSA on the curve P-256 with SHA-256.
    EcdsaP256Sha256,
}

/// Whether a certificate may sign others.
#[derive(Clone, Copy, Debug, PartialEq, Eq, Structural)]
pub enum IsCa {
    /// It may not, and says nothing about it.
    NoCa,
}

/// What a self-signed certificate is asked to say.
#[derive(Debug)]
pub struct CertificateRequest {
    pub algorithm: SignatureAlgorithm,
    pub subject_alt_names: Vec<String>,
    pub common_name: String,
    pub is_ca: IsCa,
}

/// What a `CertificateRequest` holds.
#[verifier::ext_equal]
pub struct CertificateRequestView {
    pub algorithm: SignatureAlgorithm,
    pub subject_alt_names: Seq<Seq<char>>,
    pub common_name: Seq<char>,
    pub is_ca: IsCa,
}

impl View for CertificateRequest {
    type V = CertificateRequestView;

    open spec fn view(&self) -> CertificateRequestView {
        CertificateRequestView {
            algorithm: self.algorithm,
            subject_alt_names: self.subject_alt_names@.map_values(|s: String| s@),
            common_name: self.common_name@,
            is_ca: self.is_ca,
        }
    }
}

/// Whether all characters of `text` are ASCII.
pub open spec fn is_ascii(text: Seq<char>) -> bool {
    forall|i: int| 0 <= i < text.len() ==> (#[trigger] text[i] as u32) < 128
}

/// Whether `key` is the PKCS#8 form of a key pair that `rcgen::KeyPair::generate` may hand out
/// for `algorithm`.
pub uninterp spec fn generated_key(algorithm: SignatureAlgorithm, key: Seq<u8>) -> bool;

/// Whether `cert` is the DER form of a certificate that `rcgen` may make for `request` and
/// sign with `key`. The signature is drawn at random, so one request has many certificates.
pub uninterp spec fn signed_certificate(
    request: CertificateRequestView,
    key: Seq<u8>,
    cert: Seq<u8>,
) -> bool;

/// The request for the certificate of the peer called `name`.
pub open spec fn peer_request(name: Seq<char>) -> CertificateRequestView {
    CertificateRequestView {
        algorithm: SignatureAlgorithm::EcdsaP256Sha256,
        subject_alt_names: seq![name],
        common_name: name,
        is_ca: IsCa::NoCa,
    }
}

/// Calls `rcgen::KeyPair::generate` and gives the key pair in PKCS#8 form. The key is random,
/// and so is whether the system has randomness to give.
#[verifier::external_body]
fn generate_key_pair(algorithm: SignatureAlgorithm) -> (res: Result<Vec<u8>, rcgen::RcgenError>)
    ensures
        res matches Ok(key) ==> generated_key(algorithm, key@),
{
    let alg = match algorithm {
        SignatureAlgorithm::EcdsaP256Sha256 => &rcgen::PKCS_ECDSA_P256_SHA256,
    };
    Ok(rcgen::KeyPair::generate(alg)?.serialize_der())
}

/// Calls `rcgen::Certificate::from_params` on the request and the key, and gives the
/// certificate in DER form. `rcgen` panics on an alternative name that is not ASCII. The
/// signature is random; nothing is said of when signing fails.
#[verifier::external_body]
fn self_sign(request: &CertificateRequest, key: &Vec<u8>) -> (res: Result<
    Vec<u8>,
    rcgen::RcgenError,
>)
    requires
        forall|i: int|
            0 <= i < request@.subject_alt_names.len() ==> is_ascii(
                #[trigger] request@.subject_alt_names[i],
            ),
    ensures
        res matches Ok(cert) ==> signed_certificate(request@, key@, cert@),
{
    let mut params = rcgen::CertificateParams::new(request.subject_alt_names.clone());
    params.alg = match request.algorithm {
        SignatureAlgorithm::EcdsaP256Sha256 => &rcgen::PKCS_ECDSA_P256_SHA256,
    };
    params.key_pair = Some(rcgen::KeyPair::from_der_and_sign_algo(key, params.alg)?);
    params.is_ca = match request.is_ca {
        IsCa::NoCa => rcgen::IsCa::NoCa,
    };
    params.distinguished_name.push(rcgen::DnType::CommonName, request.common_name.as_str());
    rcgen::Certificate::from_params(params)?.serialize_der()
}

/// The request for the certificate of the peer called `name`: the name is the subject's common
/// name and its only alternative name.
pub fn certificate_request(name: &str) -> (request: CertificateRequest)
    ensures
        request@ == peer_request(name@),
{
    let mut names: Vec<String> = Vec::new();
    names.push(name.to_owned());
    let request = CertificateRequest {
        algorithm: SignatureAlgorithm::EcdsaP256Sha256,
        subject_alt_names: names,
        common_name: name.to_owned(),
        is_ca: IsCa::NoCa,
    };
    proof {
        assert(request@.subject_alt_names =~= seq![name@]);
    }
    request
}

/// What comes of asking for a key pair and, once it is there, for a certificate.
pub fn certified(
    asked: Result<(Vec<u8>, Result<Vec<u8>, rcgen::RcgenError>), rcgen::RcgenError>,
) -> (res: Result<(Certificate, PrivateKey), CertError>)
    ensures
        match asked {
            Ok((key, Ok(cert))) => {
                &&& res is Ok
                &&& res->Ok_0.0@ == cert@
                &&& res->Ok_0.1@ == key@
            },
            Ok((_, Err(e))) => res == Err::<(Certificate, PrivateKey), CertError>(
                CertError::Certificate(e),
            ),
            Err(e) => res == Err::<(Certificate, PrivateKey), CertError>(CertError::KeyPair(e)),
        },
{
    match asked {
        Ok((key, Ok(cert))) => Ok((Certificate(cert), PrivateKey(key))),
        Ok((_, Err(e))) => Err(CertError::Certificate(e)),
        Err(e) => Err(CertError::KeyPair(e)),
    }
}

/// A new key pair and a certificate for it in the name of `name`, signed by the key itself.
/// Whether there is one depends on the system's randomness; `certified` says what is answered
/// in each case.
pub fn gen_cert_and_key(name: &str) -> (res: Result<(Certificate, PrivateKey), CertError>)
    requires
        is_ascii(name@),
    ensures
        res matches Ok((cert, key)) ==> generated_key(SignatureAlgorithm::EcdsaP256Sha256, key@)
            && signed_certificate(peer_request(name@), key@, cert@),
{
    let key = match generate_key_pair(SignatureAlgorithm::EcdsaP256Sha256) {
        Ok(key) => key,
        Err(e) => {
            return certified(Err(e));
        },
    };
    let request = certificate_request(name);
    let cert = self_sign(&request, &key);
    certified(Ok((key, cert)))
}

} // verus!
