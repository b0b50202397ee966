//! The calls into `rcgen` and `secrecy`, and what is taken for granted of them.
//!
//! The functions that make the calls are not proved: each states what the
//! function that it calls does, and the rest of the crate is proved from these
//! statements. A key pair depends on chance and a PEM text on the line endings
//! of the system, so the statements say what the results hold rather than which
//! bytes they are.

use vstd::prelude::*;

use rcgen::string::Ia5String;
use rcgen::{CertificateSigningRequest, KeyPair};
use secrecy::{ExposeSecret, SecretString};

use crate::request::{ExtendedKeyUsage, KeyUsage, RequestProfile, SanType};

verus! {

// ---------------------------------------------------------------------------
// Types
// ---------------------------------------------------------------------------

/// `rcgen::string::Ia5String`, an ASN.1 string of ASCII characters.
#[verifier::external_type_specification]
#[verifier::external_body]
pub struct ExIa5String(rcgen::string::Ia5String);

/// `rcgen::Error`.
#[verifier::external_type_specification]
#[verifier::external_body]
pub struct ExRcgenError(rcgen::Error);

/// `rcgen::KeyPair`.
#[verifier::external_type_specification]
#[verifier::external_body]
pub struct ExKeyPair(rcgen::KeyPair);

/// `rcgen::CertificateSigningRequest`, a signed request.
#[verifier::external_type_specification]
#[verifier::external_body]
pub struct ExCertificateSigningRequest(rcgen::CertificateSigningRequest);

/// A text in a `secrecy::SecretString`, which redacts it from debug output and
/// wipes it from memory when it is dropped.
#[verifier::external_body]
#[derive(Debug)]
pub struct SecretText {
    inner: SecretString,
}

// ---------------------------------------------------------------------------
// What values of these types hold
// ---------------------------------------------------------------------------

/// The characters of an IA5 string: what `Ia5String::as_str` gives.
pub uninterp spec fn ia5_text(s: Ia5String) -> Seq<char>;

/// The text of an error: what its `Display` writes.
pub uninterp spec fn error_text(e: rcgen::Error) -> Seq<char>;

/// A key pair as DER bytes: what `KeyPair::serialize_der` gives.
pub uninterp spec fn key_der(key_pair: KeyPair) -> Seq<u8>;

/// The public key of a key pair: what `KeyPair::public_key_raw` gives.
pub uninterp spec fn key_public(key_pair: KeyPair) -> Seq<u8>;

/// The algorithm that a key pair signs with: what `KeyPair::algorithm` gives,
/// where `PKCS_RSA_SHA256` is told apart from the others.
pub uninterp spec fn key_algorithm(key_pair: KeyPair) -> crate::request::SignatureAlgorithm;

/// A signed request as DER bytes: what `CertificateSigningRequest::der` gives.
pub uninterp spec fn request_der(request: CertificateSigningRequest) -> Seq<u8>;

/// The text that a secret holds: what `ExposeSecret::expose_secret` gives.
pub uninterp spec fn secret_text(secret: SecretText) -> Seq<char>;

/// The bytes that a PEM text encodes between its two boundary lines. They do
/// not depend on how its lines end.
pub uninterp spec fn pem_body(text: Seq<char>) -> Seq<u8>;

/// What the PKCS#10 request with these DER bytes says.
pub uninterp spec fn request_of(der: Seq<u8>) -> crate::request::CertificationRequest;

/// The public half of the key pair with these PKCS#8 DER bytes.
pub uninterp spec fn public_key_of(der: Seq<u8>) -> Seq<u8>;

/// The length in bits of the modulus of the RSA key pair with these PKCS#8 DER
/// bytes.
pub uninterp spec fn rsa_bits(der: Seq<u8>) -> nat;

/// The boundary line that a PEM text with this label begins with.
pub open spec fn pem_begin(label: Seq<char>) -> Seq<char> {
    "-----BEGIN "@ + label + "-----"@
}

// ---------------------------------------------------------------------------
// Calls
// ---------------------------------------------------------------------------

/// `rcgen::string::Ia5String::try_from` on a `String`: accepts ASCII text, and
/// keeps it; the text of the error quotes what was rejected.
#[verifier::external_body]
pub(crate) fn ia5_try_from(value: String) -> (r: Result<Ia5String, rcgen::Error>)
    ensures
        r is Ok <==> vstd::utf8::is_ascii_chars(value@),
        r matches Ok(s) ==> ia5_text(s) == value@,
        r matches Err(e) ==> error_text(e) == "Invalid IA5String: '"@ + value@ + "'"@,
{
    Ia5String::try_from(value)
}

/// `rcgen::Error::to_string`: the text of the error.
#[verifier::external_body]
pub(crate) fn error_to_string(e: &rcgen::Error) -> (r: String)
    ensures
        r@ == error_text(*e),
{
    e.to_string()
}

/// `rcgen::KeyPair::generate_for` with `PKCS_RSA_SHA256`: a new random RSA key
/// pair of 2048 bits that signs with this algorithm. Its DER bytes are PKCS#8
/// and hold its public half. Whether it succeeds, and which key comes, depends
/// on the system.
#[verifier::external_body]
pub(crate) fn generate_for_rsa_sha256() -> (r: Result<KeyPair, rcgen::Error>)
    ensures
        r matches Ok(key_pair) ==> rsa_bits(key_der(key_pair)) == 2048,
        r matches Ok(key_pair) ==> key_algorithm(key_pair)
            == crate::request::SignatureAlgorithm::RsaSha256,
        r matches Ok(key_pair) ==> key_public(key_pair) == public_key_of(key_der(key_pair)),
{
    KeyPair::generate_for(&rcgen::PKCS_RSA_SHA256)
}

/// `rcgen::KeyPair::serialize_pem`: a PEM text with the DER bytes of the key
/// pair. Which line ending it has depends on the system.
#[verifier::external_body]
pub(crate) fn key_pair_serialize_pem(key_pair: &KeyPair) -> (r: String)
    ensures
        pem_body(r@) == key_der(*key_pair),
        crate::text::starts_with(r@, pem_begin("PRIVATE KEY"@)),
{
    key_pair.serialize_pem()
}

/// `rcgen::CertificateParams::serialize_request` on default parameters with
/// the subject, names and usages of `profile`: a request that asks for these
/// and nothing else, carries the public key of the key pair, and has a
/// signature that was made with the algorithm of the key pair and verifies with
/// that public key. Signing can fail; the bytes of the signature are left
/// unsaid.
#[verifier::external_body]
pub(crate) fn serialize_request(profile: RequestProfile, key_pair: &KeyPair) -> (r: Result<
    CertificateSigningRequest,
    rcgen::Error,
>)
    ensures
        r matches Ok(request) ==> request_of(request_der(request)) == (
        crate::request::CertificationRequest {
            terms: profile@,
            public_key: key_public(*key_pair),
            signature_algorithm: key_algorithm(*key_pair),
            signature_verifies: true,
        }),
{
    let mut params = rcgen::CertificateParams::default();
    params.distinguished_name = rcgen::DistinguishedName::new();
    params.distinguished_name.push(rcgen::DnType::CommonName, profile.common_name);
    params.subject_alt_names = profile.subject_alt_names.into_iter().map(|san| match san {
        SanType::DnsName(name) => rcgen::SanType::DnsName(name),
        SanType::URI(uri) => rcgen::SanType::URI(uri) }).collect();
    params.extended_key_usages = profile.extended_key_usages.into_iter().map(|usage| match usage {
        ExtendedKeyUsage::ServerAuth => rcgen::ExtendedKeyUsagePurpose::ServerAuth,
        ExtendedKeyUsage::ClientAuth => rcgen::ExtendedKeyUsagePurpose::ClientAuth }).collect();
    params.key_usages = profile.key_usages.into_iter().map(|usage| match usage {
        KeyUsage::DigitalSignature => rcgen::KeyUsagePurpose::DigitalSignature,
        KeyUsage::KeyEncipherment => rcgen::KeyUsagePurpose::KeyEncipherment }).collect();
    params.serialize_request(key_pair)
}

/// `rcgen::CertificateSigningRequest::pem`: a PEM text with the request. Which
/// line ending it has depends on the system. It has an error type and never
/// uses it.
#[verifier::external_body]
pub(crate) fn request_pem(request: &CertificateSigningRequest) -> (r: Result<String, rcgen::Error>)
    ensures
        r is Ok,
        r matches Ok(text) ==> pem_body(text@) == request_der(*request),
        r matches Ok(text) ==> crate::text::starts_with(
            text@,
            pem_begin("CERTIFICATE REQUEST"@),
        ),
{
    request.pem()
}

/// `secrecy::SecretString::from` on a `String`: the secret holds that text.
#[verifier::external_body]
pub(crate) fn secret_from(text: String) -> (r: SecretText)
    ensures
        secret_text(r) == text@,
{
    SecretText { inner: SecretString::from(text) }
}

/// `secrecy::ExposeSecret::expose_secret`: the text that the secret holds.
#[verifier::external_body]
fn secret_expose(secret: &SecretText) -> (r: &str)
    ensures
        r@ == secret_text(*secret),
{
    secret.inner.expose_secret()
}

/// `secrecy::SecretString::clone`: the copy holds the same text.
#[verifier::external_body]
fn secret_clone(secret: &SecretText) -> (r: SecretText)
    ensures
        secret_text(r) == secret_text(*secret),
{
    SecretText { inner: secret.inner.clone() }
}

// ---------------------------------------------------------------------------
// Secrets
// ---------------------------------------------------------------------------

impl View for SecretText {
    type V = Seq<char>;

    open spec fn view(&self) -> Seq<char> {
        secret_text(*self)
    }
}

impl SecretText {
    /// The text itself, for when it is to be stored.
    pub fn expose_secret(&self) -> (r: &str)
        ensures
            r@ == self@,
    {
        secret_expose(self)
    }
}

impl Clone for SecretText {
    fn clone(&self) -> (r: SecretText)
        ensures
            r@ == self@,
    {
        secret_clone(self)
    }
}

} // verus!
