//! The builder of certificate signing requests.

use vstd::prelude::*;
use vstd::string::*;

use rcgen::string::Ia5String;
use rcgen::{CertificateSigningRequest, KeyPair};

use crate::ans_name::AnsName;
use crate::error::ParseError;
use crate::fqdn::Fqdn;
use crate::pki::{
    error_to_string, generate_for_rsa_sha256, ia5_try_from, key_pair_serialize_pem, request_pem,
    secret_from, serialize_request, SecretText,
};
use crate::request::{CsrKind, ExtendedKeyUsage, KeyUsage, RequestProfile, SanType};
use crate::version::Version;

verus! {

/// What [`AnsCsrBuilder::build`] gives: the request and its private key.
#[derive(Debug)]
pub struct CsrOutput {
    /// The certificate signing request as PEM text, ready for submission.
    pub csr_pem: String,
    /// The RSA-2048 private key in PKCS#8 format, as PEM text. It is redacted
    /// from debug output and wiped when it is dropped.
    pub private_key_pem: SecretText,
}

impl Clone for CsrOutput {
    fn clone(&self) -> (r: CsrOutput)
        ensures
            r.csr_pem@ == self.csr_pem@,
            r.private_key_pem@ == self.private_key_pem@,
    {
        CsrOutput {
            csr_pem: self.csr_pem.clone(),
            private_key_pem: self.private_key_pem.clone(),
        }
    }
}

/// Why a request could not be built.
#[derive(Debug)]
#[non_exhaustive]
pub enum CsrError {
    /// The host and version do not form an ANS name.
    InvalidName(ParseError),
    /// A subject alternative name is not an IA5 string.
    InvalidSan(String),
    /// The key pair could not be generated, or the request not be signed.
    Serialization(rcgen::Error),
}

impl From<ParseError> for CsrError {
    fn from(e: ParseError) -> (r: CsrError) {
        CsrError::InvalidName(e)
    }
}

impl vstd::std_specs::convert::FromSpecImpl<ParseError> for CsrError {
    open spec fn obeys_from_spec() -> bool {
        true
    }

    open spec fn from_spec(e: ParseError) -> CsrError {
        CsrError::InvalidName(e)
    }
}

impl From<rcgen::Error> for CsrError {
    fn from(e: rcgen::Error) -> (r: CsrError) {
        CsrError::Serialization(e)
    }
}

impl vstd::std_specs::convert::FromSpecImpl<rcgen::Error> for CsrError {
    open spec fn obeys_from_spec() -> bool {
        true
    }

    open spec fn from_spec(e: rcgen::Error) -> CsrError {
        CsrError::Serialization(e)
    }
}

/// The text that is shown for an error.
pub open spec fn csr_error_message(e: CsrError) -> Seq<char> {
    match e {
        CsrError::InvalidName(e) => "invalid ANS name: "@ + crate::error::fault_message(e@),
        CsrError::InvalidSan(reason) => "invalid SAN value: "@ + reason@,
        CsrError::Serialization(e) => "CSR serialization failed: "@ + crate::pki::error_text(e),
    }
}

impl CsrError {
    /// The error as text for people.
    pub fn message(&self) -> (r: String)
        ensures
            r@ == csr_error_message(*self),
    {
        match self {
            CsrError::InvalidName(e) => {
                let reason = e.message();
                "invalid ANS name: ".to_string().concat(reason.as_str())
            },
            CsrError::InvalidSan(reason) => "invalid SAN value: ".to_string().concat(
                reason.as_str(),
            ),
            CsrError::Serialization(e) => {
                let reason = error_to_string(e);
                "CSR serialization failed: ".to_string().concat(reason.as_str())
            },
        }
    }
}

/// `text` is a PEM request for `terms` that carries `public_key`, and is signed
/// with `algorithm` and with the private half of that key.
pub open spec fn requests(
    text: Seq<char>,
    terms: crate::request::RequestTerms,
    public_key: Seq<u8>,
    algorithm: crate::request::SignatureAlgorithm,
) -> bool {
    &&& crate::text::starts_with(text, crate::pki::pem_begin("CERTIFICATE REQUEST"@))
    &&& crate::pki::request_of(crate::pki::pem_body(text)) == (
    crate::request::CertificationRequest {
        terms,
        public_key,
        signature_algorithm: algorithm,
        signature_verifies: true,
    })
}

/// `out` is a PEM request for `terms`, signed with `algorithm`, together with
/// the PEM private key whose public half the request carries and its signature
/// verifies with.
pub open spec fn fulfils(
    out: CsrOutput,
    terms: crate::request::RequestTerms,
    algorithm: crate::request::SignatureAlgorithm,
) -> bool {
    &&& crate::text::starts_with(out.private_key_pem@, crate::pki::pem_begin("PRIVATE KEY"@))
    &&& requests(
        out.csr_pem@,
        terms,
        crate::pki::public_key_of(crate::pki::pem_body(out.private_key_pem@)),
        algorithm,
    )
}

/// `outcome` is what a call that generates a key pair gave. Whether it is a key
/// pair, and which, depends on the system, so that this is known of the outcome
/// of a call and of nothing else.
pub closed spec fn generation_gave(outcome: Result<KeyPair, rcgen::Error>) -> bool {
    call_ensures(generate_for_rsa_sha256, (), outcome)
}

/// `outcome` is what a call that signs a request for `terms` with `key_pair`
/// gave. As with key pairs, this is known of the outcome of a call and of
/// nothing else.
pub closed spec fn signing_gave(
    terms: crate::request::RequestTerms,
    key_pair: KeyPair,
    outcome: Result<CertificateSigningRequest, rcgen::Error>,
) -> bool {
    exists|profile: RequestProfile|
        profile@ == terms && #[trigger] call_ensures(
            serialize_request,
            (profile, &key_pair),
            outcome,
        )
}

/// Builder for certificate signing requests.
///
/// [`AnsCsrBuilder::server`] is for the TLS server certificate,
/// [`AnsCsrBuilder::identity`] for the mTLS client certificate. Both take
/// validated values, so that no builder holds a malformed host or version.
#[derive(Debug)]
pub struct AnsCsrBuilder {
    host: Fqdn,
    version: Version,
    kind: CsrKind,
}

/// What a builder was made with.
pub struct BuilderParts {
    pub host: Seq<char>,
    pub version: Version,
    pub kind: CsrKind,
}

impl View for AnsCsrBuilder {
    type V = BuilderParts;

    closed spec fn view(&self) -> BuilderParts {
        BuilderParts { host: self.host@, version: self.version, kind: self.kind }
    }
}

/// What the request of a builder asks for.
pub open spec fn builder_terms(parts: BuilderParts) -> crate::request::RequestTerms {
    crate::request::terms_of(
        parts.host,
        crate::request::sans_of(parts.host, parts.version, parts.kind),
        parts.kind,
    )
}

/// A server request names the host and carries no URI.
pub proof fn law_server_request_has_no_uri(parts: BuilderParts)
    requires
        parts.kind == CsrKind::Server,
    ensures
        builder_terms(parts).subject_alt_names == seq![crate::request::AltName::Dns(parts.host)],
        forall|i: int|
            0 <= i < builder_terms(parts).subject_alt_names.len() ==> !(
            #[trigger] builder_terms(parts).subject_alt_names[i] is Uri),
{
}

/// An identity request carries the DNS name and then one URI, the ANS name,
/// from which the version and the host can be parsed again.
pub proof fn law_identity_request_names_the_agent(parts: BuilderParts)
    requires
        parts.kind == CsrKind::Identity,
        crate::fqdn::canonical_host(parts.host),
    ensures
        builder_terms(parts).subject_alt_names.len() == 2,
        builder_terms(parts).subject_alt_names[0] == crate::request::AltName::Dns(parts.host),
        builder_terms(parts).subject_alt_names[1] matches crate::request::AltName::Uri(uri)
            && crate::ans_name::ans_name_of(uri) == Ok::<
            crate::ans_name::AnsNameParts,
            crate::error::ParseFault,
        >(crate::ans_name::AnsNameParts { version: parts.version, host: parts.host }),
{
    crate::ans_name::law_ans_name_round_trip(
        crate::ans_name::AnsNameParts { version: parts.version, host: parts.host },
    );
}

/// The subject of every request is the host as its common name, with no other
/// attribute, and the host is the first alternative name.
pub proof fn law_request_names_the_host(parts: BuilderParts)
    ensures
        builder_terms(parts).subject == crate::request::common_name_alone(parts.host),
        builder_terms(parts).subject_alt_names.len() > 0,
        builder_terms(parts).subject_alt_names[0] == crate::request::AltName::Dns(parts.host),
{
}

/// A server request asks for server authentication alone, an identity request
/// for client authentication alone.
pub proof fn law_extended_key_usage_follows_kind(parts: BuilderParts)
    ensures
        builder_terms(parts).extended_key_usages == match parts.kind {
            CsrKind::Server => seq![crate::request::Purpose::ServerAuth],
            CsrKind::Identity => seq![crate::request::Purpose::ClientAuth],
        },
        forall|purpose: crate::request::Purpose| #[trigger]
            builder_terms(parts).extended_key_usages.contains(purpose) <==> purpose
                == match parts.kind {
                CsrKind::Server => crate::request::Purpose::ServerAuth,
                CsrKind::Identity => crate::request::Purpose::ClientAuth,
            },
{
    let usages = builder_terms(parts).extended_key_usages;
    assert(usages.contains(usages[0]));
}

/// Every request asks for digital signatures, a server request for key
/// encipherment as well, and none for any other usage of the key.
pub proof fn law_key_usage_follows_kind(parts: BuilderParts)
    ensures
        forall|bit: crate::request::UsageBit| #[trigger]
            builder_terms(parts).key_usages.contains(bit) <==> {
                ||| bit is DigitalSignature
                ||| bit is KeyEncipherment && parts.kind == CsrKind::Server
            },
{
}

/// A request asks for the three extensions and for nothing else.
pub proof fn law_request_asks_for_nothing_else(parts: BuilderParts)
    ensures
        builder_terms(parts).other_extensions.len() == 0,
        builder_terms(parts).other_attributes.len() == 0,
{
}

/// How the host and the version are spelled does not matter: spellings of the
/// host that differ in case, and of the version that differ in the `v`, make
/// the same request.
pub proof fn law_spelling_does_not_matter(
    host_a: Seq<char>,
    host_b: Seq<char>,
    bare_version: Seq<char>,
    kind: CsrKind,
)
    requires
        crate::text::lower(host_a) == crate::text::lower(host_b),
        !(bare_version.len() > 0 && bare_version[0] == 'v'),
        crate::fqdn::fqdn_of(host_a) is Ok,
        crate::version::version_of(bare_version) is Ok,
    ensures
        crate::fqdn::fqdn_of(host_b) is Ok,
        crate::version::version_of("v"@ + bare_version) is Ok,
        builder_terms(
            BuilderParts {
                host: crate::fqdn::fqdn_of(host_a)->Ok_0,
                version: crate::version::version_of(bare_version)->Ok_0,
                kind,
            },
        ) == builder_terms(
            BuilderParts {
                host: crate::fqdn::fqdn_of(host_b)->Ok_0,
                version: crate::version::version_of("v"@ + bare_version)->Ok_0,
                kind,
            },
        ),
{
    crate::fqdn::law_case_does_not_matter(host_a, host_b);
    crate::version::law_v_is_optional(bare_version);
}

/// Two identity requests that ask for the same are for the same agent.
pub proof fn law_identity_request_is_unique(a: BuilderParts, b: BuilderParts)
    requires
        a.kind == CsrKind::Identity,
        b.kind == CsrKind::Identity,
        crate::fqdn::canonical_host(a.host),
        crate::fqdn::canonical_host(b.host),
        builder_terms(a) == builder_terms(b),
    ensures
        a == b,
{
    law_identity_request_names_the_agent(a);
    law_identity_request_names_the_agent(b);
}

impl AnsCsrBuilder {
    /// A builder for a **server** request: `ServerAuth` EKU,
    /// `DigitalSignature` and `KeyEncipherment` key usage, DNS SAN only.
    pub fn server(host: Fqdn, version: Version) -> (r: AnsCsrBuilder)
        ensures
            r@ == (BuilderParts { host: host@, version, kind: CsrKind::Server }),
            crate::fqdn::canonical_host(r@.host),
    {
        proof {
            use_type_invariant(&host);
        }
        AnsCsrBuilder { host, version, kind: CsrKind::Server }
    }

    /// A builder for an **identity** request: `ClientAuth` EKU,
    /// `DigitalSignature` key usage, DNS SAN and the versioned `ans://` URI.
    pub fn identity(host: Fqdn, version: Version) -> (r: AnsCsrBuilder)
        ensures
            r@ == (BuilderParts { host: host@, version, kind: CsrKind::Identity }),
            crate::fqdn::canonical_host(r@.host),
    {
        proof {
            use_type_invariant(&host);
        }
        AnsCsrBuilder { host, version, kind: CsrKind::Identity }
    }

    /// Generates an RSA-2048 key pair and makes the request.
    ///
    /// The host and the version always form a name that the request can carry,
    /// so that generating the key and signing are all that can fail.
    ///
    /// # Errors
    /// [`CsrError::Serialization`] if the key pair cannot be generated or the
    /// request not be signed.
    pub fn build(self) -> (r: Result<CsrOutput, CsrError>)
        ensures
            r matches Ok(out) ==> fulfils(
                out,
                builder_terms(self@),
                crate::request::SignatureAlgorithm::RsaSha256,
            ),
            r matches Ok(out) ==> crate::pki::rsa_bits(
                crate::pki::pem_body(out.private_key_pem@),
            ) == 2048,
            r matches Ok(out) ==> exists|key_pair: KeyPair, request: CertificateSigningRequest|
                {
                    &&& generation_gave(Ok(key_pair))
                    &&& #[trigger] signing_gave(builder_terms(self@), key_pair, Ok(request))
                    &&& crate::pki::pem_body(out.private_key_pem@) == crate::pki::key_der(key_pair)
                    &&& crate::pki::pem_body(out.csr_pem@) == crate::pki::request_der(request)
                },
            r matches Err(e) ==> e is Serialization,
            r matches Err(CsrError::Serialization(e)) ==> {
                ||| generation_gave(Err(e))
                ||| exists|key_pair: KeyPair|
                    generation_gave(Ok(key_pair)) && #[trigger] signing_gave(
                        builder_terms(self@),
                        key_pair,
                        Err(e),
                    )
            },
            crate::fqdn::canonical_host(self@.host),
    {
        proof {
            use_type_invariant(&self.host);
        }
        // The names come before the key, which takes time to generate.
        let sans = match build_sans(&self.host, &self.version, self.kind) {
            Ok(sans) => sans,
            Err(e) => return Err(e),
        };
        let key_pair = generate_rsa_key_pair();
        let ghost terms = crate::request::terms_of(
            self.host@,
            crate::request::alt_names(sans@),
            self.kind,
        );
        let ghost generated = key_pair;
        let out = issue(key_pair, &self.host, sans, self.kind);
        proof {
            assert(terms == builder_terms(self@));
            assert(generated matches Ok(key_pair) ==> generation_gave(Ok(key_pair)) && (
            out matches Err(CsrError::Serialization(e)) ==> signing_gave(terms, key_pair, Err(e))));
        }
        out
    }
}

/// Generates an RSA-2048 key pair that signs with PKCS#1 padding and SHA-256.
pub fn generate_rsa_key_pair() -> (r: Result<KeyPair, CsrError>)
    ensures
        r matches Ok(key_pair) ==> crate::pki::rsa_bits(crate::pki::key_der(key_pair)) == 2048,
        r matches Ok(key_pair) ==> crate::pki::key_algorithm(key_pair)
            == crate::request::SignatureAlgorithm::RsaSha256,
        r matches Ok(key_pair) ==> crate::pki::key_public(key_pair) == crate::pki::public_key_of(
            crate::pki::key_der(key_pair),
        ),
        r matches Ok(key_pair) ==> generation_gave(Ok(key_pair)),
        r matches Err(e) ==> e is Serialization,
        r matches Err(CsrError::Serialization(e)) ==> generation_gave(Err(e)),
{
    accept_key_pair(generate_for_rsa_sha256())
}

/// The outcome of generating a key pair, with the error of this crate.
pub fn accept_key_pair(generated: Result<KeyPair, rcgen::Error>) -> (r: Result<KeyPair, CsrError>)
    ensures
        r == match generated {
            Ok(key_pair) => Ok::<KeyPair, CsrError>(key_pair),
            Err(e) => Err(CsrError::Serialization(e)),
        },
{
    match generated {
        Ok(key_pair) => Ok(key_pair),
        Err(e) => Err(CsrError::from(e)),
    }
}

/// The request and the private key, given how generating the key pair went.
pub fn issue(
    key_pair: Result<KeyPair, CsrError>,
    host: &Fqdn,
    sans: Vec<SanType>,
    kind: CsrKind,
) -> (r: Result<CsrOutput, CsrError>)
    ensures
        key_pair matches Err(e) ==> r == Err::<CsrOutput, CsrError>(e),
        key_pair matches Ok(k) ==> match r {
            Ok(out) => {
                &&& requests(
                    out.csr_pem@,
                    crate::request::terms_of(host@, crate::request::alt_names(sans@), kind),
                    crate::pki::key_public(k),
                    crate::pki::key_algorithm(k),
                )
                &&& crate::pki::pem_body(out.private_key_pem@) == crate::pki::key_der(k)
                &&& crate::text::starts_with(
                    out.private_key_pem@,
                    crate::pki::pem_begin("PRIVATE KEY"@),
                )
                &&& exists|request: CertificateSigningRequest|
                    #[trigger] signing_gave(
                        crate::request::terms_of(host@, crate::request::alt_names(sans@), kind),
                        k,
                        Ok(request),
                    ) && crate::pki::pem_body(out.csr_pem@) == crate::pki::request_der(request)
            },
            Err(e) => {
                &&& e matches CsrError::Serialization(e)
                &&& signing_gave(
                    crate::request::terms_of(host@, crate::request::alt_names(sans@), kind),
                    k,
                    Err(e),
                )
            },
        },
{
    let key_pair = match key_pair {
        Ok(key_pair) => key_pair,
        Err(e) => return Err(e),
    };
    let csr_pem = build_csr(&key_pair, host, sans, kind);
    assemble(csr_pem, &key_pair)
}

/// The output for a request that was built, with the key pair it was built
/// for.
pub fn assemble(csr_pem: Result<String, CsrError>, key_pair: &KeyPair) -> (r: Result<
    CsrOutput,
    CsrError,
>)
    ensures
        match csr_pem {
            Ok(text) => {
                &&& r matches Ok(out)
                &&& out.csr_pem@ == text@
                &&& crate::pki::pem_body(out.private_key_pem@) == crate::pki::key_der(*key_pair)
                &&& crate::text::starts_with(
                    out.private_key_pem@,
                    crate::pki::pem_begin("PRIVATE KEY"@),
                )
            },
            Err(e) => r == Err::<CsrOutput, CsrError>(e),
        },
{
    match csr_pem {
        Ok(csr_pem) => {
            let key_pem = key_pair_serialize_pem(key_pair);
            Ok(output_of(csr_pem, key_pem))
        },
        Err(e) => Err(e),
    }
}

/// The output with this request and this private key, both as they are.
pub fn output_of(csr_pem: String, key_pem: String) -> (r: CsrOutput)
    ensures
        r.csr_pem@ == csr_pem@,
        r.private_key_pem@ == key_pem@,
{
    CsrOutput { csr_pem, private_key_pem: secret_from(key_pem) }
}

/// The subject alternative names of a request of this kind.
///
/// Every request carries the DNS name. Only the identity request carries the
/// versioned ANS URI: public CAs reject requests that contain one. The error
/// stays open in the type, and never comes.
pub fn build_sans(host: &Fqdn, version: &Version, kind: CsrKind) -> (r: Result<
    Vec<SanType>,
    CsrError,
>)
    ensures
        r matches Ok(sans) && crate::request::alt_names(sans@) == crate::request::sans_of(
            host@,
            *version,
            kind,
        ),
{
    let name = host.as_str();
    proof {
        crate::fqdn::lemma_canonical_chars(host@);
    }
    let dns_san = match ia5(name) {
        Ok(dns_san) => dns_san,
        Err(e) => return Err(e),
    };
    let mut sans: Vec<SanType> = Vec::new();
    sans.push(SanType::DnsName(dns_san));
    if kind == CsrKind::Identity {
        let version_text = version.text();
        let uri = "ans://".to_string().concat(version_text.as_str()).concat(".").concat(name);
        let ghost parts = crate::ans_name::AnsNameParts { version: *version, host: host@ };
        proof {
            crate::ans_name::law_ans_name_round_trip(parts);
            crate::ans_name::lemma_ans_name_ascii(parts);
        }
        let ans_name = match AnsName::parse(uri.as_str()) {
            Ok(ans_name) => ans_name,
            Err(e) => return Err(CsrError::from(e)),
        };
        let canonical = ans_name.text();
        let uri_san = match ia5(canonical.as_str()) {
            Ok(uri_san) => uri_san,
            Err(e) => return Err(e),
        };
        sans.push(SanType::URI(uri_san));
    }
    assert(crate::request::alt_names(sans@) =~= crate::request::sans_of(host@, *version, kind));
    Ok(sans)
}

/// `value` as an IA5 string.
///
/// # Errors
/// [`CsrError::InvalidSan`] quotes a text that is not ASCII.
pub fn ia5(value: &str) -> (r: Result<Ia5String, CsrError>)
    ensures
        if vstd::utf8::is_ascii_chars(value@) {
            r matches Ok(s) && crate::pki::ia5_text(s) == value@
        } else {
            r matches Err(CsrError::InvalidSan(reason)) && reason@ == "Invalid IA5String: '"@
                + value@ + "'"@
        },
{
    match ia5_try_from(value.to_string()) {
        Ok(s) => Ok(s),
        Err(e) => Err(CsrError::InvalidSan(error_to_string(&e))),
    }
}

/// What a request of this kind is to ask for.
pub fn request_profile(host: &Fqdn, sans: Vec<SanType>, kind: CsrKind) -> (r: RequestProfile)
    ensures
        r@ == crate::request::terms_of(host@, crate::request::alt_names(sans@), kind),
        r.common_name@ == host@,
        r.subject_alt_names == sans,
        r.extended_key_usages@ == match kind {
            CsrKind::Server => seq![ExtendedKeyUsage::ServerAuth],
            CsrKind::Identity => seq![ExtendedKeyUsage::ClientAuth],
        },
        r.key_usages@ == match kind {
            CsrKind::Server => seq![KeyUsage::DigitalSignature, KeyUsage::KeyEncipherment],
            CsrKind::Identity => seq![KeyUsage::DigitalSignature],
        },
{
    let mut extended_key_usages: Vec<ExtendedKeyUsage> = Vec::new();
    let mut key_usages: Vec<KeyUsage> = Vec::new();
    match kind {
        CsrKind::Server => {
            extended_key_usages.push(ExtendedKeyUsage::ServerAuth);
            key_usages.push(KeyUsage::DigitalSignature);
            key_usages.push(KeyUsage::KeyEncipherment);
        },
        CsrKind::Identity => {
            extended_key_usages.push(ExtendedKeyUsage::ClientAuth);
            key_usages.push(KeyUsage::DigitalSignature);
        },
    }
    proof {
        let purposes = extended_key_usages@.map_values(|u: ExtendedKeyUsage| u@);
        let bits = key_usages@.map_values(|u: KeyUsage| u@);
        assert(purposes =~= crate::request::purposes_of(kind));
        assert(bits[0] == crate::request::UsageBit::DigitalSignature);
        if kind == CsrKind::Server {
            assert(bits[1] == crate::request::UsageBit::KeyEncipherment);
        }
        assert(bits.to_set() =~= crate::request::usage_bits_of(kind));
    }
    RequestProfile {
        common_name: host.as_str().to_string(),
        subject_alt_names: sans,
        extended_key_usages,
        key_usages,
    }
}

/// Makes the request and signs it with the key pair. It fails where signing
/// does, with the error that signing gave.
pub fn build_csr(key_pair: &KeyPair, host: &Fqdn, sans: Vec<SanType>, kind: CsrKind) -> (r: Result<
    String,
    CsrError,
>)
    ensures
        r matches Ok(text) ==> requests(
            text@,
            crate::request::terms_of(host@, crate::request::alt_names(sans@), kind),
            crate::pki::key_public(*key_pair),
            crate::pki::key_algorithm(*key_pair),
        ),
        r matches Ok(text) ==> exists|request: CertificateSigningRequest|
            #[trigger] signing_gave(
                crate::request::terms_of(host@, crate::request::alt_names(sans@), kind),
                *key_pair,
                Ok(request),
            ) && crate::pki::pem_body(text@) == crate::pki::request_der(request),
        r matches Err(e) ==> e is Serialization,
        r matches Err(CsrError::Serialization(e)) ==> signing_gave(
            crate::request::terms_of(host@, crate::request::alt_names(sans@), kind),
            *key_pair,
            Err(e),
        ),
{
    let profile = request_profile(host, sans, kind);
    let ghost asked = profile;
    let signed = serialize_request(profile, key_pair);
    proof {
        assert(call_ensures(serialize_request, (asked, key_pair), signed));
        assert(signing_gave(asked@, *key_pair, signed));
        assert(signed matches Ok(request) ==> signing_gave(asked@, *key_pair, Ok(request)));
    }
    encode_request(signed)
}

/// The PEM text of a request, given how signing it went.
pub fn encode_request(signed: Result<CertificateSigningRequest, rcgen::Error>) -> (r: Result<
    String,
    CsrError,
>)
    ensures
        match signed {
            Ok(request) => {
                &&& r matches Ok(text)
                &&& crate::pki::pem_body(text@) == crate::pki::request_der(request)
                &&& crate::text::starts_with(
                    text@,
                    crate::pki::pem_begin("CERTIFICATE REQUEST"@),
                )
            },
            Err(e) => r == Err::<String, CsrError>(CsrError::Serialization(e)),
        },
{
    match signed {
        Ok(request) => match request_pem(&request) {
            Ok(text) => Ok(text),
            Err(e) => Err(CsrError::from(e)),
        },
        Err(e) => Err(CsrError::from(e)),
    }
}

} // verus!
