//! What a certificate signing request asks for.

use vstd::prelude::*;

use rcgen::string::Ia5String;

verus! {

/// The certificate that a request is for.
#[derive(Debug, Clone, Copy, PartialEq, Eq, Structural)]
pub enum CsrKind {
    /// The public TLS server certificate.
    Server,
    /// The private mTLS client certificate.
    Identity,
}

/// A subject alternative name.
#[derive(Debug)]
pub enum SanType {
    DnsName(Ia5String),
    URI(Ia5String),
}

/// A general name: a DNS name or a URI by its text, any other by its tag and
/// its content.
pub enum AltName {
    Dns(Seq<char>),
    Uri(Seq<char>),
    Other { tag: nat, content: Seq<u8> },
}

impl View for SanType {
    type V = AltName;

    open spec fn view(&self) -> AltName {
        match self {
            SanType::DnsName(name) => AltName::Dns(crate::pki::ia5_text(*name)),
            SanType::URI(uri) => AltName::Uri(crate::pki::ia5_text(*uri)),
        }
    }
}

/// The names that a list of subject alternative names holds.
pub open spec fn alt_names(sans: Seq<SanType>) -> Seq<AltName> {
    Seq::new(sans.len(), |i: int| sans[i]@)
}

/// A purpose of the extended key usage extension.
#[derive(Debug, Clone, Copy, PartialEq, Eq, Structural)]
pub enum ExtendedKeyUsage {
    /// `id-kp-serverAuth`
    ServerAuth,
    /// `id-kp-clientAuth`
    ClientAuth,
}

/// A bit of the key usage extension.
#[derive(Debug, Clone, Copy, PartialEq, Eq, Structural)]
pub enum KeyUsage {
    DigitalSignature,
    KeyEncipherment,
}

/// What a request is to ask for.
#[derive(Debug)]
pub struct RequestProfile {
    /// The common name, the only attribute of the subject.
    pub common_name: String,
    pub subject_alt_names: Vec<SanType>,
    pub extended_key_usages: Vec<ExtendedKeyUsage>,
    pub key_usages: Vec<KeyUsage>,
}

/// The type of an attribute of a subject, by its OID where it is not the common
/// name.
pub enum AttributeType {
    CommonName,
    Other(Seq<u64>),
}

/// An attribute of a subject.
pub struct SubjectAttribute {
    pub attribute: AttributeType,
    pub text: Seq<char>,
}

/// A purpose that an extended key usage extension can hold, by its OID where it
/// is none of the two that requests are made with.
pub enum Purpose {
    ServerAuth,
    ClientAuth,
    Other(Seq<u64>),
}

/// A bit that a key usage extension can have set.
pub enum UsageBit {
    DigitalSignature,
    ContentCommitment,
    KeyEncipherment,
    DataEncipherment,
    KeyAgreement,
    KeyCertSign,
    CrlSign,
    EncipherOnly,
    DecipherOnly,
}

impl View for ExtendedKeyUsage {
    type V = Purpose;

    open spec fn view(&self) -> Purpose {
        match self {
            ExtendedKeyUsage::ServerAuth => Purpose::ServerAuth,
            ExtendedKeyUsage::ClientAuth => Purpose::ClientAuth,
        }
    }
}

impl View for KeyUsage {
    type V = UsageBit;

    open spec fn view(&self) -> UsageBit {
        match self {
            KeyUsage::DigitalSignature => UsageBit::DigitalSignature,
            KeyUsage::KeyEncipherment => UsageBit::KeyEncipherment,
        }
    }
}

/// All that a request asks for, apart from the key.
pub struct RequestTerms {
    /// The attributes of the subject.
    pub subject: Seq<SubjectAttribute>,
    /// The names of the subject alternative name extension.
    pub subject_alt_names: Seq<AltName>,
    /// The purposes of the extended key usage extension.
    pub extended_key_usages: Seq<Purpose>,
    /// The bits of the key usage extension.
    pub key_usages: Set<UsageBit>,
    /// The OIDs of the other extensions that are requested.
    pub other_extensions: Seq<Seq<u64>>,
    /// The OIDs of the attributes other than the request for extensions.
    pub other_attributes: Seq<Seq<u64>>,
}

/// The subject that consists of a common name alone.
pub open spec fn common_name_alone(name: Seq<char>) -> Seq<SubjectAttribute> {
    seq![SubjectAttribute { attribute: AttributeType::CommonName, text: name }]
}

/// The algorithm that a key pair signs with.
#[derive(Debug, Clone, Copy, PartialEq, Eq, Structural)]
pub enum SignatureAlgorithm {
    /// RSA with PKCS#1 1.5 padding and SHA-256.
    RsaSha256,
    /// Any other algorithm.
    Other,
}

/// What a signed request says.
pub struct CertificationRequest {
    /// What it asks for.
    pub terms: RequestTerms,
    /// The public key that it carries.
    pub public_key: Seq<u8>,
    /// The algorithm that it names for its signature.
    pub signature_algorithm: SignatureAlgorithm,
    /// Its signature verifies with the public key that it carries.
    pub signature_verifies: bool,
}

impl View for RequestProfile {
    type V = RequestTerms;

    open spec fn view(&self) -> RequestTerms {
        RequestTerms {
            subject: common_name_alone(self.common_name@),
            subject_alt_names: alt_names(self.subject_alt_names@),
            extended_key_usages: self.extended_key_usages@.map_values(|u: ExtendedKeyUsage| u@),
            key_usages: self.key_usages@.map_values(|u: KeyUsage| u@).to_set(),
            other_extensions: Seq::empty(),
            other_attributes: Seq::empty(),
        }
    }
}

/// The purposes that a request of this kind asks for.
pub open spec fn purposes_of(kind: CsrKind) -> Seq<Purpose> {
    match kind {
        CsrKind::Server => seq![Purpose::ServerAuth],
        CsrKind::Identity => seq![Purpose::ClientAuth],
    }
}

/// The key usage bits that a request of this kind asks for.
pub open spec fn usage_bits_of(kind: CsrKind) -> Set<UsageBit> {
    match kind {
        CsrKind::Server => set![UsageBit::DigitalSignature, UsageBit::KeyEncipherment],
        CsrKind::Identity => set![UsageBit::DigitalSignature],
    }
}

/// What a request of this kind asks for, given the host and the names.
pub open spec fn terms_of(host: Seq<char>, sans: Seq<AltName>, kind: CsrKind) -> RequestTerms {
    RequestTerms {
        subject: common_name_alone(host),
        subject_alt_names: sans,
        extended_key_usages: purposes_of(kind),
        key_usages: usage_bits_of(kind),
        other_extensions: Seq::empty(),
        other_attributes: Seq::empty(),
    }
}

/// The subject alternative names of a request of this kind: the host, and the
/// ANS name where the request is for an identity certificate.
pub open spec fn sans_of(
    host: Seq<char>,
    version: crate::version::Version,
    kind: CsrKind,
) -> Seq<AltName> {
    match kind {
        CsrKind::Server => seq![AltName::Dns(host)],
        CsrKind::Identity => seq![
            AltName::Dns(host),
            AltName::Uri(
                crate::ans_name::ans_name_text(crate::ans_name::AnsNameParts { version, host }),
            ),
        ],
    }
}

} // verus!
