//! Certificate signing requests for ANS agent registration.
//!
//! The crate builds the two requests that an agent needs, each with a fresh
//! RSA-2048 key pair and with the extensions that its certificate calls for,
//! so that callers cannot submit an invalid request by accident.
//!
//! | Certificate | EKU          | Key usage                             | SANs          |
//! |-------------|--------------|---------------------------------------|---------------|
//! | Server      | `ServerAuth` | `DigitalSignature`, `KeyEncipherment` | DNS           |
//! | Identity    | `ClientAuth` | `DigitalSignature`                    | DNS + ANS URI |
//!
//! The versioned ANS URI belongs to the private identity certificate. The
//! public server certificate is bound by its DNS name alone, since public CAs
//! reject requests that carry a URI.
//!
//! [`csr`] holds the builder, [`request`] what a request asks for, and [`pki`]
//! the calls into the certificate and secret handling crates with what is
//! taken for granted of them. [`fqdn`], [`version`] and [`ans_name`] hold the
//! validated names that go into a request; they are parsed here, so that what a
//! request carries is proved down to the text that a caller gave. [`laws`]
//! says what they accept and write character by character, and what a request
//! says from the given texts on.

pub mod ans_name;
pub mod csr;
pub mod error;
pub mod fqdn;
pub mod laws;
pub mod pki;
pub mod request;
pub mod text;
pub mod version;

pub use ans_name::AnsName;
pub use csr::{AnsCsrBuilder, CsrError, CsrOutput};
pub use error::ParseError;
pub use fqdn::Fqdn;
pub use version::Version;
