//! A Web PKI certificate path validator.
//!
//! Given an end-entity certificate, a pool of intermediates, trust anchors,
//! a time and a required extended key usage, the library searches for a
//! chain up to a trust anchor and enforces validity periods, basic
//! constraints, path length and name constraints, key usage for CRL signing,
//! and revocation. When every candidate chain fails, the most specific error
//! is reported. Signature primitives are supplied by the caller through
//! [`SignatureAlgorithm`].
//!
//! Modules, leaves first: `der` reads DER tags and lengths; `time` parses
//! UTCTime and GeneralizedTime over a Gregorian UTC calendar; `error` holds
//! the error taxonomy and its ranking; `signed_data` chooses a signature algorithm and checks a signature;
//! `cert` parses certificates;
//! `subject_name` matches DNS names and IP addresses; `verify_cert` builds
//! and validates chains; `end_entity` is the entry point.

pub mod cert;
pub mod der;
pub mod end_entity;
pub mod error;
pub mod signed_data;
pub mod subject_name;
pub mod time;
pub mod verify_cert;

pub use cert::Cert;
pub use end_entity::EndEntityCert;
pub use error::{DerTypeId, Error};
pub use subject_name::{GeneralName, SubjectNameRef};
pub use time::Time;
pub use signed_data::{PublicKeyInfo, SignatureAlgorithm};
pub use verify_cert::{ChainOptions, TrustAnchor};
