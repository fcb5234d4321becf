//! The error taxonomy of certificate and name validation, and the ranking
//! that picks the most informative error among several failed attempts.

use vstd::prelude::*;

verus! {

/// An error that occurs during certificate validation or name validation.
#[derive(Clone, Copy, Debug, PartialEq, Eq, Structural)]
#[non_exhaustive]
pub enum Error {
    /// The encoding of some ASN.1 DER-encoded item is invalid.
    BadDer,
    /// The encoding of an ASN.1 DER-encoded time is invalid.
    BadDerTime,
    /// A CA certificate is being used as an end-entity certificate.
    CaUsedAsEndEntity,
    /// The time of validation is later than the certificate's notAfter time.
    CertExpired,
    /// The certificate is not valid for the name it is being validated for.
    CertNotValidForName,
    /// The time of validation is earlier than the certificate's notBefore time.
    CertNotValidYet,
    /// The certificate, or one of its issuers, has been revoked.
    CertRevoked,
    /// An end-entity certificate is being used as a CA certificate.
    EndEntityUsedAsCa,
    /// An X.509 extension is invalid.
    ExtensionValueInvalid,
    /// The certificate validity period (notBefore, notAfter) is invalid.
    InvalidCertValidity,
    /// A CRL number extension was mis-encoded, negative or too long.
    InvalidCrlNumber,
    /// An iPAddress name constraint had a sparse mask or a wrong length.
    InvalidNetworkMaskConstraint,
    /// A serial number was mis-encoded, negative or too long.
    InvalidSerialNumber,
    /// The CRL signature is invalid for the issuer's public key.
    InvalidCrlSignatureForPublicKey,
    /// The signature is invalid for the given public key.
    InvalidSignatureForPublicKey,
    /// A CRL was signed by an issuer whose key usage lacks cRLSign.
    IssuerNotCrlSigner,
    /// A presented or reference DNS identifier was malformed.
    MalformedDnsIdentifier,
    /// The certificate extensions are malformed.
    MalformedExtensions,
    /// A name constraint was malformed.
    MalformedNameConstraint,
    /// The maximum number of signature checks has been reached.
    MaximumSignatureChecksExceeded,
    /// The certificate violates one or more name constraints.
    NameConstraintViolation,
    /// The certificate violates one or more path length constraints.
    PathLenConstraintViolated,
    /// The certificate is not valid for the requested Extended Key Usage.
    RequiredEkuNotFound,
    /// The TBS signature algorithm differs from the outer signature algorithm.
    SignatureAlgorithmMismatch,
    /// Trailing data was found while parsing DER-encoded input for the named type.
    TrailingData(DerTypeId),
    /// A valid issuer for the certificate could not be found.
    UnknownIssuer,
    /// The certificate's revocation status could not be determined.
    UnknownRevocationStatus,
    /// The certificate is not a v3 X.509 certificate.
    UnsupportedCertVersion,
    /// The certificate contains an unsupported critical extension.
    UnsupportedCriticalExtension,
    /// The CRL's issuing distribution point is not supported.
    UnsupportedCrlIssuingDistributionPoint,
    /// The CRL is not a v2 X.509 CRL.
    UnsupportedCrlVersion,
    /// The CRL is an unsupported delta CRL.
    UnsupportedDeltaCrl,
    /// The CRL contains unsupported indirect entries.
    UnsupportedIndirectCrl,
    /// The revocation reason is not supported.
    UnsupportedRevocationReason,
    /// The CRL is partitioned by revocation reasons.
    UnsupportedRevocationReasonsPartitioning,
    /// The CRL signature algorithm is not among the supported ones.
    UnsupportedCrlSignatureAlgorithm,
    /// The signature algorithm is not among the supported ones.
    UnsupportedSignatureAlgorithm,
    /// The CRL signature algorithm does not fit the issuer's public key.
    UnsupportedCrlSignatureAlgorithmForPublicKey,
    /// The signature algorithm does not fit the public key.
    UnsupportedSignatureAlgorithmForPublicKey,
}

/// The DER type whose parse left trailing data.
#[derive(Clone, Copy, Debug, PartialEq, Eq, Structural)]
#[non_exhaustive]
pub enum DerTypeId {
    BitString,
    Bool,
    Certificate,
    CertificateExtensions,
    CertificateTbsCertificate,
    CertRevocationList,
    CertRevocationListExtension,
    CrlDistributionPoint,
    CommonNameInner,
    CommonNameOuter,
    DistributionPointName,
    Extension,
    GeneralName,
    RevocationReason,
    Signature,
    SignatureAlgorithm,
    SignedData,
    SubjectPublicKeyInfo,
    Time,
    TrustAnchorV1,
    TrustAnchorV1TbsCertificate,
    U8,
    RevokedCertificate,
    RevokedCertificateExtension,
    RevokedCertEntry,
    IssuingDistributionPoint,
}

/// How specific an error is: a higher rank is more useful to an end user.
pub open spec fn error_rank(e: Error) -> nat {
    match e {
        Error::CertNotValidYet | Error::CertExpired => 29,
        Error::CertNotValidForName => 28,
        Error::CertRevoked | Error::UnknownRevocationStatus => 27,
        Error::InvalidCrlSignatureForPublicKey | Error::InvalidSignatureForPublicKey => 26,
        Error::SignatureAlgorithmMismatch => 25,
        Error::RequiredEkuNotFound => 24,
        Error::NameConstraintViolation => 23,
        Error::PathLenConstraintViolated => 22,
        Error::CaUsedAsEndEntity | Error::EndEntityUsedAsCa => 21,
        Error::IssuerNotCrlSigner => 20,
        Error::InvalidCertValidity => 19,
        Error::InvalidNetworkMaskConstraint => 18,
        Error::InvalidSerialNumber => 17,
        Error::InvalidCrlNumber => 16,
        Error::UnsupportedCrlSignatureAlgorithmForPublicKey
        | Error::UnsupportedSignatureAlgorithmForPublicKey => 15,
        Error::UnsupportedCrlSignatureAlgorithm | Error::UnsupportedSignatureAlgorithm => 14,
        Error::UnsupportedCriticalExtension | Error::UnsupportedCertVersion => 13,
        Error::UnsupportedCrlVersion => 12,
        Error::UnsupportedDeltaCrl => 11,
        Error::UnsupportedIndirectCrl => 10,
        Error::UnsupportedRevocationReason => 9,
        Error::UnsupportedRevocationReasonsPartitioning => 8,
        Error::UnsupportedCrlIssuingDistributionPoint => 7,
        Error::MalformedDnsIdentifier => 6,
        Error::MalformedNameConstraint => 5,
        Error::MalformedExtensions | Error::TrailingData(_) => 4,
        Error::ExtensionValueInvalid => 3,
        Error::BadDerTime => 2,
        Error::BadDer => 1,
        Error::MaximumSignatureChecksExceeded | Error::UnknownIssuer => 0,
    }
}

/// The position of a DER type in the list of `DerTypeId`.
pub open spec fn der_type_index(k: DerTypeId) -> nat {
    match k {
        DerTypeId::BitString => 0,
        DerTypeId::Bool => 1,
        DerTypeId::Certificate => 2,
        DerTypeId::CertificateExtensions => 3,
        DerTypeId::CertificateTbsCertificate => 4,
        DerTypeId::CertRevocationList => 5,
        DerTypeId::CertRevocationListExtension => 6,
        DerTypeId::CrlDistributionPoint => 7,
        DerTypeId::CommonNameInner => 8,
        DerTypeId::CommonNameOuter => 9,
        DerTypeId::DistributionPointName => 10,
        DerTypeId::Extension => 11,
        DerTypeId::GeneralName => 12,
        DerTypeId::RevocationReason => 13,
        DerTypeId::Signature => 14,
        DerTypeId::SignatureAlgorithm => 15,
        DerTypeId::SignedData => 16,
        DerTypeId::SubjectPublicKeyInfo => 17,
        DerTypeId::Time => 18,
        DerTypeId::TrustAnchorV1 => 19,
        DerTypeId::TrustAnchorV1TbsCertificate => 20,
        DerTypeId::U8 => 21,
        DerTypeId::RevokedCertificate => 22,
        DerTypeId::RevokedCertificateExtension => 23,
        DerTypeId::RevokedCertEntry => 24,
        DerTypeId::IssuingDistributionPoint => 25,
    }
}

/// A key that tells apart errors of equal rank: the variant's position,
/// then for `TrailingData` the position of its DER type.
pub open spec fn error_tie_key(e: Error) -> nat {
    match e {
        Error::BadDer => 0,
        Error::BadDerTime => 32,
        Error::CaUsedAsEndEntity => 64,
        Error::CertExpired => 96,
        Error::CertNotValidForName => 128,
        Error::CertNotValidYet => 160,
        Error::CertRevoked => 192,
        Error::EndEntityUsedAsCa => 224,
        Error::ExtensionValueInvalid => 256,
        Error::InvalidCertValidity => 288,
        Error::InvalidCrlNumber => 320,
        Error::InvalidNetworkMaskConstraint => 352,
        Error::InvalidSerialNumber => 384,
        Error::InvalidCrlSignatureForPublicKey => 416,
        Error::InvalidSignatureForPublicKey => 448,
        Error::IssuerNotCrlSigner => 480,
        Error::MalformedDnsIdentifier => 512,
        Error::MalformedExtensions => 544,
        Error::MalformedNameConstraint => 576,
        Error::MaximumSignatureChecksExceeded => 608,
        Error::NameConstraintViolation => 640,
        Error::PathLenConstraintViolated => 672,
        Error::RequiredEkuNotFound => 704,
        Error::SignatureAlgorithmMismatch => 736,
        Error::TrailingData(k) => 768 + der_type_index(k),
        Error::UnknownIssuer => 800,
        Error::UnknownRevocationStatus => 832,
        Error::UnsupportedCertVersion => 864,
        Error::UnsupportedCriticalExtension => 896,
        Error::UnsupportedCrlIssuingDistributionPoint => 928,
        Error::UnsupportedCrlVersion => 960,
        Error::UnsupportedDeltaCrl => 992,
        Error::UnsupportedIndirectCrl => 1024,
        Error::UnsupportedRevocationReason => 1056,
        Error::UnsupportedRevocationReasonsPartitioning => 1088,
        Error::UnsupportedCrlSignatureAlgorithm => 1120,
        Error::UnsupportedSignatureAlgorithm => 1152,
        Error::UnsupportedCrlSignatureAlgorithmForPublicKey => 1184,
        Error::UnsupportedSignatureAlgorithmForPublicKey => 1216,
    }
}

/// The position of a DER type in the list of `DerTypeId`.
fn der_type_position(k: &DerTypeId) -> (r: u32)
    ensures
        r as nat == der_type_index(*k),
{
    match k {
        DerTypeId::BitString => 0,
        DerTypeId::Bool => 1,
        DerTypeId::Certificate => 2,
        DerTypeId::CertificateExtensions => 3,
        DerTypeId::CertificateTbsCertificate => 4,
        DerTypeId::CertRevocationList => 5,
        DerTypeId::CertRevocationListExtension => 6,
        DerTypeId::CrlDistributionPoint => 7,
        DerTypeId::CommonNameInner => 8,
        DerTypeId::CommonNameOuter => 9,
        DerTypeId::DistributionPointName => 10,
        DerTypeId::Extension => 11,
        DerTypeId::GeneralName => 12,
        DerTypeId::RevocationReason => 13,
        DerTypeId::Signature => 14,
        DerTypeId::SignatureAlgorithm => 15,
        DerTypeId::SignedData => 16,
        DerTypeId::SubjectPublicKeyInfo => 17,
        DerTypeId::Time => 18,
        DerTypeId::TrustAnchorV1 => 19,
        DerTypeId::TrustAnchorV1TbsCertificate => 20,
        DerTypeId::U8 => 21,
        DerTypeId::RevokedCertificate => 22,
        DerTypeId::RevokedCertificateExtension => 23,
        DerTypeId::RevokedCertEntry => 24,
        DerTypeId::IssuingDistributionPoint => 25,
    }
}

/// Of two errors, the one of higher rank; between distinct errors of equal
/// rank, the one with the larger tie key.
pub open spec fn most_specific_of(a: Error, b: Error) -> Error {
    if error_rank(a) > error_rank(b) {
        a
    } else if error_rank(a) < error_rank(b) {
        b
    } else if error_tie_key(a) >= error_tie_key(b) {
        a
    } else {
        b
    }
}

impl Error {
    /// Compares this error with `new` by rank and returns the more specific
    /// one; distinct errors of equal rank are ordered by their tie key, so
    /// the result does not depend on the order of the two.
    pub fn most_specific(self, new: Error) -> (r: Error)
        ensures
            r == most_specific_of(self, new),
    {
        let (ra, rb) = (self.rank(), new.rank());
        if ra > rb {
            self
        } else if ra < rb {
            new
        } else if self.tie_key() >= new.tie_key() {
            self
        } else {
            new
        }
    }

    /// The key that breaks ties of rank between distinct errors.
    pub fn tie_key(&self) -> (r: u32)
        ensures
            r as nat == error_tie_key(*self),
    {
        match self {
            Error::BadDer => 0,
            Error::BadDerTime => 32,
            Error::CaUsedAsEndEntity => 64,
            Error::CertExpired => 96,
            Error::CertNotValidForName => 128,
            Error::CertNotValidYet => 160,
            Error::CertRevoked => 192,
            Error::EndEntityUsedAsCa => 224,
            Error::ExtensionValueInvalid => 256,
            Error::InvalidCertValidity => 288,
            Error::InvalidCrlNumber => 320,
            Error::InvalidNetworkMaskConstraint => 352,
            Error::InvalidSerialNumber => 384,
            Error::InvalidCrlSignatureForPublicKey => 416,
            Error::InvalidSignatureForPublicKey => 448,
            Error::IssuerNotCrlSigner => 480,
            Error::MalformedDnsIdentifier => 512,
            Error::MalformedExtensions => 544,
            Error::MalformedNameConstraint => 576,
            Error::MaximumSignatureChecksExceeded => 608,
            Error::NameConstraintViolation => 640,
            Error::PathLenConstraintViolated => 672,
            Error::RequiredEkuNotFound => 704,
            Error::SignatureAlgorithmMismatch => 736,
            Error::TrailingData(k) => 768 + der_type_position(k),
            Error::UnknownIssuer => 800,
            Error::UnknownRevocationStatus => 832,
            Error::UnsupportedCertVersion => 864,
            Error::UnsupportedCriticalExtension => 896,
            Error::UnsupportedCrlIssuingDistributionPoint => 928,
            Error::UnsupportedCrlVersion => 960,
            Error::UnsupportedDeltaCrl => 992,
            Error::UnsupportedIndirectCrl => 1024,
            Error::UnsupportedRevocationReason => 1056,
            Error::UnsupportedRevocationReasonsPartitioning => 1088,
            Error::UnsupportedCrlSignatureAlgorithm => 1120,
            Error::UnsupportedSignatureAlgorithm => 1152,
            Error::UnsupportedCrlSignatureAlgorithmForPublicKey => 1184,
            Error::UnsupportedSignatureAlgorithmForPublicKey => 1216,
        }
    }


    /// A numeric indication of how specific the error is.
    pub fn rank(&self) -> (r: u32)
        ensures
            r as nat == error_rank(*self),
    {
        match self {
            Error::CertNotValidYet | Error::CertExpired => 29,
            Error::CertNotValidForName => 28,
            Error::CertRevoked | Error::UnknownRevocationStatus => 27,
            Error::InvalidCrlSignatureForPublicKey | Error::InvalidSignatureForPublicKey => 26,
            Error::SignatureAlgorithmMismatch => 25,
            Error::RequiredEkuNotFound => 24,
            Error::NameConstraintViolation => 23,
            Error::PathLenConstraintViolated => 22,
            Error::CaUsedAsEndEntity | Error::EndEntityUsedAsCa => 21,
            Error::IssuerNotCrlSigner => 20,
            Error::InvalidCertValidity => 19,
            Error::InvalidNetworkMaskConstraint => 18,
            Error::InvalidSerialNumber => 17,
            Error::InvalidCrlNumber => 16,
            Error::UnsupportedCrlSignatureAlgorithmForPublicKey
            | Error::UnsupportedSignatureAlgorithmForPublicKey => 15,
            Error::UnsupportedCrlSignatureAlgorithm | Error::UnsupportedSignatureAlgorithm => 14,
            Error::UnsupportedCriticalExtension => 13,
            Error::UnsupportedCertVersion => 13,
            Error::UnsupportedCrlVersion => 12,
            Error::UnsupportedDeltaCrl => 11,
            Error::UnsupportedIndirectCrl => 10,
            Error::UnsupportedRevocationReason => 9,
            Error::UnsupportedRevocationReasonsPartitioning => 8,
            Error::UnsupportedCrlIssuingDistributionPoint => 7,
            Error::MalformedDnsIdentifier => 6,
            Error::MalformedNameConstraint => 5,
            Error::MalformedExtensions | Error::TrailingData(_) => 4,
            Error::ExtensionValueInvalid => 3,
            Error::BadDerTime => 2,
            Error::BadDer => 1,
            Error::MaximumSignatureChecksExceeded => 0,
            Error::UnknownIssuer => 0,
        }
    }

    /// The name of the error kind, as a `String`.
    pub fn to_string(&self) -> String {
        let s = match self {
            Error::BadDer => "BadDer",
            Error::BadDerTime => "BadDerTime",
            Error::CaUsedAsEndEntity => "CaUsedAsEndEntity",
            Error::CertExpired => "CertExpired",
            Error::CertNotValidForName => "CertNotValidForName",
            Error::CertNotValidYet => "CertNotValidYet",
            Error::CertRevoked => "CertRevoked",
            Error::EndEntityUsedAsCa => "EndEntityUsedAsCa",
            Error::ExtensionValueInvalid => "ExtensionValueInvalid",
            Error::InvalidCertValidity => "InvalidCertValidity",
            Error::InvalidCrlNumber => "InvalidCrlNumber",
            Error::InvalidNetworkMaskConstraint => "InvalidNetworkMaskConstraint",
            Error::InvalidSerialNumber => "InvalidSerialNumber",
            Error::InvalidCrlSignatureForPublicKey => "InvalidCrlSignatureForPublicKey",
            Error::InvalidSignatureForPublicKey => "InvalidSignatureForPublicKey",
            Error::IssuerNotCrlSigner => "IssuerNotCrlSigner",
            Error::MalformedDnsIdentifier => "MalformedDnsIdentifier",
            Error::MalformedExtensions => "MalformedExtensions",
            Error::MalformedNameConstraint => "MalformedNameConstraint",
            Error::MaximumSignatureChecksExceeded => "MaximumSignatureChecksExceeded",
            Error::NameConstraintViolation => "NameConstraintViolation",
            Error::PathLenConstraintViolated => "PathLenConstraintViolated",
            Error::RequiredEkuNotFound => "RequiredEkuNotFound",
            Error::SignatureAlgorithmMismatch => "SignatureAlgorithmMismatch",
            Error::TrailingData(_) => "TrailingData",
            Error::UnknownIssuer => "UnknownIssuer",
            Error::UnknownRevocationStatus => "UnknownRevocationStatus",
            Error::UnsupportedCertVersion => "UnsupportedCertVersion",
            Error::UnsupportedCriticalExtension => "UnsupportedCriticalExtension",
            Error::UnsupportedCrlIssuingDistributionPoint => "UnsupportedCrlIssuingDistributionPoint",
            Error::UnsupportedCrlVersion => "UnsupportedCrlVersion",
            Error::UnsupportedDeltaCrl => "UnsupportedDeltaCrl",
            Error::UnsupportedIndirectCrl => "UnsupportedIndirectCrl",
            Error::UnsupportedRevocationReason => "UnsupportedRevocationReason",
            Error::UnsupportedRevocationReasonsPartitioning => "UnsupportedRevocationReasonsPartitioning",
            Error::UnsupportedCrlSignatureAlgorithm => "UnsupportedCrlSignatureAlgorithm",
            Error::UnsupportedSignatureAlgorithm => "UnsupportedSignatureAlgorithm",
            Error::UnsupportedCrlSignatureAlgorithmForPublicKey => "UnsupportedCrlSignatureAlgorithmForPublicKey",
            Error::UnsupportedSignatureAlgorithmForPublicKey => "UnsupportedSignatureAlgorithmForPublicKey",
        };
        s.to_string()
    }
}

/// The rank of the more specific of two errors is the larger of their ranks.
pub proof fn lemma_most_specific_rank_is_max(a: Error, b: Error)
    ensures
        error_rank(most_specific_of(a, b)) == if error_rank(a) >= error_rank(b) {
            error_rank(a)
        } else {
            error_rank(b)
        },
{
}

/// Distinct errors have distinct tie keys.
proof fn lemma_tie_key_injective(a: Error, b: Error)
    ensures
        error_tie_key(a) == error_tie_key(b) ==> a == b,
{
}

/// Choosing the more specific error does not depend on the order of the two
/// arguments.
pub proof fn lemma_most_specific_commutative(a: Error, b: Error)
    ensures
        most_specific_of(a, b) == most_specific_of(b, a),
{
    lemma_tie_key_injective(a, b);
}

/// Combining errors with `most_specific` is associative: folding the errors of
/// several branches gives the same result whichever way they are grouped.
pub proof fn lemma_most_specific_associative(a: Error, b: Error, c: Error)
    ensures
        most_specific_of(most_specific_of(a, b), c) == most_specific_of(
            a,
            most_specific_of(b, c),
        ),
{
    lemma_tie_key_injective(a, b);
    lemma_tie_key_injective(b, c);
    lemma_tie_key_injective(a, c);
}

} // verus!
