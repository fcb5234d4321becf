use webpki_core::{DerTypeId, Error};

#[test]
fn ranks_follow_the_taxonomy() {
    assert_eq!(Error::CertExpired.rank(), 29);
    assert_eq!(Error::CertNotValidYet.rank(), 29);
    assert_eq!(Error::CertNotValidForName.rank(), 28);
    assert_eq!(Error::CertRevoked.rank(), 27);
    assert_eq!(Error::RequiredEkuNotFound.rank(), 24);
    assert_eq!(Error::NameConstraintViolation.rank(), 23);
    assert_eq!(Error::PathLenConstraintViolated.rank(), 22);
    assert_eq!(Error::UnsupportedCertVersion.rank(), 13);
    assert_eq!(Error::UnsupportedCriticalExtension.rank(), 13);
    assert_eq!(Error::TrailingData(DerTypeId::Time).rank(), 4);
    assert_eq!(Error::BadDerTime.rank(), 2);
    assert_eq!(Error::BadDer.rank(), 1);
    assert_eq!(Error::UnknownIssuer.rank(), 0);
    assert_eq!(Error::MaximumSignatureChecksExceeded.rank(), 0);
}

#[test]
fn expired_outranks_unknown_issuer() {
    assert_eq!(
        Error::UnknownIssuer.most_specific(Error::CertExpired),
        Error::CertExpired
    );
    assert_eq!(
        Error::CertExpired.most_specific(Error::UnknownIssuer),
        Error::CertExpired
    );
}

#[test]
fn most_specific_breaks_ties_by_variant() {
    assert_eq!(
        Error::CertExpired.most_specific(Error::CertNotValidYet),
        Error::CertNotValidYet
    );
    assert_eq!(
        Error::CertNotValidYet.most_specific(Error::CertExpired),
        Error::CertNotValidYet
    );
    assert_eq!(
        Error::TrailingData(DerTypeId::Time).most_specific(Error::TrailingData(DerTypeId::Bool)),
        Error::TrailingData(DerTypeId::Time)
    );
    assert!(Error::CertNotValidYet.tie_key() > Error::CertExpired.tie_key());
}

#[test]
fn most_specific_rank_is_max_and_grouping_free() {
    let all = [
        Error::BadDer,
        Error::BadDerTime,
        Error::CertExpired,
        Error::UnknownIssuer,
        Error::NameConstraintViolation,
        Error::TrailingData(DerTypeId::Certificate),
        Error::InvalidSerialNumber,
    ];
    for a in all {
        for b in all {
            let m = a.most_specific(b);
            assert_eq!(m.rank(), a.rank().max(b.rank()));
            assert_eq!(m, b.most_specific(a));
            for c in all {
                assert_eq!(
                    a.most_specific(b).most_specific(c),
                    a.most_specific(b.most_specific(c))
                );
            }
        }
    }
}

#[test]
fn error_names() {
    assert_eq!(Error::CertExpired.to_string(), "CertExpired");
    assert_eq!(Error::TrailingData(DerTypeId::Time).to_string(), "TrailingData");
}
