use webpki_core::verify_cert::{
    build_chain, Crl, RevocationCheckDepth, RevocationOptions, UnknownStatusPolicy,
    MAX_SIGNATURE_CHECKS,
};
use webpki_core::cert::NameConstraints;
use webpki_core::{
    Cert, ChainOptions, EndEntityCert, Error, GeneralName, PublicKeyInfo, SignatureAlgorithm,
    SubjectNameRef, Time, TrustAnchor,
};

/// A stand-in for a signature primitive: the algorithm `toy` over keys of
/// kind `toykey`, under which a signature is valid when it is the key
/// followed by the message.
struct ToyAlgorithm;

impl SignatureAlgorithm for ToyAlgorithm {
    fn sig_alg_id(&self) -> Vec<u8> {
        b"toy".to_vec()
    }

    fn pk_alg_id(&self) -> Vec<u8> {
        b"toykey".to_vec()
    }

    fn verifies(&self, key: Vec<u8>, msg: Vec<u8>, signature: Vec<u8>) -> bool {
        let mut expected = key;
        expected.extend_from_slice(&msg);
        expected == signature
    }

    fn signature_alg_id(&self) -> Vec<u8> {
        self.sig_alg_id()
    }

    fn public_key_alg_id(&self) -> Vec<u8> {
        self.pk_alg_id()
    }

    fn verify_signature(&self, key: &Vec<u8>, msg: &Vec<u8>, signature: &Vec<u8>) -> bool {
        self.verifies(key.clone(), msg.clone(), signature.clone())
    }
}

fn algs() -> Vec<ToyAlgorithm> {
    vec![ToyAlgorithm]
}

fn key(owner: &str) -> PublicKeyInfo {
    PublicKeyInfo {
        algorithm: b"toykey".to_vec(),
        key: format!("key of {}", owner).into_bytes(),
    }
}

const SERVER_AUTH: &[u8] = &[0x2b, 0x06, 0x01, 0x05, 0x05, 0x07, 0x03, 0x01];
const CLIENT_AUTH: &[u8] = &[0x2b, 0x06, 0x01, 0x05, 0x05, 0x07, 0x03, 0x02];

const NOT_BEFORE: u64 = 1_483_228_800;
const NOT_AFTER: u64 = 1_514_764_799;

fn cert(subject: &str, issuer: &str, issuer_key: &str, is_ca: bool) -> Cert {
    let tbs = format!("tbs of {}", subject).into_bytes();
    let mut signature = issuer_key.as_bytes().to_vec();
    signature.extend_from_slice(&tbs);
    Cert {
        serial: format!("serial of {}", subject).into_bytes(),
        issuer: issuer.as_bytes().to_vec(),
        subject: subject.as_bytes().to_vec(),
        spki: key(subject),
        not_before: Time::from_seconds_since_unix_epoch(NOT_BEFORE),
        not_after: Time::from_seconds_since_unix_epoch(NOT_AFTER),
        is_ca,
        path_len_constraint: None,
        key_usage_crl_sign: None,
        eku: if is_ca { None } else { Some(vec![SERVER_AUTH.to_vec()]) },
        subject_alt_names: if is_ca {
            vec![]
        } else {
            vec![GeneralName::DnsName(b"example.com".to_vec())]
        },
        name_constraints: NameConstraints::unconstrained(),
        signature_alg: b"toy".to_vec(),
        tbs,
        signature,
    }
}

fn anchor(subject: &str) -> TrustAnchor {
    TrustAnchor {
        subject: subject.as_bytes().to_vec(),
        spki: key(subject),
        name_constraints: NameConstraints::unconstrained(),
    }
}

fn options(anchors: Vec<TrustAnchor>, intermediates: Vec<Cert>, time: u64) -> ChainOptions {
    ChainOptions {
        revocation: None,
        eku: SERVER_AUTH.to_vec(),
        allow_absent_eku: true,
        trust_anchors: anchors,
        intermediate_certs: intermediates,
        time: Time::from_seconds_since_unix_epoch(time),
    }
}

#[test]
fn end_entity_signed_by_anchor_is_valid() {
    let ee = EndEntityCert::new(cert("ee", "root", "key of root", false));
    let o = options(vec![anchor("root")], vec![], NOT_BEFORE + 100);
    assert_eq!(ee.verify_for_usage(&algs(), &o), Ok(()));
    let name = SubjectNameRef::DnsName(b"example.com".to_vec());
    assert_eq!(ee.verify_is_valid_for_subject_name(&name), Ok(()));
}

#[test]
fn validity_bounds_are_inclusive() {
    let ee = EndEntityCert::new(cert("ee", "root", "key of root", false));
    let at_start = options(vec![anchor("root")], vec![], NOT_BEFORE);
    let at_end = options(vec![anchor("root")], vec![], NOT_AFTER);
    assert_eq!(ee.verify_for_usage(&algs(), &at_start), Ok(()));
    assert_eq!(ee.verify_for_usage(&algs(), &at_end), Ok(()));
}

#[test]
fn one_second_past_not_after_is_expired() {
    let ee = EndEntityCert::new(cert("ee", "root", "key of root", false));
    let o = options(vec![anchor("root")], vec![], NOT_AFTER + 1);
    assert_eq!(ee.verify_for_usage(&algs(), &o), Err(Error::CertExpired));
}

#[test]
fn before_not_before_is_not_valid_yet() {
    let ee = EndEntityCert::new(cert("ee", "root", "key of root", false));
    let o = options(vec![anchor("root")], vec![], NOT_BEFORE - 1);
    assert_eq!(ee.verify_for_usage(&algs(), &o), Err(Error::CertNotValidYet));
}

#[test]
fn expired_outranks_unknown_issuer_in_search() {
    // One branch ends at an unknown issuer, the other at an expired CA.
    let ee = cert("ee", "ca", "key of ca", false);
    let mut expired_ca = cert("ca", "root", "key of root", true);
    expired_ca.not_after = Time::from_seconds_since_unix_epoch(NOT_BEFORE + 10);
    let orphan_ca = {
        let mut c = cert("ca", "nobody", "key of nobody", true);
        c.spki = key("ca");
        c
    };
    let o = options(vec![anchor("root")], vec![orphan_ca, expired_ca], NOT_BEFORE + 100);
    let ee = EndEntityCert::new(ee);
    assert_eq!(ee.verify_for_usage(&algs(), &o), Err(Error::CertExpired));
}

#[test]
fn chain_through_intermediates() {
    let ee = EndEntityCert::new(cert("ee", "int1", "key of int1", false));
    let int1 = cert("int1", "int2", "key of int2", true);
    let int2 = cert("int2", "root", "key of root", true);
    let o = options(vec![anchor("root")], vec![int2, int1], NOT_BEFORE + 100);
    assert_eq!(ee.verify_for_usage(&algs(), &o), Ok(()));
}

#[test]
fn path_len_constraint_zero_with_a_ca_below() {
    let ee = EndEntityCert::new(cert("ee", "int1", "key of int1", false));
    let int1 = cert("int1", "int2", "key of int2", true);
    let mut int2 = cert("int2", "root", "key of root", true);
    int2.path_len_constraint = Some(0);
    let o = options(vec![anchor("root")], vec![int1, int2], NOT_BEFORE + 100);
    assert_eq!(
        ee.verify_for_usage(&algs(), &o),
        Err(Error::PathLenConstraintViolated)
    );
}

#[test]
fn path_len_constraint_zero_directly_above_end_entity() {
    let ee = EndEntityCert::new(cert("ee", "int1", "key of int1", false));
    let mut int1 = cert("int1", "root", "key of root", true);
    int1.path_len_constraint = Some(0);
    let o = options(vec![anchor("root")], vec![int1], NOT_BEFORE + 100);
    assert_eq!(ee.verify_for_usage(&algs(), &o), Ok(()));
}

#[test]
fn name_constraint_excludes_other_domain() {
    let mut ee = cert("ee", "int1", "key of int1", false);
    ee.subject_alt_names = vec![GeneralName::DnsName(b"evil.test".to_vec())];
    let ee = EndEntityCert::new(ee);
    let mut int1 = cert("int1", "root", "key of root", true);
    int1.name_constraints.permitted_dns = Some(vec![b".example.com".to_vec()]);
    let o = options(vec![anchor("root")], vec![int1], NOT_BEFORE + 100);
    assert_eq!(
        ee.verify_for_usage(&algs(), &o),
        Err(Error::NameConstraintViolation)
    );
}

#[test]
fn name_constraint_permits_subdomain() {
    let mut ee = cert("ee", "int1", "key of int1", false);
    ee.subject_alt_names = vec![GeneralName::DnsName(b"www.Example.com".to_vec())];
    let ee = EndEntityCert::new(ee);
    let mut int1 = cert("int1", "root", "key of root", true);
    int1.name_constraints.permitted_dns = Some(vec![b".example.com".to_vec()]);
    let o = options(vec![anchor("root")], vec![int1], NOT_BEFORE + 100);
    assert_eq!(ee.verify_for_usage(&algs(), &o), Ok(()));
}

#[test]
fn excluded_subtree_is_a_violation() {
    let ee = EndEntityCert::new(cert("ee", "root", "key of root", false));
    let mut root = anchor("root");
    root.name_constraints.excluded_dns = vec![b"example.com".to_vec()];
    let o = options(vec![root], vec![], NOT_BEFORE + 100);
    assert_eq!(
        ee.verify_for_usage(&algs(), &o),
        Err(Error::NameConstraintViolation)
    );
}

#[test]
fn missing_eku_oid_is_rejected() {
    let mut ee = cert("ee", "root", "key of root", false);
    ee.eku = Some(vec![CLIENT_AUTH.to_vec()]);
    let ee = EndEntityCert::new(ee);
    let o = options(vec![anchor("root")], vec![], NOT_BEFORE + 100);
    assert_eq!(
        ee.verify_for_usage(&algs(), &o),
        Err(Error::RequiredEkuNotFound)
    );
}

#[test]
fn absent_eku_follows_policy() {
    let mut ee = cert("ee", "root", "key of root", false);
    ee.eku = None;
    let ee = EndEntityCert::new(ee);
    let mut o = options(vec![anchor("root")], vec![], NOT_BEFORE + 100);
    assert_eq!(ee.verify_for_usage(&algs(), &o), Ok(()));
    o.allow_absent_eku = false;
    assert_eq!(
        ee.verify_for_usage(&algs(), &o),
        Err(Error::RequiredEkuNotFound)
    );
}

#[test]
fn ca_as_end_entity_and_end_entity_as_ca() {
    let ee = EndEntityCert::new(cert("ee", "root", "key of root", true));
    let o = options(vec![anchor("root")], vec![], NOT_BEFORE + 100);
    assert_eq!(
        ee.verify_for_usage(&algs(), &o),
        Err(Error::CaUsedAsEndEntity)
    );

    let ee = EndEntityCert::new(cert("ee", "int1", "key of int1", false));
    let int1 = cert("int1", "root", "key of root", false);
    let o = options(vec![anchor("root")], vec![int1], NOT_BEFORE + 100);
    assert_eq!(
        ee.verify_for_usage(&algs(), &o),
        Err(Error::EndEntityUsedAsCa)
    );
}

#[test]
fn bad_signature_is_reported() {
    let ee = EndEntityCert::new(cert("ee", "root", "key of someone else", false));
    let o = options(vec![anchor("root")], vec![], NOT_BEFORE + 100);
    assert_eq!(
        ee.verify_for_usage(&algs(), &o),
        Err(Error::InvalidSignatureForPublicKey)
    );
}

#[test]
fn no_issuer_is_unknown_issuer() {
    let ee = EndEntityCert::new(cert("ee", "elsewhere", "key of elsewhere", false));
    let o = options(vec![anchor("root")], vec![], NOT_BEFORE + 100);
    assert_eq!(ee.verify_for_usage(&algs(), &o), Err(Error::UnknownIssuer));
}

#[test]
fn cycle_of_intermediates_terminates() {
    let ee = EndEntityCert::new(cert("ee", "a", "key of a", false));
    let a = cert("a", "b", "key of b", true);
    let b = cert("b", "a", "key of a", true);
    let o = options(vec![anchor("root")], vec![a, b], NOT_BEFORE + 100);
    assert_eq!(ee.verify_for_usage(&algs(), &o), Err(Error::UnknownIssuer));
}

#[test]
fn zero_budget_exceeds_signature_checks() {
    let ee = cert("ee", "root", "key of root", false);
    let o = options(vec![anchor("root")], vec![], NOT_BEFORE + 100);
    assert_eq!(
        build_chain(&o, &algs(), &ee, 0),
        (Err(Error::MaximumSignatureChecksExceeded), 0)
    );
    assert_eq!(build_chain(&o, &algs(), &ee, 1), (Ok(()), 1));
}

#[test]
fn budget_too_small_for_chain() {
    let ee = cert("ee", "int1", "key of int1", false);
    let int1 = cert("int1", "int2", "key of int2", true);
    let int2 = cert("int2", "root", "key of root", true);
    let o = options(vec![anchor("root")], vec![int1, int2], NOT_BEFORE + 100);
    assert_eq!(
        build_chain(&o, &algs(), &ee, 2),
        (Err(Error::MaximumSignatureChecksExceeded), 2)
    );
    assert_eq!(build_chain(&o, &algs(), &ee, 3), (Ok(()), 3));
    assert_eq!(MAX_SIGNATURE_CHECKS, 100);
}

#[test]
fn verify_signature_uses_certificate_key() {
    let ee = EndEntityCert::new(cert("ee", "root", "key of root", false));
    let mut sig = b"key of ee".to_vec();
    sig.extend_from_slice(b"hello");
    assert_eq!(ee.verify_signature(&algs(), b"toy", &b"hello".to_vec(), &sig), Ok(()));
    assert_eq!(
        ee.verify_signature(&algs(), b"toy", &b"hullo".to_vec(), &sig),
        Err(Error::InvalidSignatureForPublicKey)
    );
    assert_eq!(
        ee.verify_signature(&algs(), b"rot13", &b"hello".to_vec(), &sig),
        Err(Error::UnsupportedSignatureAlgorithm)
    );
}

fn crl(issuer: &str, issuer_key: &str, revoked: Vec<Vec<u8>>) -> Crl {
    let tbs = format!("crl of {}", issuer).into_bytes();
    let mut signature = issuer_key.as_bytes().to_vec();
    signature.extend_from_slice(&tbs);
    Crl {
        signature_alg: b"toy".to_vec(),
        issuer: issuer.as_bytes().to_vec(),
        revoked_serials: revoked,
        tbs,
        signature,
    }
}

fn revocation(crls: Vec<Crl>, depth: RevocationCheckDepth, policy: UnknownStatusPolicy) -> Option<RevocationOptions> {
    Some(RevocationOptions {
        crls,
        depth,
        status_policy: policy,
    })
}

fn two_level() -> (EndEntityCert, ChainOptions) {
    let ee = EndEntityCert::new(cert("ee", "int1", "key of int1", false));
    let mut int1 = cert("int1", "root", "key of root", true);
    int1.key_usage_crl_sign = Some(true);
    (ee, options(vec![anchor("root")], vec![int1], NOT_BEFORE + 100))
}

#[test]
fn revoked_end_entity_is_rejected() {
    let (ee, mut o) = two_level();
    o.revocation = revocation(
        vec![crl("int1", "key of int1", vec![b"serial of ee".to_vec()])],
        RevocationCheckDepth::EndEntity,
        UnknownStatusPolicy::Allow,
    );
    assert_eq!(ee.verify_for_usage(&algs(), &o), Err(Error::CertRevoked));
}

#[test]
fn crl_not_listing_serial_passes() {
    let (ee, mut o) = two_level();
    o.revocation = revocation(
        vec![crl("int1", "key of int1", vec![b"serial of other".to_vec()])],
        RevocationCheckDepth::EndEntity,
        UnknownStatusPolicy::Deny,
    );
    assert_eq!(ee.verify_for_usage(&algs(), &o), Ok(()));
}

#[test]
fn unknown_status_follows_policy() {
    let (ee, mut o) = two_level();
    o.revocation = revocation(vec![], RevocationCheckDepth::EndEntity, UnknownStatusPolicy::Deny);
    assert_eq!(
        ee.verify_for_usage(&algs(), &o),
        Err(Error::UnknownRevocationStatus)
    );
    o.revocation = revocation(vec![], RevocationCheckDepth::EndEntity, UnknownStatusPolicy::Allow);
    assert_eq!(ee.verify_for_usage(&algs(), &o), Ok(()));
}

#[test]
fn crl_issuer_without_crl_sign() {
    let (ee, mut o) = two_level();
    o.intermediate_certs[0].key_usage_crl_sign = Some(false);
    o.revocation = revocation(
        vec![crl("int1", "key of int1", vec![])],
        RevocationCheckDepth::EndEntity,
        UnknownStatusPolicy::Allow,
    );
    assert_eq!(
        ee.verify_for_usage(&algs(), &o),
        Err(Error::IssuerNotCrlSigner)
    );
}

#[test]
fn crl_with_bad_signature() {
    let (ee, mut o) = two_level();
    o.revocation = revocation(
        vec![crl("int1", "key of mallory", vec![])],
        RevocationCheckDepth::EndEntity,
        UnknownStatusPolicy::Allow,
    );
    assert_eq!(
        ee.verify_for_usage(&algs(), &o),
        Err(Error::InvalidCrlSignatureForPublicKey)
    );
}

#[test]
fn revoked_intermediate_only_checked_for_whole_chain() {
    let (ee, mut o) = two_level();
    let crls = vec![
        crl("int1", "key of int1", vec![]),
        crl("root", "key of root", vec![b"serial of int1".to_vec()]),
    ];
    o.revocation = revocation(crls, RevocationCheckDepth::EndEntity, UnknownStatusPolicy::Deny);
    assert_eq!(ee.verify_for_usage(&algs(), &o), Ok(()));
    let crls = vec![
        crl("int1", "key of int1", vec![]),
        crl("root", "key of root", vec![b"serial of int1".to_vec()]),
    ];
    o.revocation = revocation(crls, RevocationCheckDepth::Chain, UnknownStatusPolicy::Deny);
    assert_eq!(ee.verify_for_usage(&algs(), &o), Err(Error::CertRevoked));
}

#[test]
fn unsupported_signature_algorithm_in_chain() {
    let mut ee = cert("ee", "root", "key of root", false);
    ee.signature_alg = b"md2".to_vec();
    let ee = EndEntityCert::new(ee);
    let o = options(vec![anchor("root")], vec![], NOT_BEFORE + 100);
    assert_eq!(
        ee.verify_for_usage(&algs(), &o),
        Err(Error::UnsupportedSignatureAlgorithm)
    );
}

#[test]
fn ip_name_constraints() {
    let mut ee = cert("ee", "int1", "key of int1", false);
    ee.subject_alt_names = vec![GeneralName::IpAddress(vec![10, 1, 2, 3])];
    let ee = EndEntityCert::new(ee);
    let mut int1 = cert("int1", "root", "key of root", true);
    int1.name_constraints.permitted_ip = Some(vec![vec![10, 0, 0, 0, 255, 0, 0, 0]]);
    let o = options(vec![anchor("root")], vec![int1], NOT_BEFORE + 100);
    assert_eq!(ee.verify_for_usage(&algs(), &o), Ok(()));

    let mut ee = cert("ee", "int1", "key of int1", false);
    ee.subject_alt_names = vec![GeneralName::IpAddress(vec![192, 168, 0, 1])];
    let ee = EndEntityCert::new(ee);
    assert_eq!(
        ee.verify_for_usage(&algs(), &o),
        Err(Error::NameConstraintViolation)
    );
}

#[test]
fn self_issued_intermediate_does_not_count_for_path_length() {
    // ee <- int1 (self-issued, key rollover) <- int1 <- root, where the
    // top int1 allows no CA below it but the self-issued one.
    let ee = EndEntityCert::new(cert("ee", "int1", "key of new", false));
    let mut rollover = cert("int1", "int1", "key of old", true);
    rollover.spki = key("new");
    let mut top = cert("int1", "root", "key of root", true);
    top.spki = key("old");
    top.path_len_constraint = Some(0);
    let o = options(vec![anchor("root")], vec![rollover, top], NOT_BEFORE + 100);
    assert_eq!(ee.verify_for_usage(&algs(), &o), Ok(()));
}

#[test]
fn key_of_another_kind_is_unsupported_for_public_key() {
    let ee = EndEntityCert::new(cert("ee", "root", "key of root", false));
    let mut root = anchor("root");
    root.spki.algorithm = b"otherkey".to_vec();
    let o = options(vec![root], vec![], NOT_BEFORE + 100);
    assert_eq!(
        ee.verify_for_usage(&algs(), &o),
        Err(Error::UnsupportedSignatureAlgorithmForPublicKey)
    );
}
