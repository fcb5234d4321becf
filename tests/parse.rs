use webpki_core::cert::{parse_cert, split_spki};
use webpki_core::{EndEntityCert, Error, GeneralName};

fn tlv(tag: u8, contents: &[u8]) -> Vec<u8> {
    let mut v = vec![tag];
    if contents.len() < 0x80 {
        v.push(contents.len() as u8);
    } else if contents.len() < 0x100 {
        v.push(0x81);
        v.push(contents.len() as u8);
    } else {
        v.push(0x82);
        v.push((contents.len() >> 8) as u8);
        v.push(contents.len() as u8);
    }
    v.extend_from_slice(contents);
    v
}

fn cat(parts: &[Vec<u8>]) -> Vec<u8> {
    parts.concat()
}

fn name(cn: &str) -> Vec<u8> {
    tlv(0x30, &tlv(0x31, &tlv(0x30, &cat(&[tlv(0x06, &[0x55, 0x04, 0x03]), tlv(0x0c, cn.as_bytes())]))))
}

fn alg() -> Vec<u8> {
    tlv(0x30, &tlv(0x06, &[0x2a, 0x86, 0x48, 0xce, 0x3d, 0x04, 0x03, 0x02]))
}

fn ext(last: u8, critical: bool, value: Vec<u8>) -> Vec<u8> {
    let mut parts = vec![tlv(0x06, &[0x55, 0x1d, last])];
    if critical {
        parts.push(tlv(0x01, &[0xff]));
    }
    parts.push(tlv(0x04, &value));
    tlv(0x30, &cat(&parts))
}

struct Spec {
    version: Option<u8>,
    serial: Vec<u8>,
    inner_alg: Vec<u8>,
    not_before: &'static str,
    not_after: &'static str,
    extensions: Vec<Vec<u8>>,
}

fn default_spec() -> Spec {
    Spec {
        version: Some(2),
        serial: vec![0x01, 0x02],
        inner_alg: alg(),
        not_before: "20170101000000Z",
        not_after: "20180101000000Z",
        extensions: vec![
            ext(0x13, true, tlv(0x30, &[])),
            ext(0x11, false, tlv(0x30, &cat(&[tlv(0x82, b"example.com"), tlv(0x87, &[192, 0, 2, 1])]))),
            ext(0x25, false, tlv(0x30, &tlv(0x06, &[0x2b, 0x06, 0x01, 0x05, 0x05, 0x07, 0x03, 0x01]))),
        ],
    }
}

fn build(spec: &Spec) -> Vec<u8> {
    let mut tbs_parts = vec![];
    if let Some(v) = spec.version {
        tbs_parts.push(tlv(0xa0, &tlv(0x02, &[v])));
    }
    tbs_parts.push(tlv(0x02, &spec.serial));
    tbs_parts.push(spec.inner_alg.clone());
    tbs_parts.push(name("issuer"));
    tbs_parts.push(tlv(0x30, &cat(&[
        tlv(0x18, spec.not_before.as_bytes()),
        tlv(0x18, spec.not_after.as_bytes()),
    ])));
    tbs_parts.push(name("subject"));
    tbs_parts.push(tlv(0x30, &cat(&[alg(), tlv(0x03, &[0x00, 0x04, 0x01, 0x02])])));
    if !spec.extensions.is_empty() {
        tbs_parts.push(tlv(0xa3, &tlv(0x30, &cat(&spec.extensions))));
    }
    let tbs = tlv(0x30, &cat(&tbs_parts));
    tlv(0x30, &cat(&[tbs, alg(), tlv(0x03, &[0x00, 0xaa, 0xbb])]))
}

#[test]
fn parses_a_v3_certificate() {
    let der = build(&default_spec());
    let c = parse_cert(&der).unwrap();
    assert_eq!(c.serial, vec![0x01, 0x02]);
    assert_eq!(c.not_before.as_secs(), 1_483_228_800);
    assert_eq!(c.not_after.as_secs(), 1_514_764_800);
    assert!(!c.is_ca);
    assert_eq!(c.path_len_constraint, None);
    assert_eq!(c.signature, vec![0xaa, 0xbb]);
    assert_eq!(c.signature_alg, alg()[2..].to_vec());
    assert_eq!(c.spki.algorithm, alg()[2..].to_vec());
    assert_eq!(c.spki.key, vec![0x04, 0x01, 0x02]);
    let spki = cat(&[alg(), tlv(0x03, &[0x00, 0x04, 0x01, 0x02])]);
    assert_eq!(split_spki(&spki), Ok((alg()[2..].to_vec(), vec![0x04, 0x01, 0x02])));
    assert_eq!(split_spki(&cat(&[alg(), tlv(0x03, &[0x01, 0x04])])), Err(Error::BadDer));
    assert_eq!(c.issuer, name("issuer")[2..].to_vec());
    assert_eq!(c.eku, Some(vec![vec![0x2b, 0x06, 0x01, 0x05, 0x05, 0x07, 0x03, 0x01]]));
    assert_eq!(c.subject_alt_names.len(), 2);
    assert!(matches!(&c.subject_alt_names[0], GeneralName::DnsName(n) if n == b"example.com"));
    assert!(matches!(&c.subject_alt_names[1], GeneralName::IpAddress(a) if a == &vec![192, 0, 2, 1]));
    let ee = EndEntityCert::try_from(&der).unwrap();
    assert_eq!(ee.dns_names(), vec![b"example.com".to_vec()]);
}

#[test]
fn reads_ca_basic_constraints_and_key_usage() {
    let mut spec = default_spec();
    spec.extensions = vec![
        ext(0x13, true, tlv(0x30, &cat(&[tlv(0x01, &[0xff]), tlv(0x02, &[0x00])]))),
        ext(0x0f, true, tlv(0x03, &[0x01, 0x06])),
        ext(0x1e, true, tlv(0x30, &tlv(0xa0, &tlv(0x30, &tlv(0x82, b".example.com"))))),
    ];
    let c = parse_cert(&build(&spec)).unwrap();
    assert!(c.is_ca);
    assert_eq!(c.path_len_constraint, Some(0));
    assert_eq!(c.key_usage_crl_sign, Some(true));
    assert_eq!(c.name_constraints.permitted_dns, Some(vec![b".example.com".to_vec()]));
}

#[test]
fn negative_serial_in_certificate() {
    let mut spec = default_spec();
    spec.serial = vec![0xff];
    assert_eq!(parse_cert(&build(&spec)).err(), Some(Error::InvalidSerialNumber));
    spec.serial = vec![0x01; 21];
    assert_eq!(parse_cert(&build(&spec)).err(), Some(Error::InvalidSerialNumber));
    spec.serial = vec![0x00, 0x01];
    assert_eq!(parse_cert(&build(&spec)).err(), Some(Error::InvalidSerialNumber));
}

#[test]
fn v1_certificate_is_unsupported() {
    let mut spec = default_spec();
    spec.version = None;
    assert_eq!(parse_cert(&build(&spec)).err(), Some(Error::UnsupportedCertVersion));
    spec.version = Some(1);
    assert_eq!(parse_cert(&build(&spec)).err(), Some(Error::UnsupportedCertVersion));
}

#[test]
fn signature_algorithm_mismatch() {
    let mut spec = default_spec();
    spec.inner_alg = tlv(0x30, &tlv(0x06, &[0x2a, 0x86, 0x48, 0xce, 0x3d, 0x04, 0x03, 0x03]));
    assert_eq!(parse_cert(&build(&spec)).err(), Some(Error::SignatureAlgorithmMismatch));
}

#[test]
fn inverted_validity() {
    let mut spec = default_spec();
    spec.not_before = "20190101000000Z";
    assert_eq!(parse_cert(&build(&spec)).err(), Some(Error::InvalidCertValidity));
}

#[test]
fn pre_epoch_validity_is_bad_time() {
    let mut spec = default_spec();
    spec.not_before = "19690101000000Z";
    assert_eq!(parse_cert(&build(&spec)).err(), Some(Error::BadDerTime));
}

#[test]
fn unknown_critical_extension() {
    let mut spec = default_spec();
    spec.extensions.push(ext(0x20, true, tlv(0x30, &[])));
    assert_eq!(parse_cert(&build(&spec)).err(), Some(Error::UnsupportedCriticalExtension));
    spec.extensions.pop();
    spec.extensions.push(ext(0x20, false, tlv(0x30, &[])));
    assert!(parse_cert(&build(&spec)).is_ok());
}

#[test]
fn trailing_bytes_after_certificate() {
    let mut der = build(&default_spec());
    der.push(0);
    assert!(parse_cert(&der).is_err());
    assert_eq!(parse_cert(&[]).err(), Some(Error::BadDer));
}

#[test]
fn ip_name_constraints_need_cidr_masks() {
    let subtree = |base: &[u8]| tlv(0x30, &tlv(0x87, base));
    let mut spec = default_spec();
    spec.extensions = vec![ext(0x1e, true, tlv(0x30, &tlv(0xa1, &subtree(&[10, 0, 0, 0, 255, 0, 0, 0]))))];
    let c = parse_cert(&build(&spec)).unwrap();
    assert_eq!(c.name_constraints.excluded_ip, vec![vec![10, 0, 0, 0, 255, 0, 0, 0]]);
    spec.extensions = vec![ext(0x1e, true, tlv(0x30, &tlv(0xa0, &subtree(&[10, 0, 0, 0, 255, 0, 255, 0]))))];
    assert_eq!(parse_cert(&build(&spec)).err(), Some(Error::InvalidNetworkMaskConstraint));
    spec.extensions = vec![ext(0x1e, true, tlv(0x30, &tlv(0xa0, &subtree(&[10, 0, 0, 0, 255]))))];
    assert_eq!(parse_cert(&build(&spec)).err(), Some(Error::InvalidNetworkMaskConstraint));
}
