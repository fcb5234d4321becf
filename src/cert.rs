//! The parsed view of an X.509 certificate that validation works on.

use vstd::prelude::*;

use crate::der::{
    lemma_value_at_tag, value_at, copy_range, der_value, expect_tag_at, read_boolean_at, read_tag_and_get_value, read_value_at,
    slice_range, TAG_BIT_STRING, TAG_INTEGER, TAG_OCTET_STRING, TAG_OID, TAG_SEQUENCE,
};
use crate::error::DerTypeId;
use crate::signed_data::PublicKeyInfo;
use crate::error::Error;
use crate::subject_name::{valid_presented_id, GeneralName};
use crate::time::Time;

verus! {

/// The fields of a certificate that path building and name checks read.
pub struct Cert {
    /// The serial number's contents, as DER INTEGER octets.
    pub serial: Vec<u8>,
    /// The issuer's distinguished name, as DER bytes.
    pub issuer: Vec<u8>,
    /// The subject's distinguished name, as DER bytes.
    pub subject: Vec<u8>,
    /// The subject's public key and its algorithm.
    pub spki: PublicKeyInfo,
    /// The start of the validity period.
    pub not_before: Time,
    /// The end of the validity period.
    pub not_after: Time,
    /// Whether basicConstraints marks the certificate as a CA.
    pub is_ca: bool,
    /// The pathLenConstraint of basicConstraints, if any.
    pub path_len_constraint: Option<u64>,
    /// Whether the KeyUsage extension sets cRLSign, or `None` where the
    /// extension is absent.
    pub key_usage_crl_sign: Option<bool>,
    /// The extended key usage OIDs, or `None` where the extension is absent.
    pub eku: Option<Vec<Vec<u8>>>,
    /// The names of the subjectAltName extension, in order.
    pub subject_alt_names: Vec<GeneralName>,
    /// The name constraints that the certificate, as a CA, imposes.
    pub name_constraints: NameConstraints,
    /// The signature algorithm, as AlgorithmIdentifier contents.
    pub signature_alg: Vec<u8>,
    /// The signed TBSCertificate bytes.
    pub tbs: Vec<u8>,
    /// The signature over `tbs`.
    pub signature: Vec<u8>,
}

/// The subtrees of name constraints, for DNS names and IP addresses. An IP
/// subtree is an address followed by a mask of the same length (8 octets
/// for IPv4, 32 for IPv6).
pub struct NameConstraints {
    /// DNS subtrees that are permitted, or `None` for no restriction.
    pub permitted_dns: Option<Vec<Vec<u8>>>,
    /// DNS subtrees that are excluded.
    pub excluded_dns: Vec<Vec<u8>>,
    /// IP subtrees that are permitted, or `None` for no restriction.
    pub permitted_ip: Option<Vec<Vec<u8>>>,
    /// IP subtrees that are excluded.
    pub excluded_ip: Vec<Vec<u8>>,
}

impl NameConstraints {
    /// Constraints that restrict nothing.
    pub fn unconstrained() -> (r: Self)
        ensures
            r.permitted_dns is None,
            r.excluded_dns@.len() == 0,
            r.permitted_ip is None,
            r.excluded_ip@.len() == 0,
    {
        NameConstraints {
            permitted_dns: None,
            excluded_dns: Vec::new(),
            permitted_ip: None,
            excluded_ip: Vec::new(),
        }
    }
}

/// The DNS names of `sans` that are well-formed presented identifiers, in
/// order.
pub open spec fn dns_names_of(sans: Seq<GeneralName>) -> Seq<Seq<u8>>
    decreases sans.len(),
{
    if sans.len() == 0 {
        Seq::empty()
    } else {
        let rest = dns_names_of(sans.drop_last());
        match sans.last() {
            GeneralName::DnsName(n) => if valid_presented_id(n@) {
                rest.push(n@)
            } else {
                rest
            },
            _ => rest,
        }
    }
}

/// The longest serial number allowed, in octets, not counting a leading zero
/// octet that keeps the value non-negative.
pub const MAX_SERIAL_LEN: usize = 20;

/// Whether the contents `v` of a DER INTEGER are a valid serial number:
/// non-empty, non-negative, minimally encoded, and at most `MAX_SERIAL_LEN`
/// octets once a leading zero octet is set aside.
pub open spec fn serial_valid(v: Seq<u8>) -> bool {
    &&& v.len() > 0
    &&& v[0] < 0x80
    &&& !(v.len() > 1 && v[0] == 0 && v[1] < 0x80)
    &&& (if v[0] == 0 { v.len() - 1 } else { v.len() as int }) <= MAX_SERIAL_LEN
}

/// What reading a serial number at the start of `input` gives: the range of
/// its contents, `BadDer` where it is no well-framed INTEGER, and
/// `InvalidSerialNumber` where its value is not allowed.
pub open spec fn serial_number_result(input: Seq<u8>) -> Result<(int, int), Error> {
    match der_value(input) {
        None => Err(Error::BadDer),
        Some((tag, start, len)) => if tag != TAG_INTEGER {
            Err(Error::BadDer)
        } else if serial_valid(input.subrange(start, start + len)) {
            Ok((start, len))
        } else {
            Err(Error::InvalidSerialNumber)
        },
    }
}

/// Reads the certificate serial number at the start of `input`, and returns
/// where its contents start and how long they are.
pub fn certificate_serial_number(input: &[u8]) -> (r: Result<(usize, usize), Error>)
    ensures
        match r {
            Ok((start, len)) => serial_number_result(input@) == Ok::<(int, int), Error>(
                (start as int, len as int),
            ),
            Err(e) => serial_number_result(input@) == Err::<(int, int), Error>(e),
        },
{
    let (tag, start, len) = match read_tag_and_get_value(input) {
        Ok(h) => h,
        Err(e) => return Err(e),
    };
    if tag != TAG_INTEGER {
        return Err(Error::BadDer);
    }
    let ghost v = input@.subrange(start as int, start + len);
    if len == 0 {
        return Err(Error::InvalidSerialNumber);
    }
    let first = input[start];
    assert(v[0] == first);
    if first >= 0x80 {
        return Err(Error::InvalidSerialNumber);
    }
    if len > 1 {
        assert(v[1] == input@[start + 1]);
        if first == 0 && input[start + 1] < 0x80 {
            return Err(Error::InvalidSerialNumber);
        }
    }
    let magnitude = if first == 0 {
        len - 1
    } else {
        len
    };
    if magnitude > MAX_SERIAL_LEN {
        return Err(Error::InvalidSerialNumber);
    }
    Ok((start, len))
}

/// The last octet of the OIDs of the certificate extensions that validation
/// reads, all under 2.5.29 (encoded 0x55 0x1D).
const EXT_KEY_USAGE: u8 = 0x0F;
const EXT_SUBJECT_ALT_NAME: u8 = 0x11;
const EXT_BASIC_CONSTRAINTS: u8 = 0x13;
const EXT_NAME_CONSTRAINTS: u8 = 0x1E;
const EXT_EXTENDED_KEY_USAGE: u8 = 0x25;

/// The tag of a TBSCertificate's explicit version field.
pub const TAG_VERSION: u8 = 0xA0;

/// Context-specific tags of a GeneralName and of certificate fields.
const TAG_DNS_NAME: u8 = 0x82;
const TAG_IP_ADDRESS: u8 = 0x87;
const TAG_ISSUER_UID: u8 = 0x81;
const TAG_SUBJECT_UID: u8 = 0x82;
const TAG_EXTENSIONS: u8 = 0xA3;
const TAG_PERMITTED_SUBTREES: u8 = 0xA0;
const TAG_EXCLUDED_SUBTREES: u8 = 0xA1;

/// The properties that every parsed certificate has.
pub open spec fn cert_invariant(c: Cert) -> bool {
    serial_valid(c.serial@) && c.not_before@ <= c.not_after@
}

/// The layout of a signed certificate `der`: a SEQUENCE that spans it and
/// holds the TBSCertificate (a SEQUENCE), the signature algorithm (a
/// SEQUENCE) and the signature (a BIT STRING with no unused bits), nothing
/// more. Given as (start of the TBSCertificate, its end, start of its
/// contents, start of the algorithm's contents, their end, start of the
/// signature's contents, their end).
pub open spec fn signed_layout(der: Seq<u8>) -> Option<(int, int, int, int, int, int, int)> {
    let n = der.len() as int;
    match value_at(der, 0, n) {
        None => None,
        Some((t0, os, oe)) => if t0 != TAG_SEQUENCE || oe != n {
            None
        } else {
            match value_at(der, os, oe) {
                None => None,
                Some((t1, ts, te)) => if t1 != TAG_SEQUENCE {
                    None
                } else {
                    match value_at(der, te, oe) {
                        None => None,
                        Some((t2, als, ale)) => if t2 != TAG_SEQUENCE {
                            None
                        } else {
                            match value_at(der, ale, oe) {
                                None => None,
                                Some((t3, ss, se)) => if t3 != TAG_BIT_STRING || se != oe || se - ss < 1
                                    || der[ss] != 0 {
                                    None
                                } else {
                                    Some((os, te, ts, als, ale, ss, se))
                                },
                            }
                        },
                    }
                },
            }
        },
    }
}

/// Where the serial number of the TBSCertificate contents
/// `der[tbs_s..tbs_e]` starts: after a version field `[0] { INTEGER 2 }`.
pub open spec fn serial_start(der: Seq<u8>, tbs_s: int, tbs_e: int) -> Option<int> {
    match value_at(der, tbs_s, tbs_e) {
        None => None,
        Some((t, vs, ve)) => if t != TAG_VERSION {
            None
        } else {
            match value_at(der, vs, ve) {
                None => None,
                Some((t2, is, ie)) => if t2 == TAG_INTEGER && ie == ve && ie - is == 1 && der[is] == 2 {
                    Some(ve)
                } else {
                    None
                },
            }
        },
    }
}

/// Where the TBSCertificate contents `der[tbs_s..tbs_e]` hold their
/// signature AlgorithmIdentifier: the SEQUENCE right after the version and
/// the serial number, as the range of its contents.
pub open spec fn tbs_alg_at(der: Seq<u8>, tbs_s: int, tbs_e: int) -> Option<(int, int)> {
    match serial_start(der, tbs_s, tbs_e) {
        None => None,
        Some(p) => match serial_number_result(der.subrange(p, tbs_e)) {
            Err(_) => None,
            Ok((s, l)) => match value_at(der, p + s + l, tbs_e) {
                Some((t, x, y)) => if t == TAG_SEQUENCE {
                    Some((x, y))
                } else {
                    None
                },
                None => None,
            },
        },
    }
}

/// Reads the names of a subjectAltName value in `input[pos..end]`.
fn parse_general_names(input: &[u8], pos: usize, end: usize) -> (r: Result<Vec<GeneralName>, Error>)
    requires
        pos <= end <= input@.len(),
{
    let mut out: Vec<GeneralName> = Vec::new();
    let mut p = pos;
    while p < end
        invariant
            pos <= p <= end <= input@.len(),
        decreases end - p,
    {
        let (tag, s, e) = match read_value_at(input, p, end) {
            Ok(v) => v,
            Err(err) => return Err(err),
        };
        if tag == TAG_DNS_NAME {
            out.push(GeneralName::DnsName(copy_range(input, s, e)));
        } else if tag == TAG_IP_ADDRESS {
            out.push(GeneralName::IpAddress(copy_range(input, s, e)));
        } else {
            out.push(GeneralName::Other);
        }
        p = e;
    }
    Ok(out)
}

/// Reads a SEQUENCE OF OBJECT IDENTIFIER in `input[pos..end]`.
fn parse_oids(input: &[u8], pos: usize, end: usize) -> (r: Result<Vec<Vec<u8>>, Error>)
    requires
        pos <= end <= input@.len(),
{
    let mut out: Vec<Vec<u8>> = Vec::new();
    let mut p = pos;
    while p < end
        invariant
            pos <= p <= end <= input@.len(),
        decreases end - p,
    {
        let (s, e) = match expect_tag_at(input, p, end, TAG_OID) {
            Ok(v) => v,
            Err(err) => return Err(err),
        };
        out.push(copy_range(input, s, e));
        p = e;
    }
    Ok(out)
}

/// Whether `b` is a mask octet: some leading one bits, then zeros.
fn is_mask_octet(b: u8) -> bool {
    b == 0x00 || b == 0x80 || b == 0xC0 || b == 0xE0 || b == 0xF0 || b == 0xF8 || b == 0xFC || b
        == 0xFE || b == 0xFF
}

/// Whether the iPAddress subtree `input[s..e]` is an address of 4 or 16
/// octets followed by a mask of as many, written in CIDR form: ones, then
/// zeros.
fn is_valid_ip_subtree(input: &[u8], s: usize, e: usize) -> bool
    requires
        s <= e <= input@.len(),
{
    let len = e - s;
    if len != 8 && len != 32 {
        return false;
    }
    let mut i: usize = s + len / 2;
    let mut ended = false;
    while i < e
        invariant
            s <= i <= e <= input@.len(),
        decreases e - i,
    {
        let b = input[i];
        if !is_mask_octet(b) || (ended && b != 0) {
            return false;
        }
        if b != 0xFF {
            ended = true;
        }
        i = i + 1;
    }
    true
}

/// Reads the DNS and IP bases of a sequence of GeneralSubtrees in
/// `input[pos..end]`; other forms of name are set aside.
fn parse_subtrees(input: &[u8], pos: usize, end: usize) -> (r: Result<(Vec<Vec<u8>>, Vec<Vec<u8>>), Error>)
    requires
        pos <= end <= input@.len(),
{
    let mut dns: Vec<Vec<u8>> = Vec::new();
    let mut ips: Vec<Vec<u8>> = Vec::new();
    let mut p = pos;
    while p < end
        invariant
            pos <= p <= end <= input@.len(),
        decreases end - p,
    {
        let (s, e) = match expect_tag_at(input, p, end, TAG_SEQUENCE) {
            Ok(v) => v,
            Err(_) => return Err(Error::MalformedNameConstraint),
        };
        let (tag, bs, be) = match read_value_at(input, s, e) {
            Ok(v) => v,
            Err(_) => return Err(Error::MalformedNameConstraint),
        };
        if tag == TAG_DNS_NAME {
            dns.push(copy_range(input, bs, be));
        } else if tag == TAG_IP_ADDRESS {
            if !is_valid_ip_subtree(input, bs, be) {
                return Err(Error::InvalidNetworkMaskConstraint);
            }
            ips.push(copy_range(input, bs, be));
        }
        p = e;
    }
    Ok((dns, ips))
}

/// Reads a basicConstraints value in `input[pos..end]` into `c`.
fn parse_basic_constraints(input: &[u8], pos: usize, end: usize, c: &mut Cert) -> (r: Result<(), Error>)
    requires
        pos <= end <= input@.len(),
    ensures
        final(c).serial == old(c).serial,
        final(c).not_before == old(c).not_before,
        final(c).not_after == old(c).not_after,
{
    let (s, e) = match expect_tag_at(input, pos, end, TAG_SEQUENCE) {
        Ok(v) => v,
        Err(err) => return Err(err),
    };
    if e != end {
        return Err(Error::TrailingData(DerTypeId::Extension));
    }
    let mut p = s;
    if p < e && input[p] == crate::der::TAG_BOOLEAN {
        let (b, next) = match read_boolean_at(input, p, e) {
            Ok(v) => v,
            Err(err) => return Err(err),
        };
        c.is_ca = b;
        p = next;
    }
    if p < e {
        let (is, ie) = match expect_tag_at(input, p, e, TAG_INTEGER) {
            Ok(v) => v,
            Err(err) => return Err(err),
        };
        let len = ie - is;
        let value: u64 = if len == 1 && input[is] < 0x80 {
            input[is] as u64
        } else if len == 2 && input[is] == 0 && input[is + 1] >= 0x80 {
            input[is + 1] as u64
        } else {
            return Err(Error::BadDer);
        };
        c.path_len_constraint = Some(value);
        p = ie;
    }
    if p != e {
        return Err(Error::TrailingData(DerTypeId::Extension));
    }
    Ok(())
}

/// Reads a nameConstraints value in `input[pos..end]` into `c`.
fn parse_name_constraints(input: &[u8], pos: usize, end: usize, c: &mut Cert) -> (r: Result<(), Error>)
    requires
        pos <= end <= input@.len(),
    ensures
        final(c).serial == old(c).serial,
        final(c).not_before == old(c).not_before,
        final(c).not_after == old(c).not_after,
{
    let (s, e) = match expect_tag_at(input, pos, end, TAG_SEQUENCE) {
        Ok(v) => v,
        Err(_) => return Err(Error::MalformedNameConstraint),
    };
    let mut p = s;
    if p < e && input[p] == TAG_PERMITTED_SUBTREES {
        let (ps, pe) = match expect_tag_at(input, p, e, TAG_PERMITTED_SUBTREES) {
            Ok(v) => v,
            Err(_) => return Err(Error::MalformedNameConstraint),
        };
        let (dns, ips) = match parse_subtrees(input, ps, pe) {
            Ok(v) => v,
            Err(err) => return Err(err),
        };
        if dns.len() > 0 {
            c.name_constraints.permitted_dns = Some(dns);
        }
        if ips.len() > 0 {
            c.name_constraints.permitted_ip = Some(ips);
        }
        p = pe;
    }
    if p < e && input[p] == TAG_EXCLUDED_SUBTREES {
        let (xs, xe) = match expect_tag_at(input, p, e, TAG_EXCLUDED_SUBTREES) {
            Ok(v) => v,
            Err(_) => return Err(Error::MalformedNameConstraint),
        };
        let (dns, ips) = match parse_subtrees(input, xs, xe) {
            Ok(v) => v,
            Err(err) => return Err(err),
        };
        c.name_constraints.excluded_dns = dns;
        c.name_constraints.excluded_ip = ips;
        p = xe;
    }
    if p != e || e != end {
        return Err(Error::MalformedNameConstraint);
    }
    Ok(())
}

/// Reads one extension of the value in `input[pos..end]` with id
/// 2.5.29.`last` into `c`.
fn parse_extension_value(input: &[u8], pos: usize, end: usize, last: u8, c: &mut Cert) -> (r: Result<(), Error>)
    requires
        pos <= end <= input@.len(),
    ensures
        final(c).serial == old(c).serial,
        final(c).not_before == old(c).not_before,
        final(c).not_after == old(c).not_after,
{
    if last == EXT_BASIC_CONSTRAINTS {
        parse_basic_constraints(input, pos, end, c)
    } else if last == EXT_NAME_CONSTRAINTS {
        parse_name_constraints(input, pos, end, c)
    } else if last == EXT_SUBJECT_ALT_NAME || last == EXT_EXTENDED_KEY_USAGE {
        let (s, e) = match expect_tag_at(input, pos, end, TAG_SEQUENCE) {
            Ok(v) => v,
            Err(err) => return Err(err),
        };
        if e != end {
            return Err(Error::TrailingData(DerTypeId::Extension));
        }
        if last == EXT_SUBJECT_ALT_NAME {
            c.subject_alt_names = match parse_general_names(input, s, e) {
                Ok(v) => v,
                Err(err) => return Err(err),
            };
        } else {
            c.eku = match parse_oids(input, s, e) {
                Ok(v) => Some(v),
                Err(err) => return Err(err),
            };
        }
        Ok(())
    } else {
        let (s, e) = match expect_tag_at(input, pos, end, TAG_BIT_STRING) {
            Ok(v) => v,
            Err(err) => return Err(err),
        };
        if e != end || e - s < 2 || input[s] > 7 {
            return Err(Error::BadDer);
        }
        c.key_usage_crl_sign = Some(input[s + 1] & 0x02 != 0);
        Ok(())
    }
}

/// Reads the extensions in `input[pos..end]` into `c`.
fn parse_extensions(input: &[u8], pos: usize, end: usize, c: &mut Cert) -> (r: Result<(), Error>)
    requires
        pos <= end <= input@.len(),
    ensures
        final(c).serial == old(c).serial,
        final(c).not_before == old(c).not_before,
        final(c).not_after == old(c).not_after,
{
    let mut p = pos;
    while p < end
        invariant
            pos <= p <= end <= input@.len(),
            c.serial == old(c).serial,
            c.not_before == old(c).not_before,
            c.not_after == old(c).not_after,
        decreases end - p,
    {
        let (s, e) = match expect_tag_at(input, p, end, TAG_SEQUENCE) {
            Ok(v) => v,
            Err(err) => return Err(err),
        };
        let (os, oe) = match expect_tag_at(input, s, e, TAG_OID) {
            Ok(v) => v,
            Err(err) => return Err(err),
        };
        let mut q = oe;
        let mut critical = false;
        if q < e && input[q] == crate::der::TAG_BOOLEAN {
            let (b, next) = match read_boolean_at(input, q, e) {
                Ok(v) => v,
                Err(err) => return Err(err),
            };
            critical = b;
            q = next;
        }
        let (vs, ve) = match expect_tag_at(input, q, e, TAG_OCTET_STRING) {
            Ok(v) => v,
            Err(err) => return Err(err),
        };
        if ve != e {
            return Err(Error::TrailingData(DerTypeId::Extension));
        }
        let known = oe - os == 3 && input[os] == 0x55 && input[os + 1] == 0x1D && (input[os + 2]
            == EXT_KEY_USAGE || input[os + 2] == EXT_SUBJECT_ALT_NAME || input[os + 2]
            == EXT_BASIC_CONSTRAINTS || input[os + 2] == EXT_NAME_CONSTRAINTS || input[os + 2]
            == EXT_EXTENDED_KEY_USAGE);
        if known {
            match parse_extension_value(input, vs, ve, input[os + 2], c) {
                Ok(()) => {},
                Err(err) => return Err(err),
            }
        } else if critical {
            return Err(Error::UnsupportedCriticalExtension);
        }
        p = e;
    }
    Ok(())
}

/// Reads the signed layout of `der`.
fn parse_signed(der: &[u8]) -> (r: Result<(usize, usize, usize, usize, usize, usize, usize), Error>)
    ensures
        match r {
            Ok((os, te, ts, als, ale, ss, se)) => signed_layout(der@) == Some(
                (os as int, te as int, ts as int, als as int, ale as int, ss as int, se as int),
            ) && os <= ts <= te <= als <= ale <= ss < se <= der@.len(),
            Err(_) => signed_layout(der@) is None,
        },
{
    let end = der.len();
    let (outer_s, outer_e) = match expect_tag_at(der, 0, end, TAG_SEQUENCE) {
        Ok(v) => v,
        Err(err) => return Err(err),
    };
    if outer_e != end {
        return Err(Error::TrailingData(DerTypeId::Certificate));
    }
    let (tbs_s, tbs_e) = match expect_tag_at(der, outer_s, outer_e, TAG_SEQUENCE) {
        Ok(v) => v,
        Err(err) => return Err(err),
    };
    let (alg_s, alg_e) = match expect_tag_at(der, tbs_e, outer_e, TAG_SEQUENCE) {
        Ok(v) => v,
        Err(err) => return Err(err),
    };
    let (sig_s, sig_e) = match expect_tag_at(der, alg_e, outer_e, TAG_BIT_STRING) {
        Ok(v) => v,
        Err(err) => return Err(err),
    };
    if sig_e != outer_e {
        return Err(Error::TrailingData(DerTypeId::SignedData));
    }
    if sig_e - sig_s < 1 || der[sig_s] != 0 {
        return Err(Error::BadDer);
    }
    Ok((outer_s, tbs_e, tbs_s, alg_s, alg_e, sig_s, sig_e))
}

/// Parses a DER-encoded X.509 v3 certificate. A certificate that parses
/// has a valid serial number and a validity period whose start is not after
/// its end, and its signed bytes, signature algorithm and signature are
/// those that the signed layout of `der` locates.
pub fn parse_cert(der: &[u8]) -> (r: Result<Cert, Error>)
    ensures
        r matches Ok(c) ==> cert_invariant(c),
        r matches Ok(c) ==> (signed_layout(der@) matches Some((os, te, ts, als, ale, ss, se)) && c.tbs@
            == der@.subrange(os, te) && c.signature_alg@ == der@.subrange(als, ale) && c.signature@
            == der@.subrange(ss + 1, se)),
        signed_layout(der@) is None ==> r is Err,
        signed_layout(der@) matches Some((os, te, ts, als, ale, ss, se)) ==> (serial_start(
            der@,
            ts,
            te,
        ) matches Some(p) ==> (serial_number_result(der@.subrange(p, te)) matches Err(e) ==> r
            == Err::<Cert, Error>(e))),
        signed_layout(der@) matches Some((os, te, ts, als, ale, ss, se)) ==> (r is Ok ==> serial_start(
            der@,
            ts,
            te,
        ) is Some),
        signed_layout(der@) matches Some((os, te, ts, als, ale, ss, se)) ==> ((value_at(der@, ts, te)
            is Some && serial_start(der@, ts, te) is None) ==> r is Err && r->Err_0
            == Error::UnsupportedCertVersion),
        signed_layout(der@) matches Some((os, te, ts, als, ale, ss, se)) ==> (r is Ok ==> (tbs_alg_at(
            der@,
            ts,
            te,
        ) matches Some((x, y)) && der@.subrange(x, y) == der@.subrange(als, ale))),
        signed_layout(der@) matches Some((os, te, ts, als, ale, ss, se)) ==> (tbs_alg_at(der@, ts, te)
            matches Some((x, y)) ==> (der@.subrange(x, y) != der@.subrange(als, ale) ==> r is Err
            && r->Err_0 == Error::SignatureAlgorithmMismatch)),
{
    let (outer_s, tbs_e, tbs_s, alg_s, alg_e, sig_s, sig_e) = match parse_signed(der) {
        Ok(v) => v,
        Err(err) => return Err(err),
    };
    let mut c = match parse_tbs(der, tbs_s, tbs_e, slice_range(der, alg_s, alg_e)) {
        Ok(c) => c,
        Err(err) => return Err(err),
    };
    c.tbs = copy_range(der, outer_s, tbs_e);
    c.signature_alg = copy_range(der, alg_s, alg_e);
    c.signature = copy_range(der, sig_s + 1, sig_e);
    Ok(c)
}

/// Parses the contents `der[tbs_s..tbs_e]` of a TBSCertificate whose outer
/// signature algorithm is `alg`. The signed bytes and signature of the
/// result are left empty.
fn parse_tbs(der: &[u8], tbs_s: usize, tbs_e: usize, alg: &[u8]) -> (r: Result<Cert, Error>)
    requires
        tbs_s <= tbs_e <= der@.len(),
    ensures
        r matches Ok(c) ==> cert_invariant(c),
        serial_start(der@, tbs_s as int, tbs_e as int) matches Some(p) ==> (serial_number_result(
            der@.subrange(p, tbs_e as int),
        ) matches Err(e) ==> r == Err::<Cert, Error>(e)),
        r is Ok ==> serial_start(der@, tbs_s as int, tbs_e as int) is Some,
        (value_at(der@, tbs_s as int, tbs_e as int) is Some && serial_start(
            der@,
            tbs_s as int,
            tbs_e as int,
        ) is None) ==> r == Err::<Cert, Error>(Error::UnsupportedCertVersion),
        r is Ok ==> (tbs_alg_at(der@, tbs_s as int, tbs_e as int) matches Some((x, y)) && der@.subrange(
            x,
            y,
        ) == alg@),
        tbs_alg_at(der@, tbs_s as int, tbs_e as int) matches Some((x, y)) ==> (der@.subrange(x, y)
            != alg@ ==> r == Err::<Cert, Error>(Error::SignatureAlgorithmMismatch)),
{
    proof {
        lemma_value_at_tag(der@, tbs_s as int, tbs_e as int);
    }
    // version: [0] EXPLICIT INTEGER, which must be 2 (v3)
    if tbs_s >= tbs_e || der[tbs_s] != TAG_VERSION {
        return Err(Error::UnsupportedCertVersion);
    }
    let (ver_s, ver_e) = match expect_tag_at(der, tbs_s, tbs_e, TAG_VERSION) {
        Ok(v) => v,
        Err(err) => return Err(err),
    };
    let (vi_s, vi_e) = match expect_tag_at(der, ver_s, ver_e, TAG_INTEGER) {
        Ok(v) => v,
        Err(_) => return Err(Error::UnsupportedCertVersion),
    };
    if vi_e != ver_e || vi_e - vi_s != 1 || der[vi_s] != 2 {
        return Err(Error::UnsupportedCertVersion);
    }
    let mut p = ver_e;
    let serial_window = slice_range(der, p, tbs_e);
    let (ser_rel, ser_len) = match certificate_serial_number(serial_window) {
        Ok(v) => v,
        Err(err) => return Err(err),
    };
    let serial = copy_range(der, p + ser_rel, p + ser_rel + ser_len);
    assert(serial@ =~= serial_window@.subrange(ser_rel as int, ser_rel + ser_len));
    p = p + ser_rel + ser_len;
    let (inner_alg_s, inner_alg_e) = match expect_tag_at(der, p, tbs_e, TAG_SEQUENCE) {
        Ok(v) => v,
        Err(err) => return Err(err),
    };
    if !crate::subject_name::bytes_equal(slice_range(der, inner_alg_s, inner_alg_e), alg) {
        return Err(Error::SignatureAlgorithmMismatch);
    }
    p = inner_alg_e;
    let (iss_s, iss_e) = match expect_tag_at(der, p, tbs_e, TAG_SEQUENCE) {
        Ok(v) => v,
        Err(err) => return Err(err),
    };
    p = iss_e;
    let (val_s, val_e) = match expect_tag_at(der, p, tbs_e, TAG_SEQUENCE) {
        Ok(v) => v,
        Err(err) => return Err(err),
    };
    let (not_before, n1) = match Time::from_der(slice_range(der, val_s, val_e)) {
        Ok(v) => v,
        Err(err) => return Err(err),
    };
    let (not_after, n2) = match Time::from_der(slice_range(der, val_s + n1, val_e)) {
        Ok(v) => v,
        Err(err) => return Err(err),
    };
    if n1 + n2 != val_e - val_s {
        return Err(Error::TrailingData(DerTypeId::CertificateTbsCertificate));
    }
    if not_before.as_secs() > not_after.as_secs() {
        return Err(Error::InvalidCertValidity);
    }
    p = val_e;
    let (sub_s, sub_e) = match expect_tag_at(der, p, tbs_e, TAG_SEQUENCE) {
        Ok(v) => v,
        Err(err) => return Err(err),
    };
    p = sub_e;
    let (spki_s, spki_e) = match expect_tag_at(der, p, tbs_e, TAG_SEQUENCE) {
        Ok(v) => v,
        Err(err) => return Err(err),
    };
    let spki = slice_range(der, spki_s, spki_e);
    let (key_alg, key) = match split_spki(spki) {
        Ok(v) => v,
        Err(err) => return Err(err),
    };
    p = spki_e;
    if p < tbs_e && der[p] == TAG_ISSUER_UID {
        p = match read_value_at(der, p, tbs_e) {
            Ok((_, _, e)) => e,
            Err(err) => return Err(err),
        };
    }
    if p < tbs_e && der[p] == TAG_SUBJECT_UID {
        p = match read_value_at(der, p, tbs_e) {
            Ok((_, _, e)) => e,
            Err(err) => return Err(err),
        };
    }
    let mut c = Cert {
        serial,
        issuer: copy_range(der, iss_s, iss_e),
        subject: copy_range(der, sub_s, sub_e),
        spki: PublicKeyInfo { algorithm: key_alg, key },
        not_before,
        not_after,
        is_ca: false,
        path_len_constraint: None,
        key_usage_crl_sign: None,
        eku: None,
        subject_alt_names: Vec::new(),
        name_constraints: NameConstraints::unconstrained(),
        signature_alg: Vec::new(),
        tbs: Vec::new(),
        signature: Vec::new(),
    };
    if p < tbs_e && der[p] == TAG_EXTENSIONS {
        let (ext_s, ext_e) = match expect_tag_at(der, p, tbs_e, TAG_EXTENSIONS) {
            Ok(v) => v,
            Err(err) => return Err(err),
        };
        let (list_s, list_e) = match expect_tag_at(der, ext_s, ext_e, TAG_SEQUENCE) {
            Ok(v) => v,
            Err(err) => return Err(err),
        };
        if list_e != ext_e {
            return Err(Error::TrailingData(DerTypeId::CertificateExtensions));
        }
        match parse_extensions(der, list_s, list_e, &mut c) {
            Ok(()) => {},
            Err(err) => return Err(err),
        }
        p = ext_e;
    }
    if p != tbs_e {
        return Err(Error::TrailingData(DerTypeId::CertificateTbsCertificate));
    }
    Ok(c)
}

/// The parts of the contents `spki` of a SubjectPublicKeyInfo: an
/// AlgorithmIdentifier SEQUENCE, then a BIT STRING with no unused bits that
/// ends the input. Given as the ranges of the algorithm's contents and of
/// the key's octets.
pub open spec fn spki_parts(spki: Seq<u8>) -> Option<(int, int, int, int)> {
    let n = spki.len() as int;
    match value_at(spki, 0, n) {
        None => None,
        Some((t, als, ale)) => if t != TAG_SEQUENCE {
            None
        } else {
            match value_at(spki, ale, n) {
                None => None,
                Some((t2, ks, ke)) => if t2 != TAG_BIT_STRING || ke != n || ke - ks < 1 || spki[ks]
                    != 0 {
                    None
                } else {
                    Some((als, ale, ks + 1, ke))
                },
            }
        },
    }
}

/// Splits the contents of a SubjectPublicKeyInfo into the contents of its
/// AlgorithmIdentifier and the octets of its public key, a BIT STRING with
/// no unused bits; `BadDer` where it is not of that form.
pub fn split_spki(spki: &[u8]) -> (r: Result<(Vec<u8>, Vec<u8>), Error>)
    ensures
        match r {
            Ok((alg, key)) => spki_parts(spki@) matches Some((als, ale, ks, ke)) && alg@ == spki@.subrange(
                als,
                ale,
            ) && key@ == spki@.subrange(ks, ke),
            Err(e) => e == Error::BadDer && spki_parts(spki@) is None,
        },
{
    let end = spki.len();
    let (alg_s, alg_e) = match expect_tag_at(spki, 0, end, TAG_SEQUENCE) {
        Ok(v) => v,
        Err(err) => return Err(err),
    };
    let (key_s, key_e) = match expect_tag_at(spki, alg_e, end, TAG_BIT_STRING) {
        Ok(v) => v,
        Err(err) => return Err(err),
    };
    if key_e != end || key_e - key_s < 1 || spki[key_s] != 0 {
        return Err(Error::BadDer);
    }
    Ok((copy_range(spki, alg_s, alg_e), copy_range(spki, key_s + 1, key_e)))
}

} // verus!
