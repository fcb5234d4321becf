//! An end-entity certificate and the checks made on it directly.

use vstd::prelude::*;

use crate::cert::{
    cert_invariant, dns_names_of, parse_cert, serial_number_result, serial_start, signed_layout,
    tbs_alg_at, Cert,
};
use crate::der::value_at;
use crate::error::Error;
use crate::signed_data::{signed_data_result, verify_signed_data, SignatureAlgorithm};
use crate::verify_cert::{
    anchor_floor, build_chain, has_candidate_issuer, intermediate_floor, meets_floor, ok_as_index,
    tip_check, valid_chain, ChainOptions,
    MAX_SIGNATURE_CHECKS,
};
use crate::subject_name::{
    general_name_matches, general_name_matches_exec, is_valid_dns_id, is_valid_presented_id,
    valid_reference, GeneralName, SubjectNameRef,
};

verus! {

/// An end-entity certificate.
pub struct EndEntityCert {
    inner: Cert,
}

impl EndEntityCert {
    /// The certificate's parsed fields.
    pub closed spec fn cert(&self) -> Cert {
        self.inner
    }

    /// Wraps a parsed certificate as an end-entity certificate.
    pub fn new(inner: Cert) -> (r: Self)
        ensures
            r.cert() == inner,
    {
        EndEntityCert { inner }
    }

    /// Parses the DER encoding of an X.509 v3 end-entity certificate, with
    /// the guarantees of `parse_cert`.
    pub fn try_from(der: &[u8]) -> (r: Result<Self, Error>)
        ensures
            r matches Ok(ee) ==> cert_invariant(ee.cert()),
            r matches Ok(ee) ==> (signed_layout(der@) matches Some((os, te, ts, als, ale, ss, se))
                && ee.cert().tbs@ == der@.subrange(os, te) && ee.cert().signature_alg@ == der@.subrange(
                als,
                ale,
            ) && ee.cert().signature@ == der@.subrange(ss + 1, se)),
            signed_layout(der@) is None ==> r is Err,
            signed_layout(der@) matches Some((os, te, ts, als, ale, ss, se)) ==> (serial_start(
                der@,
                ts,
                te,
            ) matches Some(p) ==> (serial_number_result(der@.subrange(p, te)) matches Err(e) ==> r
                is Err && r->Err_0 == e)),
            signed_layout(der@) matches Some((os, te, ts, als, ale, ss, se)) ==> (r is Ok ==> serial_start(
                der@,
                ts,
                te,
            ) is Some),
            signed_layout(der@) matches Some((os, te, ts, als, ale, ss, se)) ==> ((value_at(der@, ts, te)
                is Some && serial_start(der@, ts, te) is None) ==> r is Err && r->Err_0
                == Error::UnsupportedCertVersion),
            signed_layout(der@) matches Some((os, te, ts, als, ale, ss, se)) ==> (r is Ok ==> (tbs_alg_at(
                der@,
                ts,
                te,
            ) matches Some((x, y)) && der@.subrange(x, y) == der@.subrange(als, ale))),
            signed_layout(der@) matches Some((os, te, ts, als, ale, ss, se)) ==> (tbs_alg_at(der@, ts, te)
                matches Some((x, y)) ==> (der@.subrange(x, y) != der@.subrange(als, ale) ==> r is Err
                && r->Err_0 == Error::SignatureAlgorithmMismatch)),
    {
        match parse_cert(der) {
            Ok(inner) => Ok(EndEntityCert { inner }),
            Err(e) => Err(e),
        }
    }

    /// The certificate's parsed fields.
    pub fn inner(&self) -> (r: &Cert)
        ensures
            *r == self.cert(),
    {
        &self.inner
    }

    /// Verifies that the certificate is valid for the given subject name: one
    /// of its subjectAltName entries matches it. A malformed reference DNS
    /// name gives `MalformedDnsIdentifier`; no match gives
    /// `CertNotValidForName`.
    pub fn verify_is_valid_for_subject_name(&self, subject_name: &SubjectNameRef) -> (r: Result<
        (),
        Error,
    >)
        ensures
            !valid_reference(*subject_name) ==> r == Err::<(), Error>(Error::MalformedDnsIdentifier),
            valid_reference(*subject_name) ==> (r is Ok <==> exists|i: int|
                0 <= i < self.cert().subject_alt_names@.len() && general_name_matches(
                    #[trigger] self.cert().subject_alt_names@[i],
                    *subject_name,
                )),
            valid_reference(*subject_name) && r is Err ==> r == Err::<(), Error>(
                Error::CertNotValidForName,
            ),
    {
        if let SubjectNameRef::DnsName(reference) = subject_name {
            if !is_valid_dns_id(reference.as_slice()) {
                return Err(Error::MalformedDnsIdentifier);
            }
        }
        let sans = &self.inner.subject_alt_names;
        let mut i: usize = 0;
        while i < sans.len()
            invariant
                sans@ == self.cert().subject_alt_names@,
                valid_reference(*subject_name),
                i <= sans@.len(),
                forall|j: int| 0 <= j < i ==> !general_name_matches(#[trigger] sans@[j], *subject_name),
            decreases sans@.len() - i,
        {
            if general_name_matches_exec(&sans[i], subject_name) {
                return Ok(());
            }
            i = i + 1;
        }
        Err(Error::CertNotValidForName)
    }

    /// Verifies that the certificate chains up to one of the trust anchors of
    /// `options` through its intermediates, and is valid at its time for its
    /// extended key usage, with `supported_sig_algs` checking each signature. Success
    /// means that a valid chain exists; where one exists, the search finds it
    /// unless it runs out of signature checks. Failure gives the most
    /// specific error that the search met.
    pub fn verify_for_usage<A: SignatureAlgorithm>(
        &self,
        supported_sig_algs: &Vec<A>,
        options: &ChainOptions,
    ) -> (r: Result<(), Error>)
        ensures
            r is Ok ==> exists|p: Seq<usize>, a: int| valid_chain(*options, supported_sig_algs@, self.cert(), p, a),
            (exists|p: Seq<usize>, a: int| valid_chain(*options, supported_sig_algs@, self.cert(), p, a)) ==> (r is Ok
                || r == Err::<(), Error>(Error::MaximumSignatureChecksExceeded)),
            tip_check(self.cert(), options.time, true, 0, options.eku@, options.allow_absent_eku) matches Err(e) ==> r == Err::<
                (),
                Error,
            >(e),
            (tip_check(self.cert(), options.time, true, 0, options.eku@, options.allow_absent_eku) is Ok && !has_candidate_issuer(
                *options,
                self.cert(),
                Seq::empty(),
            )) ==> r == Err::<(), Error>(Error::UnknownIssuer),
            (options.intermediate_certs@.len() == 0 && options.trust_anchors@.len()
                <= MAX_SIGNATURE_CHECKS && exists|a: int|
                valid_chain(*options, supported_sig_algs@, self.cert(), Seq::empty(), a)) ==> r is Ok,
            tip_check(self.cert(), options.time, true, 0, options.eku@, options.allow_absent_eku) is Ok
                ==> forall|a: int|
                0 <= a < options.trust_anchors@.len() ==> meets_floor(
                    ok_as_index(r),
                    #[trigger] anchor_floor(*options, supported_sig_algs@, self.cert(), Seq::empty(), a),
                ),
            tip_check(self.cert(), options.time, true, 0, options.eku@, options.allow_absent_eku) is Ok
                ==> forall|i: int|
                0 <= i < options.intermediate_certs@.len() ==> meets_floor(
                    ok_as_index(r),
                    #[trigger] intermediate_floor(*options, supported_sig_algs@, self.cert(), Seq::empty(), i),
                ),
    {
        build_chain(options, supported_sig_algs, &self.inner, MAX_SIGNATURE_CHECKS).0
    }

    /// Verifies `signature` over `msg` with the certificate's public key and
    /// the signature algorithm `signature_alg`, among `supported_sig_algs`.
    pub fn verify_signature<A: SignatureAlgorithm>(
        &self,
        supported_sig_algs: &Vec<A>,
        signature_alg: &[u8],
        msg: &Vec<u8>,
        signature: &Vec<u8>,
    ) -> (r: Result<(), Error>)
        ensures
            r == signed_data_result(
                supported_sig_algs@,
                signature_alg@,
                self.cert().spki,
                *msg,
                *signature,
            ),
    {
        verify_signed_data(supported_sig_algs, signature_alg, &self.inner.spki, msg, signature)
    }

    /// The well-formed DNS names of the subjectAltName extension, in order.
    pub fn dns_names(&self) -> (r: Vec<Vec<u8>>)
        ensures
            r@.map_values(|v: Vec<u8>| v@) == dns_names_of(self.cert().subject_alt_names@),
    {
        let sans = &self.inner.subject_alt_names;
        let mut out: Vec<Vec<u8>> = Vec::new();
        let mut i: usize = 0;
        while i < sans.len()
            invariant
                sans@ == self.cert().subject_alt_names@,
                i <= sans@.len(),
                out@.map_values(|v: Vec<u8>| v@) == dns_names_of(sans@.subrange(0, i as int)),
            decreases sans@.len() - i,
        {
            let ghost before = out@.map_values(|v: Vec<u8>| v@);
            proof {
                let s1 = sans@.subrange(0, i + 1);
                assert(s1.drop_last() =~= sans@.subrange(0, i as int));
                assert(s1.last() == sans@[i as int]);
            }
            if let GeneralName::DnsName(name) = &sans[i] {
                if is_valid_presented_id(name.as_slice()) {
                    let copy = copy_bytes(name);
                    out.push(copy);
                    proof {
                        assert(out@.map_values(|v: Vec<u8>| v@) =~= before.push(name@));
                    }
                }
            }
            i = i + 1;
        }
        assert(sans@.subrange(0, sans@.len() as int) =~= sans@);
        out
    }
}

/// A copy of `v`.
fn copy_bytes(v: &Vec<u8>) -> (r: Vec<u8>)
    ensures
        r@ == v@,
{
    let mut out: Vec<u8> = Vec::with_capacity(v.len());
    let mut i: usize = 0;
    while i < v.len()
        invariant
            i <= v@.len(),
            out@ == v@.subrange(0, i as int),
        decreases v@.len() - i,
    {
        out.push(v[i]);
        i = i + 1;
        assert(out@ =~= v@.subrange(0, i as int));
    }
    assert(v@.subrange(0, v@.len() as int) =~= v@);
    out
}

} // verus!
