//! Checking a signature over signed data: choosing the signature algorithm
//! among the supported ones and matching it to the public key, with the
//! cryptographic primitive supplied by the caller.

use vstd::prelude::*;

use crate::error::Error;

verus! {

/// A public key with its algorithm, as a SubjectPublicKeyInfo holds them.
pub struct PublicKeyInfo {
    /// The contents of the key's AlgorithmIdentifier.
    pub algorithm: Vec<u8>,
    /// The key's octets, the contents of the subjectPublicKey BIT STRING
    /// without the unused-bits octet.
    pub key: Vec<u8>,
}

/// A signature algorithm: a cryptographic primitive for one signature
/// AlgorithmIdentifier and one kind of public key.
pub trait SignatureAlgorithm {
    /// The contents of the AlgorithmIdentifier of the signatures it checks.
    spec fn sig_alg_id(&self) -> Vec<u8>;

    /// The contents of the AlgorithmIdentifier of the keys it takes.
    spec fn pk_alg_id(&self) -> Vec<u8>;

    /// Whether `signature` is a valid signature of `msg` under `key`.
    spec fn verifies(&self, key: Vec<u8>, msg: Vec<u8>, signature: Vec<u8>) -> bool;

    /// The signature AlgorithmIdentifier contents.
    fn signature_alg_id(&self) -> (r: Vec<u8>)
        ensures
            r@ == self.sig_alg_id()@,
    ;

    /// The public key AlgorithmIdentifier contents.
    fn public_key_alg_id(&self) -> (r: Vec<u8>)
        ensures
            r@ == self.pk_alg_id()@,
    ;

    /// Checks `signature` over `msg` with `key`.
    fn verify_signature(&self, key: &Vec<u8>, msg: &Vec<u8>, signature: &Vec<u8>) -> (r: bool)
        ensures
            r == self.verifies(*key, *msg, *signature),
    ;
}

/// Whether some algorithm of `algs` is for signatures of `sig_alg`.
pub open spec fn alg_supported<A: SignatureAlgorithm>(algs: Seq<A>, sig_alg: Seq<u8>) -> bool {
    exists|i: int| 0 <= i < algs.len() && (#[trigger] algs[i]).sig_alg_id()@ == sig_alg
}

/// Whether `alg` is for signatures of `sig_alg` and keys of `key_alg`.
pub open spec fn alg_compatible<A: SignatureAlgorithm>(alg: A, sig_alg: Seq<u8>, key_alg: Seq<u8>) -> bool {
    alg.sig_alg_id()@ == sig_alg && alg.pk_alg_id()@ == key_alg
}

/// The outcome of checking with the first algorithm of `algs[i..]` that is
/// compatible with the signature algorithm and the key; where none is,
/// `UnsupportedSignatureAlgorithm` if no algorithm at all is for that
/// signature algorithm, and `UnsupportedSignatureAlgorithmForPublicKey`
/// otherwise.
pub open spec fn signed_data_from<A: SignatureAlgorithm>(
    algs: Seq<A>,
    i: int,
    sig_alg: Seq<u8>,
    pk: PublicKeyInfo,
    msg: Vec<u8>,
    signature: Vec<u8>,
) -> Result<(), Error>
    decreases algs.len() - i,
{
    if i < 0 || i >= algs.len() {
        if alg_supported(algs, sig_alg) {
            Err(Error::UnsupportedSignatureAlgorithmForPublicKey)
        } else {
            Err(Error::UnsupportedSignatureAlgorithm)
        }
    } else if alg_compatible(algs[i], sig_alg, pk.algorithm@) {
        if algs[i].verifies(pk.key, msg, signature) {
            Ok(())
        } else {
            Err(Error::InvalidSignatureForPublicKey)
        }
    } else {
        signed_data_from(algs, i + 1, sig_alg, pk, msg, signature)
    }
}

/// The outcome of checking `signature` over `msg` with the key `pk` and the
/// signature algorithm `sig_alg`, among the supported `algs`.
pub open spec fn signed_data_result<A: SignatureAlgorithm>(
    algs: Seq<A>,
    sig_alg: Seq<u8>,
    pk: PublicKeyInfo,
    msg: Vec<u8>,
    signature: Vec<u8>,
) -> Result<(), Error> {
    signed_data_from(algs, 0, sig_alg, pk, msg, signature)
}

/// Whether the check of a signature succeeds.
pub open spec fn signature_ok<A: SignatureAlgorithm>(
    algs: Seq<A>,
    sig_alg: Seq<u8>,
    pk: PublicKeyInfo,
    msg: Vec<u8>,
    signature: Vec<u8>,
) -> bool {
    signed_data_result(algs, sig_alg, pk, msg, signature) is Ok
}

/// The errors that a signature check may report.
pub open spec fn is_signature_error(e: Error) -> bool {
    e == Error::InvalidSignatureForPublicKey || e == Error::UnsupportedSignatureAlgorithm || e
        == Error::UnsupportedSignatureAlgorithmForPublicKey
}

proof fn lemma_signed_data_error<A: SignatureAlgorithm>(
    algs: Seq<A>,
    i: int,
    sig_alg: Seq<u8>,
    pk: PublicKeyInfo,
    msg: Vec<u8>,
    signature: Vec<u8>,
)
    ensures
        signed_data_from(algs, i, sig_alg, pk, msg, signature) matches Err(e) ==> is_signature_error(e),
    decreases algs.len() - i,
{
    if 0 <= i < algs.len() && !alg_compatible(algs[i], sig_alg, pk.algorithm@) {
        lemma_signed_data_error(algs, i + 1, sig_alg, pk, msg, signature);
    }
}

/// Checks `signature` over `msg` with the key `pk` and the signature
/// algorithm `sig_alg`: the first of `algs` that is for both the signature
/// algorithm and the key's algorithm decides; `UnsupportedSignatureAlgorithm`
/// where none of `algs` is for the signature algorithm, and
/// `UnsupportedSignatureAlgorithmForPublicKey` where none fits the key.
pub fn verify_signed_data<A: SignatureAlgorithm>(
    algs: &Vec<A>,
    sig_alg: &[u8],
    pk: &PublicKeyInfo,
    msg: &Vec<u8>,
    signature: &Vec<u8>,
) -> (r: Result<(), Error>)
    ensures
        r == signed_data_result(algs@, sig_alg@, *pk, *msg, *signature),
        r matches Err(e) ==> is_signature_error(e),
{
    proof {
        lemma_signed_data_error(algs@, 0, sig_alg@, *pk, *msg, *signature);
    }
    let mut supported = false;
    let mut i: usize = 0;
    while i < algs.len()
        invariant
            i <= algs@.len(),
            signed_data_from(algs@, 0, sig_alg@, *pk, *msg, *signature) == signed_data_from(
                algs@,
                i as int,
                sig_alg@,
                *pk,
                *msg,
                *signature,
            ),
            supported == exists|j: int| 0 <= j < i && (#[trigger] algs@[j]).sig_alg_id()@ == sig_alg@,
        decreases algs@.len() - i,
    {
        let alg = &algs[i];
        let sig_id = alg.signature_alg_id();
        if crate::subject_name::bytes_equal(sig_id.as_slice(), sig_alg) {
            supported = true;
            let pk_id = alg.public_key_alg_id();
            if crate::subject_name::bytes_equal(pk_id.as_slice(), pk.algorithm.as_slice()) {
                if alg.verify_signature(&pk.key, msg, signature) {
                    return Ok(());
                } else {
                    return Err(Error::InvalidSignatureForPublicKey);
                }
            }
        }
        i = i + 1;
    }
    if supported {
        Err(Error::UnsupportedSignatureAlgorithmForPublicKey)
    } else {
        Err(Error::UnsupportedSignatureAlgorithm)
    }
}

} // verus!
