//! Building and validating a chain from an end-entity certificate up to a
//! trust anchor through a pool of intermediate certificates.

use vstd::prelude::*;

use crate::cert::{Cert, NameConstraints};
use crate::signed_data::{
    is_signature_error, signature_ok, signed_data_result, verify_signed_data, PublicKeyInfo,
    SignatureAlgorithm,
};
use crate::error::{error_rank, most_specific_of, Error};
use crate::subject_name::{ascii_lower, bytes_equal, eq_ignore_case, GeneralName};
use crate::time::Time;

verus! {

/// The number of signature checks that one chain search may make.
pub const MAX_SIGNATURE_CHECKS: u64 = 100;

/// A root of trust: a subject and public key trusted by fiat, with the name
/// constraints that bind every chain ending at it.
pub struct TrustAnchor {
    /// The subject's distinguished name, as DER bytes.
    pub subject: Vec<u8>,
    /// The public key and its algorithm.
    pub spki: PublicKeyInfo,
    /// The name constraints of every chain that ends at the anchor.
    pub name_constraints: NameConstraints,
}

/// Which certificates of a chain have their revocation status checked.
#[derive(Clone, Copy, Debug, PartialEq, Eq, Structural)]
pub enum RevocationCheckDepth {
    /// Only the end entity.
    EndEntity,
    /// Every certificate of the chain but the trust anchor.
    Chain,
}

/// What to do with a certificate that no CRL covers.
#[derive(Clone, Copy, Debug, PartialEq, Eq, Structural)]
pub enum UnknownStatusPolicy {
    /// Accept it.
    Allow,
    /// Reject it with `UnknownRevocationStatus`.
    Deny,
}

/// A parsed certificate revocation list.
pub struct Crl {
    /// The signature algorithm, as AlgorithmIdentifier contents.
    pub signature_alg: Vec<u8>,
    /// The distinguished name of the CRL's issuer, as DER bytes.
    pub issuer: Vec<u8>,
    /// The serial numbers of the revoked certificates.
    pub revoked_serials: Vec<Vec<u8>>,
    /// The signed TBSCertList bytes.
    pub tbs: Vec<u8>,
    /// The signature over `tbs`.
    pub signature: Vec<u8>,
}

/// How revocation is checked.
pub struct RevocationOptions {
    /// The CRLs at hand.
    pub crls: Vec<Crl>,
    /// Which certificates are checked.
    pub depth: RevocationCheckDepth,
    /// What to do with a certificate that no CRL covers.
    pub status_policy: UnknownStatusPolicy,
}

/// What a chain is validated for.
pub struct ChainOptions {
    /// Revocation checking, if any.
    pub revocation: Option<RevocationOptions>,
    /// The required extended key usage OID.
    pub eku: Vec<u8>,
    /// Whether an end entity without the extended key usage extension is
    /// accepted.
    pub allow_absent_eku: bool,
    /// The trust anchors.
    pub trust_anchors: Vec<TrustAnchor>,
    /// The intermediate certificates that may appear in the chain.
    pub intermediate_certs: Vec<Cert>,
    /// The time of validation.
    pub time: Time,
}

/// Whether `oid` is among `list`.
pub open spec fn contains_oid(list: Seq<Vec<u8>>, oid: Seq<u8>) -> bool {
    exists|i: int| 0 <= i < list.len() && (#[trigger] list[i])@ == oid
}

/// The checks on one certificate of a chain that do not depend on its
/// issuer, with the error each failure gives, in the order they are made:
/// the validity period; that the end entity is not a CA and every other
/// certificate is; the path length constraint, against the number of CAs
/// between the certificate and the end entity that are not self-issued;
/// the end entity's extended key usage, which must hold the required OID,
/// or be absent where the policy allows that.
#[verifier::opaque]
pub open spec fn tip_check(
    c: Cert,
    time: Time,
    is_end_entity: bool,
    sub_ca_count: int,
    eku: Seq<u8>,
    allow_absent_eku: bool,
) -> Result<(), Error> {
    if time@ < c.not_before@ {
        Err(Error::CertNotValidYet)
    } else if time@ > c.not_after@ {
        Err(Error::CertExpired)
    } else if is_end_entity && c.is_ca {
        Err(Error::CaUsedAsEndEntity)
    } else if !is_end_entity && !c.is_ca {
        Err(Error::EndEntityUsedAsCa)
    } else if !is_end_entity && (c.path_len_constraint matches Some(n) && sub_ca_count > n) {
        Err(Error::PathLenConstraintViolated)
    } else if is_end_entity && match c.eku {
        Some(l) => !contains_oid(l@, eku),
        None => !allow_absent_eku,
    } {
        Err(Error::RequiredEkuNotFound)
    } else {
        Ok(())
    }
}

/// Whether `name` lies in the DNS subtree `base`: its last labels equal
/// `base` up to ASCII case. An empty base holds every name; a base with a
/// leading dot holds only names below it.
pub open spec fn in_subtree(name: Seq<u8>, base: Seq<u8>) -> bool {
    let k = name.len() - base.len();
    base.len() == 0 || (name.len() >= base.len() && eq_ignore_case(
        name.subrange(k, name.len() as int),
        base,
    ) && (k == 0 || base[0] == 0x2E || name[k - 1] == 0x2E))
}

/// Whether name constraints allow the DNS name `name`: it lies in one of the
/// permitted subtrees, where there are any, and in none of the excluded ones.
pub open spec fn dns_name_allowed(name: Seq<u8>, permitted: Option<Vec<Vec<u8>>>, excluded: Seq<Vec<u8>>) -> bool {
    &&& match permitted {
        None => true,
        Some(l) => exists|i: int| 0 <= i < l@.len() && in_subtree(name, (#[trigger] l@[i])@),
    }
    &&& forall|i: int| 0 <= i < excluded.len() ==> !in_subtree(name, (#[trigger] excluded[i])@)
}

/// Whether the address `ip` lies in the subtree `subtree`: an address and a
/// mask of `ip`'s length, where `ip` agrees with the address on the mask's
/// bits.
pub open spec fn ip_in_subtree(ip: Seq<u8>, subtree: Seq<u8>) -> bool {
    subtree.len() == 2 * ip.len() && forall|i: int|
        0 <= i < ip.len() ==> (#[trigger] ip[i]) & subtree[ip.len() + i] == subtree[i] & subtree[ip.len()
            + i]
}

/// Whether name constraints allow the IP address `ip`: it lies in one of the
/// permitted subtrees, where there are any, and in none of the excluded ones.
pub open spec fn ip_allowed(ip: Seq<u8>, permitted: Option<Vec<Vec<u8>>>, excluded: Seq<Vec<u8>>) -> bool {
    &&& match permitted {
        None => true,
        Some(l) => exists|i: int| 0 <= i < l@.len() && ip_in_subtree(ip, (#[trigger] l@[i])@),
    }
    &&& forall|i: int| 0 <= i < excluded.len() ==> !ip_in_subtree(ip, (#[trigger] excluded[i])@)
}

/// Whether a name of a certificate is allowed by name constraints.
pub open spec fn name_allowed(g: GeneralName, nc: NameConstraints) -> bool {
    match g {
        GeneralName::DnsName(n) => dns_name_allowed(n@, nc.permitted_dns, nc.excluded_dns@),
        GeneralName::IpAddress(a) => ip_allowed(a@, nc.permitted_ip, nc.excluded_ip@),
        GeneralName::Other => true,
    }
}

/// Whether name constraints allow every DNS name and IP address of `sans`.
pub open spec fn constraints_allow(nc: NameConstraints, sans: Seq<GeneralName>) -> bool {
    forall|i: int| 0 <= i < sans.len() ==> name_allowed(#[trigger] sans[i], nc)
}

/// The certificate at position `j` of the chain that starts at `ee` and goes
/// on through the intermediates that `path` indexes.
pub open spec fn cert_at(o: ChainOptions, ee: Cert, path: Seq<usize>, j: int) -> Cert {
    if j == 0 {
        ee
    } else {
        o.intermediate_certs@[path[j - 1] as int]
    }
}

/// Whether a certificate is self-issued: its issuer is its subject.
pub open spec fn self_issued(c: Cert) -> bool {
    c.subject@ == c.issuer@
}

/// The number of CAs between position `j` and the end entity that are not
/// self-issued: those that count against a path length constraint.
pub open spec fn ca_count(o: ChainOptions, ee: Cert, path: Seq<usize>, j: int) -> int
    decreases j,
{
    if j <= 1 {
        0
    } else {
        ca_count(o, ee, path, j - 1) + if self_issued(cert_at(o, ee, path, j - 1)) {
            0int
        } else {
            1int
        }
    }
}

/// The issuer-independent checks of position `j`.
pub open spec fn position_ok(o: ChainOptions, ee: Cert, path: Seq<usize>, j: int) -> bool {
    tip_check(cert_at(o, ee, path, j), o.time, j == 0, ca_count(o, ee, path, j), o.eku@, o.allow_absent_eku) is Ok
}

/// Whether `child` names `subject` as its issuer and carries a signature
/// that `spki` verifies.
pub open spec fn link_ok<A: SignatureAlgorithm>(algs: Seq<A>, child: Cert, subject: Seq<u8>, spki: PublicKeyInfo) -> bool {
    child.issuer@ == subject && signature_ok(algs, child.signature_alg@, spki, child.tbs, child.signature)
}

/// The certificate at position `j` is signed by the one at `j + 1`.
pub open spec fn link_at<A: SignatureAlgorithm>(o: ChainOptions, algs: Seq<A>, ee: Cert, path: Seq<usize>, j: int) -> bool {
    link_ok(algs, cert_at(o, ee, path, j), cert_at(o, ee, path, j + 1).subject@, cert_at(o, ee, path, j + 1).spki)
}

/// Each index of `path` names an intermediate, and none twice.
pub open spec fn path_indices_ok(o: ChainOptions, path: Seq<usize>) -> bool {
    &&& forall|j: int| 0 <= j < path.len() ==> (#[trigger] path[j]) < o.intermediate_certs@.len()
    &&& forall|j: int, k: int| 0 <= j < k < path.len() ==> path[j] != path[k]
}

/// Every certificate below the last of the partial chain passed its own
/// checks and is signed by the next one.
pub open spec fn prefix_ok<A: SignatureAlgorithm>(o: ChainOptions, algs: Seq<A>, ee: Cert, path: Seq<usize>) -> bool {
    &&& path_indices_ok(o, path)
    &&& forall|j: int| 0 <= j < path.len() ==> #[trigger] position_ok(o, ee, path, j)
    &&& forall|j: int| 0 <= j < path.len() ==> #[trigger] link_at(o, algs, ee, path, j)
}

/// Whether an issuer whose KeyUsage cRLSign bit is `ku` may sign CRLs: it
/// may where the extension is absent or sets the bit.
pub open spec fn crl_sign_allowed(ku: Option<bool>) -> bool {
    ku is None || ku == Some(true)
}

/// Whether `crl` lists `serial`.
pub open spec fn serial_revoked(crl: Crl, serial: Seq<u8>) -> bool {
    exists|i: int| 0 <= i < crl.revoked_serials@.len() && (#[trigger] crl.revoked_serials@[i])@ == serial
}

/// Whether `crl`, where it covers `c`, is properly signed by `c`'s issuer and
/// does not list `c`.
pub open spec fn crl_clears<A: SignatureAlgorithm>(algs: Seq<A>, crl: Crl, c: Cert, issuer_spki: PublicKeyInfo, issuer_ku: Option<bool>) -> bool {
    crl.issuer@ == c.issuer@ ==> (crl_sign_allowed(issuer_ku) && signature_ok(algs, crl.signature_alg@, issuer_spki, crl.tbs, crl.signature)
        && !serial_revoked(crl, c.serial@))
}

/// Whether `c` is known not to be revoked: every CRL that covers it clears
/// it, and some CRL covers it unless the policy allows an unknown status.
pub open spec fn not_revoked<A: SignatureAlgorithm>(algs: Seq<A>, ro: RevocationOptions, c: Cert, issuer_spki: PublicKeyInfo, issuer_ku: Option<bool>) -> bool {
    &&& forall|k: int| 0 <= k < ro.crls@.len() ==> crl_clears(algs, #[trigger] ro.crls@[k], c, issuer_spki, issuer_ku)
    &&& (ro.status_policy == UnknownStatusPolicy::Allow || exists|k: int|
        0 <= k < ro.crls@.len() && (#[trigger] ro.crls@[k]).issuer@ == c.issuer@)
}

/// The public key of the issuer of position `j` of a chain closed by anchor `a`.
pub open spec fn issuer_spki_at(o: ChainOptions, ee: Cert, path: Seq<usize>, a: int, j: int) -> PublicKeyInfo {
    if j < path.len() {
        cert_at(o, ee, path, j + 1).spki
    } else {
        o.trust_anchors@[a].spki
    }
}

/// The KeyUsage cRLSign bit of the issuer of position `j`; a trust anchor
/// carries no key usage.
pub open spec fn issuer_ku_at(o: ChainOptions, ee: Cert, path: Seq<usize>, j: int) -> Option<bool> {
    if j < path.len() {
        cert_at(o, ee, path, j + 1).key_usage_crl_sign
    } else {
        None
    }
}

/// Whether position `j` of a chain closed by anchor `a` passes revocation
/// checking, where it is checked.
pub open spec fn position_not_revoked<A: SignatureAlgorithm>(o: ChainOptions, algs: Seq<A>, ee: Cert, path: Seq<usize>, a: int, j: int) -> bool {
    match o.revocation {
        None => true,
        Some(ro) => (ro.depth == RevocationCheckDepth::Chain || j == 0) ==> not_revoked(
            algs,
            ro,
            cert_at(o, ee, path, j),
            issuer_spki_at(o, ee, path, a, j),
            issuer_ku_at(o, ee, path, j),
        ),
    }
}

/// The name constraints of every intermediate on `path` allow the end
/// entity's names.
pub open spec fn path_constraints_ok(o: ChainOptions, ee: Cert, path: Seq<usize>) -> bool {
    forall|j: int|
        0 <= j < path.len() ==> constraints_allow(
            o.intermediate_certs@[#[trigger] path[j] as int].name_constraints,
            ee.subject_alt_names@,
        )
}

/// The rank of the failure met when trust anchor `a` is tried to close the
/// partial chain `path`: the signature check's error, or
/// `NameConstraintViolation` where the signature holds and a name
/// constraint fails; 0 where `a` is no candidate or neither fails.
pub open spec fn anchor_floor<A: SignatureAlgorithm>(o: ChainOptions, algs: Seq<A>, ee: Cert, path: Seq<usize>, a: int) -> nat {
    let tip = cert_at(o, ee, path, path.len() as int);
    if 0 <= a < o.trust_anchors@.len() && o.trust_anchors@[a].subject@ == tip.issuer@ {
        match signed_data_result(algs, tip.signature_alg@, o.trust_anchors@[a].spki, tip.tbs, tip.signature) {
            Err(e) => error_rank(e),
            Ok(_) => if !(path_constraints_ok(o, ee, path) && constraints_allow(
                o.trust_anchors@[a].name_constraints,
                ee.subject_alt_names@,
            )) {
                error_rank(Error::NameConstraintViolation)
            } else {
                0
            },
        }
    } else {
        0
    }
}

/// The rank of the failure met when intermediate `i` is tried as the issuer
/// of the last certificate of `path`: the error of its own checks, where it
/// is a candidate not yet on the path and its signature on that certificate
/// holds; 0 otherwise.
pub open spec fn intermediate_floor<A: SignatureAlgorithm>(o: ChainOptions, algs: Seq<A>, ee: Cert, path: Seq<usize>, i: int) -> nat {
    let tip = cert_at(o, ee, path, path.len() as int);
    if 0 <= i < o.intermediate_certs@.len() && o.intermediate_certs@[i].subject@ == tip.issuer@
        && !path.contains(i as usize) && signature_ok(
        algs,
        tip.signature_alg@,
        o.intermediate_certs@[i].spki,
        tip.tbs,
        tip.signature,
    ) {
        match tip_check(
            o.intermediate_certs@[i],
            o.time,
            false,
            ca_count(o, ee, path.push(i as usize), path.len() + 1int),
            o.eku@,
            o.allow_absent_eku,
        ) {
            Err(e) => error_rank(e),
            Ok(_) => 0,
        }
    } else {
        0
    }
}

/// Whether an outcome of the search is success, running out of budget, or
/// an error of rank at least `floor`.
pub open spec fn meets_floor(r: Result<usize, Error>, floor: nat) -> bool {
    match r {
        Ok(_) => true,
        Err(e) => e == Error::MaximumSignatureChecksExceeded || error_rank(e) >= floor,
    }
}

/// A search outcome with success carrying no anchor.
pub open spec fn ok_as_index(r: Result<(), Error>) -> Result<usize, Error> {
    match r {
        Ok(()) => Ok(0),
        Err(e) => Err(e),
    }
}

/// A complete valid chain: the partial chain is sound, its last certificate
/// passes its checks and is signed by trust anchor `a`, and the name
/// constraints of every intermediate on it and of the anchor allow the end
/// entity's DNS names, and no certificate whose revocation is checked is
/// revoked or of unknown status where that is denied.
pub open spec fn valid_chain<A: SignatureAlgorithm>(o: ChainOptions, algs: Seq<A>, ee: Cert, path: Seq<usize>, a: int) -> bool {
    &&& prefix_ok(o, algs, ee, path)
    &&& position_ok(o, ee, path, path.len() as int)
    &&& 0 <= a < o.trust_anchors@.len()
    &&& link_ok(
        algs,
        cert_at(o, ee, path, path.len() as int),
        o.trust_anchors@[a].subject@,
        o.trust_anchors@[a].spki,
    )
    &&& forall|j: int|
        0 <= j < path.len() ==> constraints_allow(
            o.intermediate_certs@[#[trigger] path[j] as int].name_constraints,
            ee.subject_alt_names@,
        )
    &&& constraints_allow(o.trust_anchors@[a].name_constraints, ee.subject_alt_names@)
    &&& forall|j: int| 0 <= j <= path.len() ==> #[trigger] position_not_revoked(o, algs, ee, path, a, j)
}

fn contains_oid_exec(list: &Vec<Vec<u8>>, oid: &[u8]) -> (r: bool)
    ensures
        r == contains_oid(list@, oid@),
{
    let mut i: usize = 0;
    while i < list.len()
        invariant
            i <= list@.len(),
            forall|j: int| 0 <= j < i ==> (#[trigger] list@[j])@ != oid@,
        decreases list@.len() - i,
    {
        if bytes_equal(list[i].as_slice(), oid) {
            return true;
        }
        i = i + 1;
    }
    false
}

/// Makes the checks of `tip_check` on `c`.
pub fn check_tip(
    c: &Cert,
    time: Time,
    is_end_entity: bool,
    sub_ca_count: u64,
    eku: &[u8],
    allow_absent_eku: bool,
) -> (r: Result<(), Error>)
    ensures
        r == tip_check(*c, time, is_end_entity, sub_ca_count as int, eku@, allow_absent_eku),
        r != Err::<(), Error>(Error::MaximumSignatureChecksExceeded),
{
    reveal(tip_check);
    let now = time.as_secs();
    if now < c.not_before.as_secs() {
        return Err(Error::CertNotValidYet);
    }
    if now > c.not_after.as_secs() {
        return Err(Error::CertExpired);
    }
    if is_end_entity && c.is_ca {
        return Err(Error::CaUsedAsEndEntity);
    }
    if !is_end_entity && !c.is_ca {
        return Err(Error::EndEntityUsedAsCa);
    }
    if !is_end_entity {
        if let Some(n) = c.path_len_constraint {
            if sub_ca_count > n {
                return Err(Error::PathLenConstraintViolated);
            }
        }
    }
    if is_end_entity {
        match &c.eku {
            Some(l) => {
                if !contains_oid_exec(l, eku) {
                    return Err(Error::RequiredEkuNotFound);
                }
            },
            None => {
                if !allow_absent_eku {
                    return Err(Error::RequiredEkuNotFound);
                }
            },
        }
    }
    Ok(())
}

/// Whether `name` lies in the DNS subtree `base`.
pub fn is_in_subtree(name: &[u8], base: &[u8]) -> (r: bool)
    ensures
        r == in_subtree(name@, base@),
{
    if base.len() == 0 {
        return true;
    }
    if name.len() < base.len() {
        return false;
    }
    let k = name.len() - base.len();
    if !crate::subject_name::eq_ignore_case_from(name, k, base) {
        return false;
    }
    k == 0 || base[0] == 0x2E || name[k - 1] == 0x2E
}

fn in_some_subtree(name: &[u8], bases: &Vec<Vec<u8>>) -> (r: bool)
    ensures
        r == exists|i: int| 0 <= i < bases@.len() && in_subtree(name@, (#[trigger] bases@[i])@),
{
    let mut i: usize = 0;
    while i < bases.len()
        invariant
            i <= bases@.len(),
            forall|j: int| 0 <= j < i ==> !in_subtree(name@, (#[trigger] bases@[j])@),
        decreases bases@.len() - i,
    {
        if is_in_subtree(name, bases[i].as_slice()) {
            return true;
        }
        i = i + 1;
    }
    false
}

fn dns_name_allowed_exec(name: &[u8], permitted: &Option<Vec<Vec<u8>>>, excluded: &Vec<Vec<u8>>) -> (r: bool)
    ensures
        r == dns_name_allowed(name@, *permitted, excluded@),
{
    if let Some(l) = permitted {
        if !in_some_subtree(name, l) {
            return false;
        }
    }
    let mut i: usize = 0;
    while i < excluded.len()
        invariant
            i <= excluded@.len(),
            forall|j: int| 0 <= j < i ==> !in_subtree(name@, (#[trigger] excluded@[j])@),
        decreases excluded@.len() - i,
    {
        if is_in_subtree(name, excluded[i].as_slice()) {
            return false;
        }
        i = i + 1;
    }
    true
}

/// Whether `ip` lies in the subtree `subtree`.
pub fn is_ip_in_subtree(ip: &[u8], subtree: &[u8]) -> (r: bool)
    ensures
        r == ip_in_subtree(ip@, subtree@),
{
    let n = ip.len();
    let m = subtree.len();
    if m % 2 != 0 || m / 2 != n {
        return false;
    }
    let mut i: usize = 0;
    while i < n
        invariant
            n == ip@.len(),
            m == subtree@.len(),
            subtree@.len() == 2 * n,
            i <= n,
            forall|k: int| 0 <= k < i ==> (#[trigger] ip@[k]) & subtree@[n + k] == subtree@[k] & subtree@[n + k],
        decreases n - i,
    {
        if ip[i] & subtree[n + i] != subtree[i] & subtree[n + i] {
            return false;
        }
        i = i + 1;
    }
    true
}

fn ip_in_some_subtree(ip: &[u8], subtrees: &Vec<Vec<u8>>) -> (r: bool)
    ensures
        r == exists|i: int| 0 <= i < subtrees@.len() && ip_in_subtree(ip@, (#[trigger] subtrees@[i])@),
{
    let mut i: usize = 0;
    while i < subtrees.len()
        invariant
            i <= subtrees@.len(),
            forall|j: int| 0 <= j < i ==> !ip_in_subtree(ip@, (#[trigger] subtrees@[j])@),
        decreases subtrees@.len() - i,
    {
        if is_ip_in_subtree(ip, subtrees[i].as_slice()) {
            return true;
        }
        i = i + 1;
    }
    false
}

fn ip_allowed_exec(ip: &[u8], permitted: &Option<Vec<Vec<u8>>>, excluded: &Vec<Vec<u8>>) -> (r: bool)
    ensures
        r == ip_allowed(ip@, *permitted, excluded@),
{
    if let Some(l) = permitted {
        if !ip_in_some_subtree(ip, l) {
            return false;
        }
    }
    let mut i: usize = 0;
    while i < excluded.len()
        invariant
            i <= excluded@.len(),
            forall|j: int| 0 <= j < i ==> !ip_in_subtree(ip@, (#[trigger] excluded@[j])@),
        decreases excluded@.len() - i,
    {
        if is_ip_in_subtree(ip, excluded[i].as_slice()) {
            return false;
        }
        i = i + 1;
    }
    true
}

/// Whether name constraints allow every DNS name and IP address of `sans`.
pub fn check_name_constraints(nc: &NameConstraints, sans: &Vec<GeneralName>) -> (r: bool)
    ensures
        r == constraints_allow(*nc, sans@),
{
    let mut i: usize = 0;
    while i < sans.len()
        invariant
            i <= sans@.len(),
            forall|j: int| 0 <= j < i ==> name_allowed(#[trigger] sans@[j], *nc),
        decreases sans@.len() - i,
    {
        let ok = match &sans[i] {
            GeneralName::DnsName(n) => dns_name_allowed_exec(n.as_slice(), &nc.permitted_dns, &nc.excluded_dns),
            GeneralName::IpAddress(a) => ip_allowed_exec(a.as_slice(), &nc.permitted_ip, &nc.excluded_ip),
            GeneralName::Other => true,
        };
        if !ok {
            return false;
        }
        i = i + 1;
    }
    true
}

/// Whether some intermediate or anchor could issue `tip`: its subject is
/// `tip`'s issuer (and, for an intermediate, it is not on `path` yet).
pub open spec fn has_candidate_issuer(o: ChainOptions, tip: Cert, path: Seq<usize>) -> bool {
    (exists|a: int| 0 <= a < o.trust_anchors@.len() && (#[trigger] o.trust_anchors@[a]).subject@ == tip.issuer@)
        || (exists|i: int|
        0 <= i < o.intermediate_certs@.len() && (#[trigger] o.intermediate_certs@[i]).subject@
            == tip.issuer@ && !path.contains(i as usize))
}

#[verifier::rlimit(50)]
/// A valid chain passes through each intermediate at most once.
pub proof fn lemma_valid_chain_no_revisit<A: SignatureAlgorithm>(o: ChainOptions, algs: Seq<A>, ee: Cert, path: Seq<usize>, a: int)
    requires
        valid_chain(o, algs, ee, path, a),
    ensures
        forall|j: int, k: int| 0 <= j < k < path.len() ==> path[j] != path[k],
{
}

/// Whether `p` starts with `p0`.
pub open spec fn extends(p: Seq<usize>, p0: Seq<usize>) -> bool {
    p0.len() <= p.len() && p.subrange(0, p0.len() as int) == p0
}

/// Whether some valid chain goes through the partial chain `p0`.
pub open spec fn completable<A: SignatureAlgorithm>(o: ChainOptions, algs: Seq<A>, ee: Cert, p0: Seq<usize>) -> bool {
    exists|p: Seq<usize>, a: int| #[trigger] valid_chain(o, algs, ee, p, a) && extends(p, p0)
}

proof fn lemma_next_step<A: SignatureAlgorithm>(o: ChainOptions, algs: Seq<A>, ee: Cert, p0: Seq<usize>, p: Seq<usize>, a: int)
    requires
        valid_chain(o, algs, ee, p, a),
        extends(p, p0),
        p.len() > p0.len(),
    ensures
        p[p0.len() as int] < o.intermediate_certs@.len(),
        o.intermediate_certs@[p[p0.len() as int] as int].subject@ == cert_at(o, ee, p0, p0.len() as int).issuer@,
        !p0.contains(p[p0.len() as int]),
        signature_ok(
            algs,
            cert_at(o, ee, p0, p0.len() as int).signature_alg@,
            o.intermediate_certs@[p[p0.len() as int] as int].spki,
            cert_at(o, ee, p0, p0.len() as int).tbs,
            cert_at(o, ee, p0, p0.len() as int).signature,
        ),
        extends(p, p0.push(p[p0.len() as int])),
        position_ok(o, ee, p0, p0.len() as int),
{
    let n = p0.len() as int;
    let k = p[n];
    if n > 0 {
        assert(p0[n - 1] == p.subrange(0, n)[n - 1]);
    }
    assert(cert_at(o, ee, p, n) == cert_at(o, ee, p0, n));
    assert(position_ok(o, ee, p, n));
    lemma_ca_count_extends(o, ee, p, p0, n);
    assert(link_at(o, algs, ee, p, n));
    assert(cert_at(o, ee, p, n + 1) == o.intermediate_certs@[k as int]);
    assert forall|j: int| 0 <= j < n implies p0[j] != k by {
        assert(p0[j] == p.subrange(0, n)[j]);
        assert(p[j] != p[n]);
    }
    assert(p.subrange(0, n + 1) =~= p0.push(k));
}

proof fn lemma_ca_count_extends(o: ChainOptions, ee: Cert, p: Seq<usize>, p0: Seq<usize>, j: int)
    requires
        extends(p, p0),
        0 <= j <= p0.len(),
    ensures
        ca_count(o, ee, p, j) == ca_count(o, ee, p0, j),
    decreases j,
{
    if j > 1 {
        lemma_ca_count_extends(o, ee, p, p0, j - 1);
        assert(p0[j - 2] == p.subrange(0, p0.len() as int)[j - 2]);
        assert(cert_at(o, ee, p, j - 1) == cert_at(o, ee, p0, j - 1));
    }
}

proof fn lemma_extend_prefix<A: SignatureAlgorithm>(o: ChainOptions, algs: Seq<A>, ee: Cert, p: Seq<usize>, i: usize)
    requires
        prefix_ok(o, algs, ee, p),
        position_ok(o, ee, p, p.len() as int),
        i < o.intermediate_certs@.len(),
        !p.contains(i),
        link_ok(algs, cert_at(o, ee, p, p.len() as int), o.intermediate_certs@[i as int].subject@, o.intermediate_certs@[i as int].spki),
    ensures
        prefix_ok(o, algs, ee, p.push(i)),
{
    let q = p.push(i);
    assert forall|j: int| 0 <= j <= p.len() implies cert_at(o, ee, q, j) == cert_at(o, ee, p, j) by {
        if j > 0 {
            assert(q[j - 1] == p[j - 1]);
        }
    }
    assert(cert_at(o, ee, q, q.len() as int) == o.intermediate_certs@[i as int]);
    assert forall|j: int, k: int| 0 <= j < k < q.len() implies q[j] != q[k] by {
        if k == p.len() {
            assert(p[j] != i);
        }
    }
    assert forall|j: int| 0 <= j < q.len() implies #[trigger] position_ok(o, ee, q, j) by {
        assert(cert_at(o, ee, q, j) == cert_at(o, ee, p, j));
        assert(q.subrange(0, p.len() as int) =~= p);
        lemma_ca_count_extends(o, ee, q, p, j);
        if j < p.len() {
            assert(position_ok(o, ee, p, j));
        }
    }
    assert forall|j: int| 0 <= j < q.len() implies #[trigger] link_at(o, algs, ee, q, j) by {
        assert(cert_at(o, ee, q, j) == cert_at(o, ee, p, j));
        if j + 1 <= p.len() {
            assert(cert_at(o, ee, q, j + 1) == cert_at(o, ee, p, j + 1));
            assert(link_at(o, algs, ee, p, j));
        }
    }
}

fn path_contains(path: &Vec<usize>, i: usize) -> (r: bool)
    ensures
        r == path@.contains(i),
{
    let mut j: usize = 0;
    while j < path.len()
        invariant
            j <= path@.len(),
            forall|k: int| 0 <= k < j ==> path@[k] != i,
        decreases path@.len() - j,
    {
        if path[j] == i {
            return true;
        }
        j = j + 1;
    }
    false
}

/// Counts the CAs below the last certificate of `path` that are not
/// self-issued.
fn count_sub_cas(o: &ChainOptions, ee: &Cert, path: &Vec<usize>) -> (r: usize)
    requires
        path_indices_ok(*o, path@),
    ensures
        r == ca_count(*o, *ee, path@, path@.len() as int),
{
    if path.len() == 0 {
        return 0;
    }
    let mut count: usize = 0;
    let mut k: usize = 1;
    while k < path.len()
        invariant
            path_indices_ok(*o, path@),
            1 <= k <= path@.len(),
            count <= k - 1,
            count == ca_count(*o, *ee, path@, k as int),
        decreases path@.len() - k,
    {
        let c = &o.intermediate_certs[path[k - 1]];
        assert(*c == cert_at(*o, *ee, path@, k as int));
        if !bytes_equal(c.subject.as_slice(), c.issuer.as_slice()) {
            count = count + 1;
        }
        k = k + 1;
    }
    count
}

fn tip_cert<'a>(o: &'a ChainOptions, ee: &'a Cert, path: &Vec<usize>) -> (r: &'a Cert)
    requires
        path_indices_ok(*o, path@),
    ensures
        *r == cert_at(*o, *ee, path@, path@.len() as int),
{
    if path.len() == 0 {
        ee
    } else {
        &o.intermediate_certs[path[path.len() - 1]]
    }
}

fn path_constraints_allow(o: &ChainOptions, ee: &Cert, path: &Vec<usize>) -> (r: bool)
    requires
        path_indices_ok(*o, path@),
    ensures
        r == forall|j: int|
            0 <= j < path@.len() ==> constraints_allow(
                o.intermediate_certs@[#[trigger] path@[j] as int].name_constraints,
                ee.subject_alt_names@,
            ),
{
    let mut j: usize = 0;
    while j < path.len()
        invariant
            path_indices_ok(*o, path@),
            j <= path@.len(),
            forall|k: int|
                0 <= k < j ==> constraints_allow(
                    o.intermediate_certs@[#[trigger] path@[k] as int].name_constraints,
                    ee.subject_alt_names@,
                ),
        decreases path@.len() - j,
    {
        let c = &o.intermediate_certs[path[j]];
        if !check_name_constraints(&c.name_constraints, &ee.subject_alt_names) {
            return false;
        }
        j = j + 1;
    }
    true
}

fn serial_listed(crl: &Crl, serial: &[u8]) -> (r: bool)
    ensures
        r == serial_revoked(*crl, serial@),
{
    let mut i: usize = 0;
    while i < crl.revoked_serials.len()
        invariant
            i <= crl.revoked_serials@.len(),
            forall|k: int| 0 <= k < i ==> (#[trigger] crl.revoked_serials@[k])@ != serial@,
        decreases crl.revoked_serials@.len() - i,
    {
        if bytes_equal(crl.revoked_serials[i].as_slice(), serial) {
            return true;
        }
        i = i + 1;
    }
    false
}

/// The CRL counterpart of a signature error.
fn crl_signature_error(e: Error) -> (r: Error)
    ensures
        r == if e == Error::InvalidSignatureForPublicKey {
            Error::InvalidCrlSignatureForPublicKey
        } else if e == Error::UnsupportedSignatureAlgorithm {
            Error::UnsupportedCrlSignatureAlgorithm
        } else {
            Error::UnsupportedCrlSignatureAlgorithmForPublicKey
        },
{
    match e {
        Error::InvalidSignatureForPublicKey => Error::InvalidCrlSignatureForPublicKey,
        Error::UnsupportedSignatureAlgorithm => Error::UnsupportedCrlSignatureAlgorithm,
        _ => Error::UnsupportedCrlSignatureAlgorithmForPublicKey,
    }
}

/// Checks the revocation status of `c` against the CRLs of `ro`, where
/// `issuer_spki` and `issuer_ku` are the public key and KeyUsage cRLSign
/// bit of `c`'s issuer.
pub fn check_revocation<A: SignatureAlgorithm>(
    algs: &Vec<A>,
    ro: &RevocationOptions,
    c: &Cert,
    issuer_spki: &PublicKeyInfo,
    issuer_ku: Option<bool>,
) -> (r: Result<(), Error>)
    ensures
        r is Ok <==> not_revoked(algs@, *ro, *c, *issuer_spki, issuer_ku),
        r != Err::<(), Error>(Error::MaximumSignatureChecksExceeded),
        r == Err::<(), Error>(Error::CertRevoked) ==> exists|k: int|
            0 <= k < ro.crls@.len() && (#[trigger] ro.crls@[k]).issuer@ == c.issuer@ && serial_revoked(
                ro.crls@[k],
                c.serial@,
            ),
        r == Err::<(), Error>(Error::UnknownRevocationStatus) <==> (ro.status_policy
            == UnknownStatusPolicy::Deny && forall|k: int|
            0 <= k < ro.crls@.len() ==> (#[trigger] ro.crls@[k]).issuer@ != c.issuer@),
{
    let mut covered = false;
    let mut k: usize = 0;
    while k < ro.crls.len()
        invariant
            k <= ro.crls@.len(),
            forall|j: int| 0 <= j < k ==> crl_clears(algs@, #[trigger] ro.crls@[j], *c, *issuer_spki, issuer_ku),
            covered == exists|j: int| 0 <= j < k && (#[trigger] ro.crls@[j]).issuer@ == c.issuer@,
        decreases ro.crls@.len() - k,
    {
        let crl = &ro.crls[k];
        if bytes_equal(crl.issuer.as_slice(), c.issuer.as_slice()) {
            covered = true;
            if let Some(false) = issuer_ku {
                return Err(Error::IssuerNotCrlSigner);
            }
            match verify_signed_data(algs, crl.signature_alg.as_slice(), issuer_spki, &crl.tbs, &crl.signature) {
                Ok(()) => {},
                Err(e) => return Err(crl_signature_error(e)),
            }
            if serial_listed(crl, c.serial.as_slice()) {
                assert(ro.crls@[k as int].issuer@ == c.issuer@);
                return Err(Error::CertRevoked);
            }
        }
        k = k + 1;
    }
    if !covered && ro.status_policy == UnknownStatusPolicy::Deny {
        return Err(Error::UnknownRevocationStatus);
    }
    Ok(())
}

fn check_position_revocation<A: SignatureAlgorithm>(
    o: &ChainOptions,
    algs: &Vec<A>,
    ee: &Cert,
    path: &Vec<usize>,
    a: usize,
    ro: &RevocationOptions,
    j: usize,
) -> (r: Result<(), Error>)
    requires
        path_indices_ok(*o, path@),
        a < o.trust_anchors@.len(),
        j <= path@.len(),
    ensures
        r is Ok <==> not_revoked(
            algs@,
            *ro,
            cert_at(*o, *ee, path@, j as int),
            issuer_spki_at(*o, *ee, path@, a as int, j as int),
            issuer_ku_at(*o, *ee, path@, j as int),
        ),
        r != Err::<(), Error>(Error::MaximumSignatureChecksExceeded),
{
    let c = if j == 0 {
        ee
    } else {
        &o.intermediate_certs[path[j - 1]]
    };
    if j < path.len() {
        let issuer = &o.intermediate_certs[path[j]];
        check_revocation(algs, ro, c, &issuer.spki, issuer.key_usage_crl_sign)
    } else {
        check_revocation(algs, ro, c, &o.trust_anchors[a].spki, None)
    }
}

/// Checks revocation for the chain `path` closed by trust anchor `a`.
fn check_chain_revocation<A: SignatureAlgorithm>(
    o: &ChainOptions,
    algs: &Vec<A>,
    ee: &Cert,
    path: &Vec<usize>,
    a: usize,
) -> (r: Result<(), Error>)
    requires
        path_indices_ok(*o, path@),
        a < o.trust_anchors@.len(),
    ensures
        r is Ok <==> forall|j: int| 0 <= j <= path@.len() ==> #[trigger] position_not_revoked(*o, algs@, *ee, path@, a as int, j),
        r != Err::<(), Error>(Error::MaximumSignatureChecksExceeded),
{
    let ro = match &o.revocation {
        None => return Ok(()),
        Some(ro) => ro,
    };
    if ro.depth == RevocationCheckDepth::EndEntity {
        let r = check_position_revocation(o, algs, ee, path, a, ro, 0);
        proof {
            if r is Err {
                assert(!position_not_revoked(*o, algs@, *ee, path@, a as int, 0));
            }
        }
        return r;
    }
    let mut j: usize = 0;
    while j < path.len()
        invariant
            path_indices_ok(*o, path@),
            a < o.trust_anchors@.len(),
            o.revocation == Some(*ro),
            ro.depth == RevocationCheckDepth::Chain,
            j <= path@.len(),
            forall|k: int| 0 <= k < j ==> #[trigger] position_not_revoked(*o, algs@, *ee, path@, a as int, k),
        decreases path@.len() - j,
    {
        match check_position_revocation(o, algs, ee, path, a, ro, j) {
            Ok(()) => {},
            Err(e) => {
                assert(!position_not_revoked(*o, algs@, *ee, path@, a as int, j as int));
                return Err(e);
            },
        }
        j = j + 1;
    }
    let r = check_position_revocation(o, algs, ee, path, a, ro, path.len());
    proof {
        if r is Err {
            assert(!position_not_revoked(*o, algs@, *ee, path@, a as int, path@.len() as int));
        }
    }
    r
}

/// Tries to close the partial chain `path`, whose last certificate is `tip`,
/// with each trust anchor that could have issued `tip`.
#[verifier::rlimit(50)]
fn try_anchors<A: SignatureAlgorithm>(
    o: &ChainOptions,
    algs: &Vec<A>,
    ee: &Cert,
    path: &Vec<usize>,
    tip: &Cert,
    budget: u64,
) -> (r: (Result<usize, Error>, u64))
    requires
        prefix_ok(*o, algs@, *ee, path@),
        position_ok(*o, *ee, path@, path@.len() as int),
        *tip == cert_at(*o, *ee, path@, path@.len() as int),
    ensures
        r.1 <= budget,
        match r.0 {
            Ok(a) => valid_chain(*o, algs@, *ee, path@, a as int) && r.1 < budget,
            Err(e) => e == Error::MaximumSignatureChecksExceeded ==> r.1 == 0,
        },
        (budget == 0 && exists|a: int| 0 <= a < o.trust_anchors@.len() && (#[trigger] o.trust_anchors@[a]).subject@ == tip.issuer@)
            ==> r.0 == Err::<usize, Error>(Error::MaximumSignatureChecksExceeded),
        (exists|a: int| #[trigger] valid_chain(*o, algs@, *ee, path@, a)) ==> (r.0 is Ok || r.0 == Err::<
            usize,
            Error,
        >(Error::MaximumSignatureChecksExceeded)),
        (o.trust_anchors@.len() <= budget && exists|a: int| #[trigger] valid_chain(*o, algs@, *ee, path@, a))
            ==> r.0 is Ok,
        !(exists|a: int| 0 <= a < o.trust_anchors@.len() && (#[trigger] o.trust_anchors@[a]).subject@ == tip.issuer@)
            ==> r == (Err::<usize, Error>(Error::UnknownIssuer), budget),
        forall|a: int| 0 <= a < o.trust_anchors@.len() ==> meets_floor(r.0, #[trigger] anchor_floor(*o, algs@, *ee, path@, a)),
{
    let ghost p0 = path@;
    let ghost closes = exists|a: int| #[trigger] valid_chain(*o, algs@, *ee, path@, a);
    let ghost w: int = if closes {
        choose|a: int| #[trigger] valid_chain(*o, algs@, *ee, path@, a)
    } else {
        0
    };
    let mut remaining = budget;
    let mut err = Error::UnknownIssuer;
    let anchors = &o.trust_anchors;
    let mut a: usize = 0;
    while a < anchors.len()
        invariant
            p0 == path@,
            *tip == cert_at(*o, *ee, p0, p0.len() as int),
            prefix_ok(*o, algs@, *ee, p0),
            position_ok(*o, *ee, p0, p0.len() as int),
            anchors@ == o.trust_anchors@,
            a <= anchors@.len(),
            remaining <= budget,
            err != Error::MaximumSignatureChecksExceeded,
            budget == 0 ==> forall|k: int| 0 <= k < a ==> (#[trigger] anchors@[k]).subject@ != tip.issuer@,
            closes ==> valid_chain(*o, algs@, *ee, p0, w) && a <= w,
            remaining + a >= budget,
            forall|k: int| 0 <= k < a ==> error_rank(err) >= #[trigger] anchor_floor(*o, algs@, *ee, p0, k),
            (forall|k: int| 0 <= k < a ==> (#[trigger] anchors@[k]).subject@ != tip.issuer@) ==> (err
                == Error::UnknownIssuer && remaining == budget),
        decreases anchors@.len() - a,
    {
        let anchor = &anchors[a];
        if bytes_equal(tip.issuer.as_slice(), anchor.subject.as_slice()) {
            if remaining == 0 {
                return (Err(Error::MaximumSignatureChecksExceeded), 0);
            }
            remaining = remaining - 1;
            match verify_signed_data(algs, tip.signature_alg.as_slice(), &anchor.spki, &tip.tbs, &tip.signature) {
                Ok(()) => {
                    if path_constraints_allow(o, ee, path) && check_name_constraints(&anchor.name_constraints, &ee.subject_alt_names) {
                        match check_chain_revocation(o, algs, ee, path, a) {
                            Ok(()) => return (Ok(a), remaining),
                            Err(e) => {
                                err = err.most_specific(e);
                            },
                        }
                    } else {
                        err = err.most_specific(Error::NameConstraintViolation);
                    }
                },
                Err(e) => {
                    err = err.most_specific(e);
                },
            }
        }
        a = a + 1;
    }
    (Err(err), remaining)
}

/// Extends the partial chain `path` (end entity, then the intermediates it
/// indexes) depth-first until a trust anchor closes it, making at most
/// `budget` signature checks, and returns the anchor with the budget left.
/// On success `path` holds the complete chain; on failure it is as it was,
/// and the error is the most specific one met. Running out of budget stops
/// the whole search with `MaximumSignatureChecksExceeded`.
#[verifier::rlimit(80)]
#[verifier::loop_isolation(false)]
fn build_chain_inner<A: SignatureAlgorithm>(
    o: &ChainOptions,
    algs: &Vec<A>,
    ee: &Cert,
    path: &mut Vec<usize>,
    budget: u64,
) -> (r: (Result<usize, Error>, u64))
    requires
        prefix_ok(*o, algs@, *ee, old(path)@),
    ensures
        r.1 <= budget,
        match r.0 {
            Ok(a) => valid_chain(*o, algs@, *ee, final(path)@, a as int) && r.1 < budget,
            Err(e) => final(path)@ == old(path)@ && (e == Error::MaximumSignatureChecksExceeded ==> r.1 == 0),
        },
        (budget == 0 && position_ok(*o, *ee, old(path)@, old(path)@.len() as int)
            && has_candidate_issuer(*o, cert_at(*o, *ee, old(path)@, old(path)@.len() as int), old(path)@))
            ==> r.0 == Err::<usize, Error>(Error::MaximumSignatureChecksExceeded),
        completable(*o, algs@, *ee, old(path)@) ==> (r.0 is Ok || r.0 == Err::<usize, Error>(
            Error::MaximumSignatureChecksExceeded,
        )),
        tip_check(
            cert_at(*o, *ee, old(path)@, old(path)@.len() as int),
            o.time,
            old(path)@.len() == 0,
            ca_count(*o, *ee, old(path)@, old(path)@.len() as int),
            o.eku@,
            o.allow_absent_eku,
        ) matches Err(e) ==> r.0 == Err::<usize, Error>(e),
        (position_ok(*o, *ee, old(path)@, old(path)@.len() as int) && !has_candidate_issuer(
            *o,
            cert_at(*o, *ee, old(path)@, old(path)@.len() as int),
            old(path)@,
        )) ==> r.0 == Err::<usize, Error>(Error::UnknownIssuer),
        (o.intermediate_certs@.len() == 0 && o.trust_anchors@.len() <= budget && exists|a: int|
            #[trigger] valid_chain(*o, algs@, *ee, old(path)@, a)) ==> r.0 is Ok,
        position_ok(*o, *ee, old(path)@, old(path)@.len() as int) ==> forall|a: int|
            0 <= a < o.trust_anchors@.len() ==> meets_floor(
                r.0,
                #[trigger] anchor_floor(*o, algs@, *ee, old(path)@, a),
            ),
        position_ok(*o, *ee, old(path)@, old(path)@.len() as int) ==> forall|i: int|
            0 <= i < o.intermediate_certs@.len() ==> meets_floor(
                r.0,
                #[trigger] intermediate_floor(*o, algs@, *ee, old(path)@, i),
            ),
    decreases budget,
{
    let ghost p0 = path@;
    let ghost can = completable(*o, algs@, *ee, p0);
    let ghost (wp, wa) = if can {
        choose|p: Seq<usize>, a: int| #[trigger] valid_chain(*o, algs@, *ee, p, a) && extends(p, p0)
    } else {
        (Seq::empty(), 0int)
    };
    let ghost deeper = can && wp.len() > p0.len();
    proof {
        if can && !deeper {
            assert(wp =~= p0) by {
                assert(wp.subrange(0, p0.len() as int) == p0);
                assert(wp.subrange(0, p0.len() as int) =~= wp);
            }
            assert(valid_chain(*o, algs@, *ee, p0, wa));
        }
        if deeper {
            lemma_next_step(*o, algs@, *ee, p0, wp, wa);
        }
    }
    let depth = path.len();
    let tip = tip_cert(o, ee, path);
    let sub_ca_count = count_sub_cas(o, ee, path) as u64;
    match check_tip(tip, o.time, depth == 0, sub_ca_count, o.eku.as_slice(), o.allow_absent_eku) {
        Ok(()) => {},
        Err(e) => return (Err(e), budget),
    }
    assert(position_ok(*o, *ee, p0, p0.len() as int));
    let (first, mut remaining) = try_anchors(o, algs, ee, path, tip, budget);
    let mut err = match first {
        Ok(a) => return (Ok(a), remaining),
        Err(e) => {
            if e == Error::MaximumSignatureChecksExceeded {
                return (Err(e), remaining);
            }
            e
        },
    };
    let ints = &o.intermediate_certs;
    let mut i: usize = 0;
    while i < ints.len()
        invariant
            path@ == p0,
            *tip == cert_at(*o, *ee, p0, p0.len() as int),
            prefix_ok(*o, algs@, *ee, p0),
            position_ok(*o, *ee, p0, p0.len() as int),
            ints@ == o.intermediate_certs@,
            i <= ints@.len(),
            remaining <= budget,
            err != Error::MaximumSignatureChecksExceeded,
            budget == 0 ==> forall|k: int| 0 <= k < o.trust_anchors@.len() ==> (#[trigger] o.trust_anchors@[k]).subject@ != tip.issuer@,
            budget == 0 ==> forall|k: int| 0 <= k < i ==> !((#[trigger] ints@[k]).subject@ == tip.issuer@ && !p0.contains(k as usize)),
            deeper ==> i <= wp[p0.len() as int],
            deeper ==> valid_chain(*o, algs@, *ee, wp, wa) && extends(wp, p0),
            deeper ==> extends(wp, p0.push(wp[p0.len() as int])),
            deeper ==> ints@[wp[p0.len() as int] as int].subject@ == tip.issuer@ && !p0.contains(wp[p0.len() as int]),
            (!(exists|a: int| 0 <= a < o.trust_anchors@.len() && (#[trigger] o.trust_anchors@[a]).subject@ == tip.issuer@)
                && forall|k: int| 0 <= k < i ==> !((#[trigger] ints@[k]).subject@ == tip.issuer@ && !p0.contains(k as usize)))
                ==> err == Error::UnknownIssuer,
            forall|a: int| 0 <= a < o.trust_anchors@.len() ==> error_rank(err) >= #[trigger] anchor_floor(*o, algs@, *ee, p0, a),
            forall|k: int| 0 <= k < i ==> error_rank(err) >= #[trigger] intermediate_floor(*o, algs@, *ee, p0, k),
            deeper ==> signature_ok(algs@, tip.signature_alg@, ints@[wp[p0.len() as int] as int].spki, tip.tbs, tip.signature),
        decreases ints@.len() - i,
    {
        let cand = &ints[i];
        if bytes_equal(tip.issuer.as_slice(), cand.subject.as_slice()) && !path_contains(path, i) {
            if remaining == 0 {
                return (Err(Error::MaximumSignatureChecksExceeded), 0);
            }
            remaining = remaining - 1;
            match verify_signed_data(algs, tip.signature_alg.as_slice(), &cand.spki, &tip.tbs, &tip.signature) {
                Ok(()) => {
                    proof {
                        lemma_extend_prefix(*o, algs@, *ee, p0, i);
                    }
                    path.push(i);
                    proof {
                        assert(cert_at(*o, *ee, path@, path@.len() as int) == ints@[i as int]);
                        if deeper && i == wp[p0.len() as int] {
                            assert(valid_chain(*o, algs@, *ee, wp, wa) && extends(wp, path@));
                        }
                    }
                    let (res, left) = build_chain_inner(o, algs, ee, path, remaining);
                    match res {
                        Ok(found) => {
                            return (Ok(found), left);
                        },
                        Err(e) => {
                            path.pop();
                            assert(path@ =~= p0);
                            if e == Error::MaximumSignatureChecksExceeded {
                                return (Err(e), left);
                            }
                            remaining = left;
                            err = err.most_specific(e);
                        },
                    }
                },
                Err(e) => {
                    err = err.most_specific(e);
                },
            }
        }
        i = i + 1;
    }
    (Err(err), remaining)
}

/// Searches for a valid chain from `ee` to one of the trust anchors of `o`,
/// making at most `budget` signature checks, and returns the outcome with
/// the number of checks made. It succeeds only where such a chain exists,
/// and where one exists it succeeds unless the budget runs out;
/// `MaximumSignatureChecksExceeded` comes only once every check of the
/// budget has been made. An end entity that fails its own checks gives
/// that error; one that no anchor or intermediate could have issued gives
/// `UnknownIssuer`. Otherwise a failure ranks at least as high as every
/// failure met at a trust anchor that could have issued `ee` and at the own
/// checks of every intermediate that could have.
pub fn build_chain<A: SignatureAlgorithm>(o: &ChainOptions, algs: &Vec<A>, ee: &Cert, budget: u64) -> (r: (Result<(), Error>, u64))
    ensures
        r.1 <= budget,
        r.0 is Ok ==> exists|p: Seq<usize>, a: int| valid_chain(*o, algs@, *ee, p, a),
        r.0 is Ok ==> r.1 >= 1,
        (exists|p: Seq<usize>, a: int| valid_chain(*o, algs@, *ee, p, a)) ==> (r.0 is Ok || r.0 == Err::<
            (),
            Error,
        >(Error::MaximumSignatureChecksExceeded)),
        r.0 == Err::<(), Error>(Error::MaximumSignatureChecksExceeded) ==> r.1 == budget,
        tip_check(*ee, o.time, true, 0, o.eku@, o.allow_absent_eku) matches Err(e) ==> r.0 == Err::<(), Error>(e),
        (tip_check(*ee, o.time, true, 0, o.eku@, o.allow_absent_eku) is Ok && !has_candidate_issuer(*o, *ee, Seq::empty()))
            ==> r.0 == Err::<(), Error>(Error::UnknownIssuer),
        (o.intermediate_certs@.len() == 0 && o.trust_anchors@.len() <= budget && exists|a: int|
            valid_chain(*o, algs@, *ee, Seq::empty(), a)) ==> r.0 is Ok,
        (budget == 0 && tip_check(*ee, o.time, true, 0, o.eku@, o.allow_absent_eku) is Ok && has_candidate_issuer(*o, *ee, Seq::empty()))
            ==> r.0 == Err::<(), Error>(Error::MaximumSignatureChecksExceeded),
        tip_check(*ee, o.time, true, 0, o.eku@, o.allow_absent_eku) is Ok ==> forall|a: int|
            0 <= a < o.trust_anchors@.len() ==> meets_floor(
                ok_as_index(r.0),
                #[trigger] anchor_floor(*o, algs@, *ee, Seq::empty(), a),
            ),
        tip_check(*ee, o.time, true, 0, o.eku@, o.allow_absent_eku) is Ok ==> forall|i: int|
            0 <= i < o.intermediate_certs@.len() ==> meets_floor(
                ok_as_index(r.0),
                #[trigger] intermediate_floor(*o, algs@, *ee, Seq::empty(), i),
            ),
{
    let mut path: Vec<usize> = Vec::new();
    proof {
        assert(cert_at(*o, *ee, path@, 0) == *ee);
        assert(path@ =~= Seq::<usize>::empty());
        if exists|p: Seq<usize>, a: int| valid_chain(*o, algs@, *ee, p, a) {
            let (p, a) = choose|p: Seq<usize>, a: int| valid_chain(*o, algs@, *ee, p, a);
            assert(p.subrange(0, 0) =~= path@);
            assert(valid_chain(*o, algs@, *ee, p, a) && extends(p, path@));
        }
    }
    let (res, left) = build_chain_inner(o, algs, ee, &mut path, budget);
    match res {
        Ok(_) => (Ok(()), budget - left),
        Err(e) => (Err(e), budget - left),
    }
}

} // verus!
