//! DNS-name and IP-address identifiers, and the rules by which a name that a
//! certificate presents matches a reference name.

use vstd::prelude::*;

verus! {

/// A name that a certificate's subjectAltName extension holds.
#[derive(Debug, Clone)]
pub enum GeneralName {
    /// A dNSName: ASCII bytes, possibly with a leading `*.` wildcard label.
    DnsName(Vec<u8>),
    /// An iPAddress: 4 octets for IPv4, 16 for IPv6.
    IpAddress(Vec<u8>),
    /// Any other form of name, which never matches a reference name.
    Other,
}

/// The name that a certificate is checked against.
#[derive(Debug, Clone)]
pub enum SubjectNameRef {
    /// A DNS name, as ASCII bytes.
    DnsName(Vec<u8>),
    /// An IP address, as 4 or 16 octets.
    IpAddress(Vec<u8>),
}

/// ASCII lower-casing of one byte.
pub open spec fn ascii_lower(b: u8) -> u8 {
    if 0x41 <= b <= 0x5A {
        (b + 32) as u8
    } else {
        b
    }
}

/// Equality of two byte strings up to ASCII case.
pub open spec fn eq_ignore_case(a: Seq<u8>, b: Seq<u8>) -> bool {
    a.len() == b.len() && forall|i: int| 0 <= i < a.len() ==> ascii_lower(#[trigger] a[i]) == ascii_lower(b[i])
}

/// A byte that may stand in a DNS identifier: a letter, a digit, `-` or `.`.
pub open spec fn is_dns_byte(b: u8) -> bool {
    (0x30 <= b <= 0x39) || (0x41 <= b <= 0x5A) || (0x61 <= b <= 0x7A) || b == 0x2D || b == 0x2E
}

/// A DNS identifier: 1 to 253 bytes of letters, digits, `-` and `.`, made
/// of non-empty labels separated by single dots, where no label starts or
/// ends with `-`.
pub open spec fn valid_dns_id(s: Seq<u8>) -> bool {
    &&& 0 < s.len() <= 253
    &&& forall|i: int| 0 <= i < s.len() ==> is_dns_byte(#[trigger] s[i])
    &&& s[0] != 0x2E && s[s.len() - 1] != 0x2E
    &&& forall|i: int| 0 <= i < s.len() - 1 && #[trigger] s[i] == 0x2E ==> s[i + 1] != 0x2E
    &&& forall|i: int|
        0 <= i < s.len() && #[trigger] s[i] == 0x2D ==> (0 < i && s[i - 1] != 0x2E && i + 1 < s.len()
            && s[i + 1] != 0x2E)
}

/// Whether a presented name has the wildcard form `*.` followed by more.
pub open spec fn is_wildcard(p: Seq<u8>) -> bool {
    p.len() >= 2 && p[0] == 0x2A && p[1] == 0x2E
}

/// A name that a certificate may present: a DNS identifier, or `*.`
/// followed by one.
pub open spec fn valid_presented_id(p: Seq<u8>) -> bool {
    if is_wildcard(p) {
        valid_dns_id(p.subrange(2, p.len() as int))
    } else {
        valid_dns_id(p)
    }
}

/// Whether the presented DNS name `p` matches the reference DNS name `r`: up
/// to ASCII case they are equal, or `p` is `*.` and a suffix, and `r` is one
/// non-empty label, a dot and that suffix.
pub open spec fn presented_matches(p: Seq<u8>, r: Seq<u8>) -> bool {
    if is_wildcard(p) {
        let suffix = p.subrange(2, p.len() as int);
        let k = r.len() - suffix.len();
        &&& valid_dns_id(suffix)
        &&& r.len() > suffix.len() + 1
        &&& r[k - 1] == 0x2E
        &&& forall|j: int| 0 <= j < k - 1 ==> #[trigger] r[j] != 0x2E
        &&& eq_ignore_case(r.subrange(k, r.len() as int), suffix)
    } else {
        valid_dns_id(p) && eq_ignore_case(p, r)
    }
}

/// Whether a name of a certificate matches the reference name.
pub open spec fn general_name_matches(g: GeneralName, n: SubjectNameRef) -> bool {
    match (g, n) {
        (GeneralName::DnsName(p), SubjectNameRef::DnsName(r)) => presented_matches(p@, r@),
        (GeneralName::IpAddress(a), SubjectNameRef::IpAddress(b)) => a@ == b@,
        _ => false,
    }
}

/// Whether `name` is a well-formed reference name.
pub open spec fn valid_reference(name: SubjectNameRef) -> bool {
    match name {
        SubjectNameRef::DnsName(r) => valid_dns_id(r@),
        SubjectNameRef::IpAddress(_) => true,
    }
}

fn ascii_lower_byte(b: u8) -> (r: u8)
    ensures
        r == ascii_lower(b),
{
    if b >= 0x41 && b <= 0x5A {
        b + 32
    } else {
        b
    }
}

/// Compares `a[a_start..]` with all of `b` up to ASCII case.
pub fn eq_ignore_case_from(a: &[u8], a_start: usize, b: &[u8]) -> (r: bool)
    requires
        a_start <= a@.len(),
    ensures
        r == eq_ignore_case(a@.subrange(a_start as int, a@.len() as int), b@),
{
    if a.len() - a_start != b.len() {
        return false;
    }
    let a_len = a.len();
    let mut i: usize = 0;
    while i < b.len()
        invariant
            a_len == a@.len(),
            a_start <= a@.len(),
            a@.len() - a_start == b@.len(),
            i <= b@.len(),
            forall|j: int|
                0 <= j < i ==> ascii_lower(#[trigger] b@[j]) == ascii_lower(a@[a_start + j]),
        decreases b@.len() - i,
    {
        if ascii_lower_byte(a[a_start + i]) != ascii_lower_byte(b[i]) {
            assert(a@.subrange(a_start as int, a@.len() as int)[i as int] == a@[a_start + i]);
            return false;
        }
        i = i + 1;
    }
    proof {
        let s = a@.subrange(a_start as int, a@.len() as int);
        assert forall|j: int| 0 <= j < s.len() implies ascii_lower(#[trigger] s[j]) == ascii_lower(
            b@[j],
        ) by {
            assert(s[j] == a@[a_start + j]);
            assert(ascii_lower(b@[j]) == ascii_lower(a@[a_start + j]));
        }
    }
    true
}

fn is_dns_byte_exec(b: u8) -> (r: bool)
    ensures
        r == is_dns_byte(b),
{
    (b >= 0x30 && b <= 0x39) || (b >= 0x41 && b <= 0x5A) || (b >= 0x61 && b <= 0x7A) || b == 0x2D
        || b == 0x2E
}

/// Whether `s[start..]` is a DNS identifier.
fn is_valid_dns_id_from(s: &[u8], start: usize) -> (r: bool)
    requires
        start <= s@.len(),
    ensures
        r == valid_dns_id(s@.subrange(start as int, s@.len() as int)),
{
    let ghost t = s@.subrange(start as int, s@.len() as int);
    let n = s.len() - start;
    if n == 0 || n > 253 {
        return false;
    }
    if s[start] == 0x2E || s[s.len() - 1] == 0x2E {
        assert(t[0] == s@[start as int]);
        assert(t[t.len() - 1] == s@[s@.len() - 1]);
        return false;
    }
    let s_len = s.len();
    let mut i: usize = 0;
    while i < n
        invariant
            s_len == s@.len(),
            n == s@.len() - start,
            t == s@.subrange(start as int, s@.len() as int),
            0 < n <= 253,
            i <= n,
            t[0] != 0x2E,
            t[t.len() - 1] != 0x2E,
            forall|j: int| 0 <= j < i ==> is_dns_byte(#[trigger] t[j]),
            forall|j: int| 0 <= j < i && j < t.len() - 1 && #[trigger] t[j] == 0x2E ==> t[j + 1] != 0x2E,
            forall|j: int|
                0 <= j < i && #[trigger] t[j] == 0x2D ==> (0 < j && t[j - 1] != 0x2E && j + 1 < t.len()
                    && t[j + 1] != 0x2E),
        decreases n - i,
    {
        let b = s[start + i];
        assert(t[i as int] == b);
        if !is_dns_byte_exec(b) {
            return false;
        }
        if b == 0x2E && i + 1 < n && s[start + i + 1] == 0x2E {
            assert(t[i + 1] == s@[start + i + 1]);
            return false;
        }
        if b == 0x2D {
            if i == 0 || s[start + i - 1] == 0x2E || i + 1 >= n || s[start + i + 1] == 0x2E {
                if i > 0 {
                    assert(t[i - 1] == s@[start + i - 1]);
                }
                if i + 1 < n {
                    assert(t[i + 1] == s@[start + i + 1]);
                }
                return false;
            }
            assert(t[i - 1] == s@[start + i - 1]);
            assert(t[i + 1] == s@[start + i + 1]);
        }
        if b == 0x2E && i + 1 < n {
            assert(t[i + 1] == s@[start + i + 1]);
        }
        i = i + 1;
    }
    true
}

/// Whether `s` is a DNS identifier.
pub fn is_valid_dns_id(s: &[u8]) -> (r: bool)
    ensures
        r == valid_dns_id(s@),
{
    assert(s@.subrange(0, s@.len() as int) =~= s@);
    is_valid_dns_id_from(s, 0)
}

/// Whether `p` is a name that a certificate may present.
pub fn is_valid_presented_id(p: &[u8]) -> (r: bool)
    ensures
        r == valid_presented_id(p@),
{
    if p.len() >= 2 && p[0] == 0x2A && p[1] == 0x2E {
        is_valid_dns_id_from(p, 2)
    } else {
        is_valid_dns_id(p)
    }
}

/// Whether the presented DNS name `p` matches the reference DNS name `r`.
pub fn presented_id_matches_reference_id(p: &[u8], r: &[u8]) -> (res: bool)
    ensures
        res == presented_matches(p@, r@),
{
    if p.len() >= 2 && p[0] == 0x2A && p[1] == 0x2E {
        let ghost suffix = p@.subrange(2, p@.len() as int);
        if !is_valid_dns_id_from(p, 2) {
            return false;
        }
        let suffix_len = p.len() - 2;
        assert(suffix.len() == suffix_len);
        if r.len() <= suffix_len + 1 {
            return false;
        }
        let k = r.len() - suffix_len;
        if r[k - 1] != 0x2E {
            return false;
        }
        let mut j: usize = 0;
        while j < k - 1
            invariant
                is_wildcard(p@),
                suffix_len == p@.len() - 2,
                k == r@.len() - suffix_len,
                1 < k <= r@.len(),
                j <= k - 1,
                forall|i: int| 0 <= i < j ==> #[trigger] r@[i] != 0x2E,
            decreases k - 1 - j,
        {
            if r[j] == 0x2E {
                assert(r@[j as int] == 0x2E);
                return false;
            }
            j = j + 1;
        }
        let suffix_bytes = p.split_at(2).1;
        eq_ignore_case_from(r, k, suffix_bytes)
    } else {
        if !is_valid_dns_id(p) {
            return false;
        }
        assert(r@.subrange(0, r@.len() as int) =~= r@);
        eq_ignore_case_from(r, 0, p) && {
            proof {
                lemma_eq_ignore_case_symmetric(r@, p@);
            }
            true
        }
    }
}

proof fn lemma_eq_ignore_case_symmetric(a: Seq<u8>, b: Seq<u8>)
    ensures
        eq_ignore_case(a, b) == eq_ignore_case(b, a),
{
    if eq_ignore_case(a, b) {
        assert forall|i: int| 0 <= i < b.len() implies ascii_lower(#[trigger] b[i]) == ascii_lower(
            a[i],
        ) by {
            assert(ascii_lower(a[i]) == ascii_lower(b[i]));
        }
    }
    if eq_ignore_case(b, a) {
        assert forall|i: int| 0 <= i < a.len() implies ascii_lower(#[trigger] a[i]) == ascii_lower(
            b[i],
        ) by {
            assert(ascii_lower(b[i]) == ascii_lower(a[i]));
        }
    }
}

/// Whether the name `g` of a certificate matches the reference name `n`.
pub fn general_name_matches_exec(g: &GeneralName, n: &SubjectNameRef) -> (r: bool)
    ensures
        r == general_name_matches(*g, *n),
{
    match (g, n) {
        (GeneralName::DnsName(p), SubjectNameRef::DnsName(r)) => presented_id_matches_reference_id(
            p.as_slice(),
            r.as_slice(),
        ),
        (GeneralName::IpAddress(a), SubjectNameRef::IpAddress(b)) => bytes_equal(
            a.as_slice(),
            b.as_slice(),
        ),
        _ => false,
    }
}

/// Byte-for-byte equality.
pub fn bytes_equal(a: &[u8], b: &[u8]) -> (r: bool)
    ensures
        r == (a@ == b@),
{
    if a.len() != b.len() {
        return false;
    }
    let mut i: usize = 0;
    while i < a.len()
        invariant
            a@.len() == b@.len(),
            i <= a@.len(),
            forall|j: int| 0 <= j < i ==> a@[j] == b@[j],
        decreases a@.len() - i,
    {
        if a[i] != b[i] {
            return false;
        }
        i = i + 1;
    }
    assert(a@ =~= b@);
    true
}

} // verus!
