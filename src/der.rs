//! Reading the tag and length of a DER-encoded value.

use vstd::prelude::*;

use crate::error::Error;

verus! {

/// The tag of a DER BOOLEAN.
pub const TAG_BOOLEAN: u8 = 0x01;

/// The tag of a DER INTEGER.
pub const TAG_INTEGER: u8 = 0x02;

/// The tag of a DER BIT STRING.
pub const TAG_BIT_STRING: u8 = 0x03;

/// The tag of a DER OCTET STRING.
pub const TAG_OCTET_STRING: u8 = 0x04;

/// The tag of a DER OBJECT IDENTIFIER.
pub const TAG_OID: u8 = 0x06;

/// The tag of a DER SEQUENCE.
pub const TAG_SEQUENCE: u8 = 0x30;

/// The tag of a DER UTCTime.
pub const TAG_UTC_TIME: u8 = 0x17;

/// The tag of a DER GeneralizedTime.
pub const TAG_GENERALIZED_TIME: u8 = 0x18;

/// The largest value length (exclusive) that the reader accepts.
pub const MAX_VALUE_LEN: usize = 0xFFFF;

/// The header of the DER value at the start of `input`: its tag, the length
/// of the tag and length octets, and the length of its contents. `None` where
/// the input is too short for a header, the tag uses the high-tag-number form,
/// or the length is not in its shortest form or reaches `MAX_VALUE_LEN`.
pub open spec fn der_header(input: Seq<u8>) -> Option<(u8, int, int)> {
    if input.len() < 2 || input[0] % 32 == 31 {
        None
    } else if input[1] < 0x80 {
        Some((input[0], 2, input[1] as int))
    } else if input[1] == 0x81 {
        if input.len() < 3 || input[2] < 0x80 {
            None
        } else {
            Some((input[0], 3, input[2] as int))
        }
    } else if input[1] == 0x82 {
        if input.len() < 4 {
            None
        } else {
            let len = input[2] as int * 256 + input[3] as int;
            if len < 0x100 || len >= MAX_VALUE_LEN {
                None
            } else {
                Some((input[0], 4, len))
            }
        }
    } else {
        None
    }
}

/// The value at the start of `input`, as (tag, start of contents, length of
/// contents), where the whole value lies within `input`.
pub open spec fn der_value(input: Seq<u8>) -> Option<(u8, int, int)> {
    match der_header(input) {
        Some((tag, h, len)) => if h + len <= input.len() {
            Some((tag, h, len))
        } else {
            None
        },
        None => None,
    }
}

/// Reads the tag and length of the DER value at the start of `input`, and
/// returns the tag with the range of its contents; `BadDer` where the header
/// is malformed or the contents run past the input.
pub fn read_tag_and_get_value(input: &[u8]) -> (r: Result<(u8, usize, usize), Error>)
    ensures
        match r {
            Ok((tag, start, len)) => der_value(input@) == Some((tag, start as int, len as int)),
            Err(e) => e == Error::BadDer && der_value(input@) is None,
        },
{
    if input.len() < 2 {
        return Err(Error::BadDer);
    }
    let tag = input[0];
    if tag % 32 == 31 {
        return Err(Error::BadDer);
    }
    let first = input[1];
    let (header, len): (usize, usize) = if first < 0x80 {
        (2, first as usize)
    } else if first == 0x81 {
        if input.len() < 3 || input[2] < 0x80 {
            return Err(Error::BadDer);
        }
        (3, input[2] as usize)
    } else if first == 0x82 {
        if input.len() < 4 {
            return Err(Error::BadDer);
        }
        let len = input[2] as usize * 256 + input[3] as usize;
        if len < 0x100 || len >= MAX_VALUE_LEN {
            return Err(Error::BadDer);
        }
        (4, len)
    } else {
        return Err(Error::BadDer);
    };
    if len > input.len() - header {
        return Err(Error::BadDer);
    }
    Ok((tag, header, len))
}

/// The bytes `input[start..end]`.
pub fn slice_range(input: &[u8], start: usize, end: usize) -> (r: &[u8])
    requires
        start <= end <= input@.len(),
    ensures
        r@ == input@.subrange(start as int, end as int),
{
    let head = input.split_at(end).0;
    head.split_at(start).1
}

/// A copy of the bytes `input[start..end]`.
pub fn copy_range(input: &[u8], start: usize, end: usize) -> (r: Vec<u8>)
    requires
        start <= end <= input@.len(),
    ensures
        r@ == input@.subrange(start as int, end as int),
{
    let mut out: Vec<u8> = Vec::with_capacity(end - start);
    let mut i: usize = start;
    while i < end
        invariant
            start <= i <= end <= input@.len(),
            out@ == input@.subrange(start as int, i as int),
        decreases end - i,
    {
        out.push(input[i]);
        i = i + 1;
        assert(out@ =~= input@.subrange(start as int, i as int));
    }
    out
}

/// The DER value at `pos` of `input[..end]`, as (tag, start of contents,
/// end of contents) in positions of `input`.
#[verifier::opaque]
pub open spec fn value_at(input: Seq<u8>, pos: int, end: int) -> Option<(u8, int, int)> {
    match der_value(input.subrange(pos, end)) {
        Some((tag, h, len)) => Some((tag, pos + h, pos + h + len)),
        None => None,
    }
}

/// Reads the DER value at `pos` of `input[..end]`: its tag and the range of
/// its contents, in positions of `input`; `BadDer` where it is malformed.
pub fn read_value_at(input: &[u8], pos: usize, end: usize) -> (r: Result<(u8, usize, usize), Error>)
    requires
        pos <= end <= input@.len(),
    ensures
        match r {
            Ok((tag, s, e)) => value_at(input@, pos as int, end as int) == Some((tag, s as int, e as int))
                && pos < s <= e <= end,
            Err(e) => e == Error::BadDer && value_at(input@, pos as int, end as int) is None,
        },
{
    reveal(value_at);
    let window = slice_range(input, pos, end);
    match read_tag_and_get_value(window) {
        Ok((tag, h, len)) => {
            assert(h >= 2);
            Ok((tag, pos + h, pos + h + len))
        },
        Err(e) => Err(e),
    }
}

/// Reads the DER value at `pos` of `input[..end]`, which must have tag
/// `tag`, and returns the range of its contents; `BadDer` otherwise.
pub fn expect_tag_at(input: &[u8], pos: usize, end: usize, tag: u8) -> (r: Result<(usize, usize), Error>)
    requires
        pos <= end <= input@.len(),
    ensures
        match r {
            Ok((s, e)) => value_at(input@, pos as int, end as int) == Some((tag, s as int, e as int))
                && pos < s <= e <= end,
            Err(e) => e == Error::BadDer && !(value_at(input@, pos as int, end as int) matches Some(
                v,
            ) && v.0 == tag),
        },
{
    match read_value_at(input, pos, end) {
        Ok((t, s, e)) => if t == tag {
            Ok((s, e))
        } else {
            Err(Error::BadDer)
        },
        Err(e) => Err(e),
    }
}

/// Reads the DER BOOLEAN at `pos` of `input[..end]`, whose one content
/// octet must be 0x00 or 0xFF, and returns it with the end of the value.
pub fn read_boolean_at(input: &[u8], pos: usize, end: usize) -> (r: Result<(bool, usize), Error>)
    requires
        pos <= end <= input@.len(),
    ensures
        match r {
            Ok((b, next)) => value_at(input@, pos as int, end as int) matches Some((tag, s, e)) && tag
                == TAG_BOOLEAN && e == s + 1 && next == e && (input@[s] == 0xFF || input@[s] == 0x00)
                && b == (input@[s] == 0xFF) && pos < next <= end,
            Err(e) => e == Error::BadDer,
        },
{
    let (s, e) = match expect_tag_at(input, pos, end, TAG_BOOLEAN) {
        Ok(r) => r,
        Err(e) => return Err(e),
    };
    if e - s != 1 {
        return Err(Error::BadDer);
    }
    let b = input[s];
    if b == 0xFF {
        Ok((true, e))
    } else if b == 0x00 {
        Ok((false, e))
    } else {
        Err(Error::BadDer)
    }
}

/// A value read at `pos` has the tag that stands there.
pub proof fn lemma_value_at_tag(input: Seq<u8>, pos: int, end: int)
    requires
        0 <= pos <= end <= input.len(),
    ensures
        value_at(input, pos, end) matches Some(v) ==> pos < end && input[pos] == v.0,
{
    reveal(value_at);
    if value_at(input, pos, end) is Some {
        assert(input.subrange(pos, end)[0] == input[pos]);
    }
}

} // verus!
