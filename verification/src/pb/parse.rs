//! Reading the binary layer of a pipeline token back into operations.

use vstd::prelude::*;
use vstd::slice::slice_subrange;
use vstd::utf8::{decode_utf8, encode_utf8, valid_utf8};
use crate::pb::ops::{ops_of, Op, Spec};
use crate::pb::wire::{
    body_of, delimited, fixed32_field, frame, int_field, int_value, key_of,
    lemma_text_empty, operation,
    tag_of, text_field, to_wire, two_64, uint_field, varint, wire, FRAME_FIELD, KIND_BYTES,
    KIND_FIXED32, KIND_VARINT, TAG_CONTRAST, TAG_CROP, TAG_FILTER, TAG_FLIPH, TAG_FLIPV, TAG_OIL,
    TAG_RESIZE, TAG_TEXT, TAG_WATERMARK,
};

verus! {

/// `core::str::Utf8Error`: why bytes are not UTF-8.
#[verifier::external_type_specification]
#[verifier::external_body]
pub struct ExUtf8Error(core::str::Utf8Error);

/// `core::str::from_utf8` succeeds exactly on well-formed UTF-8 and then
/// hands back the same bytes as text.
pub assume_specification[ core::str::from_utf8 ](v: &[u8]) -> (r: Result<
    &str,
    core::str::Utf8Error,
>)
    ensures
        r is Ok <==> valid_utf8(v@),
        r matches Ok(s) ==> encode_utf8(s@) == v@,
;

/// The longest varint that is read.
pub const VARINT_MAX_LEN: u8 = 10;

/// A varint of at most `limit` bytes at the front of `s`: its value and its
/// length.
pub closed spec fn varint_at(s: Seq<u8>, limit: nat) -> Option<(nat, nat)>
    decreases limit,
{
    if limit == 0 || s.len() == 0 {
        None
    } else if s[0] < 128 {
        Some((s[0] as nat, 1nat))
    } else {
        match varint_at(s.skip(1), (limit - 1) as nat) {
            Some((v, n)) => Some(((s[0] - 128) as nat + 128 * v, n + 1)),
            None => None,
        }
    }
}

/// An unsigned field at the front of `s`, or zero where `s` does not start
/// with its key: the value and the bytes taken.
pub closed spec fn uint_at(s: Seq<u8>, field: u8) -> Option<(nat, nat)> {
    if s.len() > 0 && s[0] == key_of(field, KIND_VARINT) {
        match varint_at(s.skip(1), VARINT_MAX_LEN as nat) {
            Some((v, n)) => Some((v, n + 1)),
            None => None,
        }
    } else {
        Some((0nat, 0nat))
    }
}

pub closed spec fn u32_at(s: Seq<u8>, field: u8) -> Option<(u32, nat)> {
    match uint_at(s, field) {
        Some((v, n)) => if v <= u32::MAX {
            Some((v as u32, n))
        } else {
            None
        },
        None => None,
    }
}

/// The signed selector that a wire number stands for.
pub closed spec fn int_of(v: nat) -> Option<i32> {
    if v <= i32::MAX {
        Some(v as i32)
    } else if two_64() + i32::MIN <= v < two_64() {
        Some((v - two_64()) as i32)
    } else {
        None
    }
}

pub closed spec fn i32_at(s: Seq<u8>, field: u8) -> Option<(i32, nat)> {
    match uint_at(s, field) {
        Some((v, n)) => match int_of(v) {
            Some(x) => Some((x, n)),
            None => None,
        },
        None => None,
    }
}

pub closed spec fn fixed32_at(s: Seq<u8>, field: u8) -> Option<(u32, nat)> {
    if s.len() > 0 && s[0] == key_of(field, KIND_FIXED32) {
        if s.len() >= 5 {
            Some(((s[1] + 256 * s[2] + 65536 * s[3] + 16777216 * s[4]) as u32, 5nat))
        } else {
            None
        }
    } else {
        Some((0u32, 0nat))
    }
}

/// A delimited field that must stand at the front of `s`: its payload and
/// the bytes taken.
pub closed spec fn delimited_at(s: Seq<u8>, field: u8) -> Option<(Seq<u8>, nat)> {
    if s.len() > 0 && s[0] == key_of(field, KIND_BYTES) {
        match varint_at(s.skip(1), VARINT_MAX_LEN as nat) {
            Some((len, n)) => if 1 + n + len <= s.len() {
                Some((s.subrange((1 + n) as int, (1 + n + len) as int), 1 + n + len))
            } else {
                None
            },
            None => None,
        }
    } else {
        None
    }
}

pub closed spec fn text_at(s: Seq<u8>, field: u8) -> Option<(Seq<char>, nat)> {
    if s.len() > 0 && s[0] == key_of(field, KIND_BYTES) {
        match delimited_at(s, field) {
            Some((payload, n)) => if valid_utf8(payload) {
                Some((decode_utf8(payload), n))
            } else {
                None
            },
            None => None,
        }
    } else {
        Some((Seq::<char>::empty(), 0nat))
    }
}

pub closed spec fn resize_at(s: Seq<u8>) -> Option<Op> {
    match u32_at(s, 1) {
        None => None,
        Some((width, n1)) => match u32_at(s.skip(n1 as int), 2) {
            None => None,
            Some((height, n2)) => match i32_at(s.skip((n1 + n2) as int), 3) {
                None => None,
                Some((rtype, n3)) => match i32_at(s.skip((n1 + n2 + n3) as int), 4) {
                    None => None,
                    Some((filter, n4)) => if n1 + n2 + n3 + n4 == s.len() {
                        Some(Op::Resize { width, height, rtype, filter })
                    } else {
                        None
                    },
                },
            },
        },
    }
}

pub closed spec fn crop_at(s: Seq<u8>) -> Option<Op> {
    match u32_at(s, 1) {
        None => None,
        Some((x1, n1)) => match u32_at(s.skip(n1 as int), 2) {
            None => None,
            Some((y1, n2)) => match u32_at(s.skip((n1 + n2) as int), 3) {
                None => None,
                Some((x2, n3)) => match u32_at(s.skip((n1 + n2 + n3) as int), 4) {
                    None => None,
                    Some((y2, n4)) => if n1 + n2 + n3 + n4 == s.len() {
                        Some(Op::Crop { x1, y1, x2, y2 })
                    } else {
                        None
                    },
                },
            },
        },
    }
}

pub closed spec fn contrast_at(s: Seq<u8>) -> Option<Op> {
    match fixed32_at(s, 1) {
        None => None,
        Some((contrast, n1)) => if n1 == s.len() {
            Some(Op::Contrast { contrast })
        } else {
            None
        },
    }
}

pub closed spec fn filter_at(s: Seq<u8>) -> Option<Op> {
    match i32_at(s, 1) {
        None => None,
        Some((filter, n1)) => if n1 == s.len() {
            Some(Op::Filter { filter })
        } else {
            None
        },
    }
}

pub closed spec fn watermark_at(s: Seq<u8>) -> Option<Op> {
    match u32_at(s, 1) {
        None => None,
        Some((x, n1)) => match u32_at(s.skip(n1 as int), 2) {
            None => None,
            Some((y, n2)) => match u32_at(s.skip((n1 + n2) as int), 3) {
                None => None,
                Some((alpha, n3)) => if n1 + n2 + n3 == s.len() {
                    Some(Op::Watermark { x, y, alpha })
                } else {
                    None
                },
            },
        },
    }
}

pub closed spec fn draw_text_at(s: Seq<u8>) -> Option<Op> {
    match text_at(s, 1) {
        None => None,
        Some((text, n1)) => match u32_at(s.skip(n1 as int), 2) {
            None => None,
            Some((x, n2)) => match u32_at(s.skip((n1 + n2) as int), 3) {
                None => None,
                Some((y, n3)) => if n1 + n2 + n3 == s.len() {
                    Some(Op::Text { text, x, y })
                } else {
                    None
                },
            },
        },
    }
}

pub closed spec fn oil_at(s: Seq<u8>) -> Option<Op> {
    match i32_at(s, 1) {
        None => None,
        Some((radius, n1)) => match fixed32_at(s.skip(n1 as int), 2) {
            None => None,
            Some((intensity, n2)) => if n1 + n2 == s.len() {
                Some(Op::Oil { radius, intensity })
            } else {
                None
            },
        },
    }
}

/// The operation with tag `tag` whose body is exactly `s`.
pub closed spec fn body_at(tag: u8, s: Seq<u8>) -> Option<Op> {
    if tag == TAG_RESIZE {
        resize_at(s)
    } else if tag == TAG_CROP {
        crop_at(s)
    } else if tag == TAG_FLIPV {
        if s.len() == 0 {
            Some(Op::Flipv)
        } else {
            None
        }
    } else if tag == TAG_FLIPH {
        if s.len() == 0 {
            Some(Op::Fliph)
        } else {
            None
        }
    } else if tag == TAG_CONTRAST {
        contrast_at(s)
    } else if tag == TAG_FILTER {
        filter_at(s)
    } else if tag == TAG_WATERMARK {
        watermark_at(s)
    } else if tag == TAG_TEXT {
        draw_text_at(s)
    } else if tag == TAG_OIL {
        oil_at(s)
    } else {
        None
    }
}

/// The operation that `s` is the whole encoding of.
pub closed spec fn operation_at(s: Seq<u8>) -> Option<Op> {
    if s.len() > 0 && s[0] % 8 == KIND_BYTES && 1 <= s[0] / 8 <= 9 {
        match delimited_at(s, s[0] / 8) {
            Some((body, n)) => if n == s.len() {
                body_at(s[0] / 8, body)
            } else {
                None
            },
            None => None,
        }
    } else {
        None
    }
}

/// The frame at the front of `s`: its operation and the bytes taken.
pub closed spec fn frame_at(s: Seq<u8>) -> Option<(Op, nat)> {
    match delimited_at(s, FRAME_FIELD) {
        Some((inner, n)) => match operation_at(inner) {
            Some(op) => Some((op, n)),
            None => None,
        },
        None => None,
    }
}

/// The operations that the frames of `s` hold, read front to back.
pub closed spec fn ops_at(s: Seq<u8>) -> Option<Seq<Op>>
    decreases s.len(),
{
    if s.len() == 0 {
        Some(Seq::<Op>::empty())
    } else {
        match frame_at(s) {
            Some((op, n)) => if 0 < n <= s.len() {
                match ops_at(s.skip(n as int)) {
                    Some(rest) => Some(seq![op] + rest),
                    None => None,
                }
            } else {
                None
            },
            None => None,
        }
    }
}

fn read_varint(b: &[u8], pos: usize, end: usize, limit: u8) -> (r: Option<(u64, usize)>)
    requires
        pos <= end <= b.len(),
    ensures
        match varint_at(b@.subrange(pos as int, end as int), limit as nat) {
            Some((v, n)) => if v <= u64::MAX {
                r matches Some((x, next)) && x == v && next == pos + n
            } else {
                r is None
            },
            None => r is None,
        },
        r matches Some((_, next)) ==> pos < next <= end,
    decreases limit,
{
    if limit == 0 || pos >= end {
        return None;
    }
    let ghost s = b@.subrange(pos as int, end as int);
    let byte = b[pos];
    assert(byte == s[0]);
    if byte < 128 {
        return Some((byte as u64, pos + 1));
    }
    assert(s.skip(1) =~= b@.subrange(pos + 1, end as int));
    match read_varint(b, pos + 1, end, limit - 1) {
        Some((v, next)) => {
            let low: u64 = (byte - 128) as u64;
            if v > (u64::MAX - low) / 128 {
                None
            } else {
                Some((low + 128 * v, next))
            }
        },
        None => None,
    }
}

fn read_uint(b: &[u8], pos: usize, end: usize, field: u8) -> (r: Option<(u64, usize)>)
    requires
        pos <= end <= b.len(),
        field < 16,
    ensures
        match uint_at(b@.subrange(pos as int, end as int), field) {
            Some((v, n)) => if v <= u64::MAX {
                r matches Some((x, next)) && x == v && next == pos + n
            } else {
                r is None
            },
            None => r is None,
        },
        r matches Some((_, next)) ==> pos <= next <= end,
{
    let ghost s = b@.subrange(pos as int, end as int);
    if pos < end && b[pos] == field * 8 + KIND_VARINT {
        assert(b[pos as int] == s[0]);
        assert(s.skip(1) =~= b@.subrange(pos + 1, end as int));
        read_varint(b, pos + 1, end, VARINT_MAX_LEN)
    } else {
        assert(pos < end ==> b[pos as int] == s[0]);
        Some((0, pos))
    }
}

fn read_u32(b: &[u8], pos: usize, end: usize, field: u8) -> (r: Option<(u32, usize)>)
    requires
        pos <= end <= b.len(),
        field < 16,
    ensures
        match u32_at(b@.subrange(pos as int, end as int), field) {
            Some((v, n)) => r matches Some((x, next)) && x == v && next == pos + n,
            None => r is None,
        },
        r matches Some((_, next)) ==> pos <= next <= end,
{
    match read_uint(b, pos, end, field) {
        Some((v, next)) => if v <= u32::MAX as u64 {
            Some((v as u32, next))
        } else {
            None
        },
        None => None,
    }
}

/// The signed selector that a wire number stands for.
fn narrow(v: u64) -> (r: Option<i32>)
    ensures
        r == int_of(v as nat),
{
    if v <= i32::MAX as u64 {
        Some(v as i32)
    } else if u64::MAX - v <= i32::MAX as u64 {
        let below: i32 = (u64::MAX - v) as i32;
        Some(-1 - below)
    } else {
        None
    }
}

fn read_i32(b: &[u8], pos: usize, end: usize, field: u8) -> (r: Option<(i32, usize)>)
    requires
        pos <= end <= b.len(),
        field < 16,
    ensures
        match i32_at(b@.subrange(pos as int, end as int), field) {
            Some((v, n)) => r matches Some((x, next)) && x == v && next == pos + n,
            None => r is None,
        },
        r matches Some((_, next)) ==> pos <= next <= end,
{
    match read_uint(b, pos, end, field) {
        Some((v, next)) => match narrow(v) {
            Some(x) => Some((x, next)),
            None => None,
        },
        None => None,
    }
}

fn read_fixed32(b: &[u8], pos: usize, end: usize, field: u8) -> (r: Option<(u32, usize)>)
    requires
        pos <= end <= b.len(),
        field < 16,
    ensures
        match fixed32_at(b@.subrange(pos as int, end as int), field) {
            Some((v, n)) => r matches Some((x, next)) && x == v && next == pos + n,
            None => r is None,
        },
        r matches Some((_, next)) ==> pos <= next <= end,
{
    let ghost s = b@.subrange(pos as int, end as int);
    if pos < end && b[pos] == field * 8 + KIND_FIXED32 {
        assert(b[pos as int] == s[0]);
        if end - pos >= 5 {
            assert(b[pos + 1] == s[1] && b[pos + 2] == s[2] && b[pos + 3] == s[3] && b[pos + 4]
                == s[4]);
            let bits: u32 = b[pos + 1] as u32 + 256 * (b[pos + 2] as u32) + 65536 * (b[pos
                + 3] as u32) + 16777216 * (b[pos + 4] as u32);
            Some((bits, pos + 5))
        } else {
            None
        }
    } else {
        assert(pos < end ==> b[pos as int] == s[0]);
        Some((0, pos))
    }
}

/// Reads a delimited field and gives the bounds of its payload.
fn read_delimited(b: &[u8], pos: usize, end: usize, field: u8) -> (r: Option<(usize, usize)>)
    requires
        pos <= end <= b.len(),
        field < 16,
    ensures
        match delimited_at(b@.subrange(pos as int, end as int), field) {
            Some((payload, n)) => r matches Some((start, stop)) && stop == pos + n
                && payload == b@.subrange(start as int, stop as int),
            None => r is None,
        },
        r matches Some((start, stop)) ==> pos < start <= stop <= end,
{
    let ghost s = b@.subrange(pos as int, end as int);
    if pos < end && b[pos] == field * 8 + KIND_BYTES {
        assert(b[pos as int] == s[0]);
        assert(s.skip(1) =~= b@.subrange(pos + 1, end as int));
        match read_varint(b, pos + 1, end, VARINT_MAX_LEN) {
            Some((len, start)) => {
                if len <= (end - start) as u64 {
                    let stop: usize = start + len as usize;
                    assert(s.subrange(start - pos, stop - pos) =~= b@.subrange(
                        start as int,
                        stop as int,
                    ));
                    Some((start, stop))
                } else {
                    None
                }
            },
            None => {
                None
            },
        }
    } else {
        assert(pos < end ==> b[pos as int] == s[0]);
        None
    }
}

fn read_text(b: &[u8], pos: usize, end: usize, field: u8) -> (r: Option<(String, usize)>)
    requires
        pos <= end <= b.len(),
        field < 16,
    ensures
        match text_at(b@.subrange(pos as int, end as int), field) {
            Some((text, n)) => r matches Some((t, next)) && t@ == text && next == pos + n,
            None => r is None,
        },
        r matches Some((_, next)) ==> pos <= next <= end,
{
    let ghost s = b@.subrange(pos as int, end as int);
    if pos < end && b[pos] == field * 8 + KIND_BYTES {
        assert(b[pos as int] == s[0]);
        match read_delimited(b, pos, end, field) {
            Some((start, stop)) => {
                match core::str::from_utf8(slice_subrange(b, start, stop)) {
                    Ok(text) => {
                        proof {
                            vstd::utf8::encode_utf8_decode_utf8(text@);
                        }
                        Some((text.to_owned(), stop))
                    },
                    Err(_) => None,
                }
            },
            None => None,
        }
    } else {
        assert(pos < end ==> b[pos as int] == s[0]);
        Some((String::new(), pos))
    }
}

fn read_resize(b: &[u8], pos: usize, end: usize) -> (r: Option<Spec>)
    requires
        pos <= end <= b.len(),
    ensures
        match resize_at(b@.subrange(pos as int, end as int)) {
            Some(op) => r matches Some(x) && x@ == op,
            None => r is None,
        },
{
    let ghost s = b@.subrange(pos as int, end as int);
    let (width, p1) = read_u32(b, pos, end, 1)?;
    assert(b@.subrange(p1 as int, end as int) =~= s.skip(p1 - pos));
    let (height, p2) = read_u32(b, p1, end, 2)?;
    assert(b@.subrange(p2 as int, end as int) =~= s.skip(p2 - pos));
    let (rtype, p3) = read_i32(b, p2, end, 3)?;
    assert(b@.subrange(p3 as int, end as int) =~= s.skip(p3 - pos));
    let (filter, p4) = read_i32(b, p3, end, 4)?;
    if p4 != end {
        return None;
    }
    Some(Spec::Resize { width, height, rtype, filter })
}

fn read_crop(b: &[u8], pos: usize, end: usize) -> (r: Option<Spec>)
    requires
        pos <= end <= b.len(),
    ensures
        match crop_at(b@.subrange(pos as int, end as int)) {
            Some(op) => r matches Some(x) && x@ == op,
            None => r is None,
        },
{
    let ghost s = b@.subrange(pos as int, end as int);
    let (x1, p1) = read_u32(b, pos, end, 1)?;
    assert(b@.subrange(p1 as int, end as int) =~= s.skip(p1 - pos));
    let (y1, p2) = read_u32(b, p1, end, 2)?;
    assert(b@.subrange(p2 as int, end as int) =~= s.skip(p2 - pos));
    let (x2, p3) = read_u32(b, p2, end, 3)?;
    assert(b@.subrange(p3 as int, end as int) =~= s.skip(p3 - pos));
    let (y2, p4) = read_u32(b, p3, end, 4)?;
    if p4 != end {
        return None;
    }
    Some(Spec::Crop { x1, y1, x2, y2 })
}

fn read_contrast(b: &[u8], pos: usize, end: usize) -> (r: Option<Spec>)
    requires
        pos <= end <= b.len(),
    ensures
        match contrast_at(b@.subrange(pos as int, end as int)) {
            Some(op) => r matches Some(x) && x@ == op,
            None => r is None,
        },
{
    let ghost s = b@.subrange(pos as int, end as int);
    let (contrast, p1) = read_fixed32(b, pos, end, 1)?;
    if p1 != end {
        return None;
    }
    Some(Spec::Contrast { contrast })
}

fn read_filter(b: &[u8], pos: usize, end: usize) -> (r: Option<Spec>)
    requires
        pos <= end <= b.len(),
    ensures
        match filter_at(b@.subrange(pos as int, end as int)) {
            Some(op) => r matches Some(x) && x@ == op,
            None => r is None,
        },
{
    let ghost s = b@.subrange(pos as int, end as int);
    let (filter, p1) = read_i32(b, pos, end, 1)?;
    if p1 != end {
        return None;
    }
    Some(Spec::Filter { filter })
}

fn read_watermark(b: &[u8], pos: usize, end: usize) -> (r: Option<Spec>)
    requires
        pos <= end <= b.len(),
    ensures
        match watermark_at(b@.subrange(pos as int, end as int)) {
            Some(op) => r matches Some(x) && x@ == op,
            None => r is None,
        },
{
    let ghost s = b@.subrange(pos as int, end as int);
    let (x, p1) = read_u32(b, pos, end, 1)?;
    assert(b@.subrange(p1 as int, end as int) =~= s.skip(p1 - pos));
    let (y, p2) = read_u32(b, p1, end, 2)?;
    assert(b@.subrange(p2 as int, end as int) =~= s.skip(p2 - pos));
    let (alpha, p3) = read_u32(b, p2, end, 3)?;
    if p3 != end {
        return None;
    }
    Some(Spec::Watermark { x, y, alpha })
}

fn read_draw_text(b: &[u8], pos: usize, end: usize) -> (r: Option<Spec>)
    requires
        pos <= end <= b.len(),
    ensures
        match draw_text_at(b@.subrange(pos as int, end as int)) {
            Some(op) => r matches Some(x) && x@ == op,
            None => r is None,
        },
{
    let ghost s = b@.subrange(pos as int, end as int);
    let (text, p1) = read_text(b, pos, end, 1)?;
    assert(b@.subrange(p1 as int, end as int) =~= s.skip(p1 - pos));
    let (x, p2) = read_u32(b, p1, end, 2)?;
    assert(b@.subrange(p2 as int, end as int) =~= s.skip(p2 - pos));
    let (y, p3) = read_u32(b, p2, end, 3)?;
    if p3 != end {
        return None;
    }
    Some(Spec::Text { text, x, y })
}

fn read_oil(b: &[u8], pos: usize, end: usize) -> (r: Option<Spec>)
    requires
        pos <= end <= b.len(),
    ensures
        match oil_at(b@.subrange(pos as int, end as int)) {
            Some(op) => r matches Some(x) && x@ == op,
            None => r is None,
        },
{
    let ghost s = b@.subrange(pos as int, end as int);
    let (radius, p1) = read_i32(b, pos, end, 1)?;
    assert(b@.subrange(p1 as int, end as int) =~= s.skip(p1 - pos));
    let (intensity, p2) = read_fixed32(b, p1, end, 2)?;
    if p2 != end {
        return None;
    }
    Some(Spec::Oil { radius, intensity })
}

/// Reads the body of the operation with tag `tag`, which must fill
/// `pos..end`.
fn read_body(b: &[u8], pos: usize, end: usize, tag: u8) -> (r: Option<Spec>)
    requires
        pos <= end <= b.len(),
    ensures
        match body_at(tag, b@.subrange(pos as int, end as int)) {
            Some(op) => r matches Some(x) && x@ == op,
            None => r is None,
        },
{
    if tag == TAG_RESIZE {
        read_resize(b, pos, end)
    } else if tag == TAG_CROP {
        read_crop(b, pos, end)
    } else if tag == TAG_FLIPV {
        if pos == end {
            Some(Spec::Flipv)
        } else {
            None
        }
    } else if tag == TAG_FLIPH {
        if pos == end {
            Some(Spec::Fliph)
        } else {
            None
        }
    } else if tag == TAG_CONTRAST {
        read_contrast(b, pos, end)
    } else if tag == TAG_FILTER {
        read_filter(b, pos, end)
    } else if tag == TAG_WATERMARK {
        read_watermark(b, pos, end)
    } else if tag == TAG_TEXT {
        read_draw_text(b, pos, end)
    } else if tag == TAG_OIL {
        read_oil(b, pos, end)
    } else {
        None
    }
}

/// Reads one operation, which must fill `pos..end`. An unknown tag is refused.
fn read_operation(b: &[u8], pos: usize, end: usize) -> (r: Option<Spec>)
    requires
        pos <= end <= b.len(),
    ensures
        match operation_at(b@.subrange(pos as int, end as int)) {
            Some(op) => r matches Some(x) && x@ == op,
            None => r is None,
        },
{
    let ghost s = b@.subrange(pos as int, end as int);
    if pos >= end {
        return None;
    }
    let key = b[pos];
    assert(key == s[0]);
    if key % 8 != KIND_BYTES || key / 8 < 1 || key / 8 > 9 {
        return None;
    }
    let tag = key / 8;
    match read_delimited(b, pos, end, tag) {
        Some((start, stop)) => if stop == end {
            read_body(b, start, stop, tag)
        } else {
            None
        },
        None => None,
    }
}

/// Reads the frame that starts at `pos`.
fn read_frame(b: &[u8], pos: usize, end: usize) -> (r: Option<(Spec, usize)>)
    requires
        pos <= end <= b.len(),
    ensures
        match frame_at(b@.subrange(pos as int, end as int)) {
            Some((op, n)) => r matches Some((x, next)) && x@ == op && next == pos + n,
            None => r is None,
        },
        r matches Some((_, next)) ==> pos < next <= end,
{
    match read_delimited(b, pos, end, FRAME_FIELD) {
        Some((start, stop)) => match read_operation(b, start, stop) {
            Some(op) => Some((op, stop)),
            None => None,
        },
        None => None,
    }
}

/// One more frame was read: what was read so far grows by its operation.
#[verifier::rlimit(50)]
#[verifier::spinoff_prover]
proof fn lemma_read_step(b: Seq<u8>, pos: int, next: int, op: Op, done: Seq<Op>)
    requires
        0 <= pos < next <= b.len(),
        frame_at(b.skip(pos)) == Some((op, (next - pos) as nat)),
        ops_at(b) == match ops_at(b.skip(pos)) {
            Some(rest) => Some(done + rest),
            None => None,
        },
    ensures
        ops_at(b) == match ops_at(b.skip(next)) {
            Some(rest) => Some(done.push(op) + rest),
            None => None,
        },
{
    let s = b.skip(pos);
    assert(s.len() > 0);
    assert(s.skip(next - pos) =~= b.skip(next));
    match ops_at(b.skip(next)) {
        Some(rest) => {
            assert(ops_at(s) == Some(seq![op] + rest));
            assert(done + (seq![op] + rest) =~= done.push(op) + rest);
        },
        None => {
            assert(ops_at(s) is None);
        },
    }
}

/// No frame stands where one must: the bytes hold no pipeline.
proof fn lemma_read_stop(b: Seq<u8>, pos: int, done: Seq<Op>)
    requires
        0 <= pos < b.len(),
        frame_at(b.skip(pos)) is None,
        ops_at(b) == match ops_at(b.skip(pos)) {
            Some(rest) => Some(done + rest),
            None => None,
        },
    ensures
        ops_at(b) is None,
{
    assert(b.skip(pos).len() > 0);
}

/// Every frame was read.
proof fn lemma_read_end(b: Seq<u8>, done: Seq<Op>)
    requires
        ops_at(b) == match ops_at(b.skip(b.len() as int)) {
            Some(rest) => Some(done + rest),
            None => None,
        },
    ensures
        ops_at(b) == Some(done),
{
    assert(b.skip(b.len() as int).len() == 0);
    assert(done + Seq::<Op>::empty() =~= done);
}

/// Reads every frame of `b`.
#[verifier::rlimit(50)]
#[verifier::spinoff_prover]
fn read_ops(b: &[u8]) -> (r: Option<Vec<Spec>>)
    ensures
        match ops_at(b@) {
            Some(ops) => r matches Some(specs) && ops_of(specs@) == ops,
            None => r is None,
        },
{
    let mut specs: Vec<Spec> = Vec::new();
    let mut pos: usize = 0;
    let end = b.len();
    proof {
        assert(b@.skip(0) =~= b@);
        assert(ops_of(specs@) =~= Seq::<Op>::empty());
        match ops_at(b@) {
            Some(rest) => {
                assert(Seq::<Op>::empty() + rest =~= rest);
            },
            None => {},
        }
    }
    while pos < end
        invariant
            0 <= pos <= end == b.len(),
            ops_at(b@) == match ops_at(b@.skip(pos as int)) {
                Some(rest) => Some(ops_of(specs@) + rest),
                None => None,
            },
        decreases end - pos,
    {
        let ghost done = ops_of(specs@);
        assert(b@.skip(pos as int) =~= b@.subrange(pos as int, end as int));
        match read_frame(b, pos, end) {
            Some((op, next)) => {
                proof {
                    lemma_read_step(b@, pos as int, next as int, op@, done);
                }
                specs.push(op);
                assert(ops_of(specs@) =~= done.push(op@));
                pos = next;
            },
            None => {
                proof {
                    lemma_read_stop(b@, pos as int, done);
                }
                return None;
            },
        }
    }
    proof {
        lemma_read_end(b@, ops_of(specs@));
    }
    Some(specs)
}

/// Whether two runs of bytes are the same.
fn same_bytes(a: &[u8], b: &[u8]) -> (r: bool)
    ensures
        r == (a@ == b@),
{
    if a.len() != b.len() {
        return false;
    }
    let mut i: usize = 0;
    while i < a.len()
        invariant
            0 <= i <= a.len() == b.len(),
            forall|j: int| 0 <= j < i ==> a@[j] == b@[j],
        decreases a.len() - i,
    {
        if a[i] != b[i] {
            return false;
        }
        i += 1;
    }
    assert(a@ =~= b@);
    true
}

/// Whether `s` is empty or starts with a byte of at least `bound`: no field
/// below `bound / 8` opens it.
pub closed spec fn above(s: Seq<u8>, bound: int) -> bool {
    s.len() == 0 || s[0] >= bound
}

/// A varint of a 64-bit number takes one to ten bytes.
pub proof fn lemma_varint_len(n: nat)
    requires
        n <= u64::MAX,
    ensures
        1 <= varint(n).len() <= VARINT_MAX_LEN,
{
    reveal_with_fuel(varint, 11);
}

/// Reading what `varint` wrote gives the number back.
pub proof fn lemma_varint_at(n: nat, rest: Seq<u8>, limit: nat)
    requires
        varint(n).len() <= limit,
    ensures
        varint_at(varint(n) + rest, limit) == Some((n, varint(n).len())),
    decreases n,
{
    let s = varint(n) + rest;
    if n < 128 {
        assert(s[0] == n as u8);
    } else {
        assert(s[0] == (128 + n % 128) as u8);
        assert(s.skip(1) =~= varint(n / 128) + rest);
        lemma_varint_at(n / 128, rest, (limit - 1) as nat);
    }
}

#[verifier::rlimit(50)]
#[verifier::spinoff_prover]
proof fn lemma_uint_step(s: Seq<u8>, field: u8, v: nat, rest: Seq<u8>)
    requires
        field < 16,
        v <= u64::MAX,
        s == uint_field(field, v) + rest,
        above(rest, 8 * (field + 1)),
    ensures
        uint_at(s, field) == Some((v, uint_field(field, v).len())),
        s.skip(uint_field(field, v).len() as int) == rest,
        above(s, 8 * field),
{
    if v == 0 {
        assert(s =~= rest);
        assert(s.skip(0) =~= s);
    } else {
        lemma_varint_len(v);
        lemma_varint_at(v, rest, VARINT_MAX_LEN as nat);
        assert(s[0] == key_of(field, KIND_VARINT));
        assert(s.skip(1) =~= varint(v) + rest);
        assert(s.skip(uint_field(field, v).len() as int) =~= rest);
    }
}

proof fn lemma_u32_step(s: Seq<u8>, field: u8, v: u32, rest: Seq<u8>)
    requires
        field < 16,
        s == uint_field(field, v as nat) + rest,
        above(rest, 8 * (field + 1)),
    ensures
        u32_at(s, field) == Some((v, uint_field(field, v as nat).len())),
        s.skip(uint_field(field, v as nat).len() as int) == rest,
        above(s, 8 * field),
{
    lemma_uint_step(s, field, v as nat, rest);
}

proof fn lemma_i32_step(s: Seq<u8>, field: u8, v: i32, rest: Seq<u8>)
    requires
        field < 16,
        s == int_field(field, v) + rest,
        above(rest, 8 * (field + 1)),
    ensures
        i32_at(s, field) == Some((v, int_field(field, v).len())),
        s.skip(int_field(field, v).len() as int) == rest,
        above(s, 8 * field),
{
    lemma_uint_step(s, field, int_value(v), rest);
}

#[verifier::rlimit(50)]
#[verifier::spinoff_prover]
proof fn lemma_fixed32_step(s: Seq<u8>, field: u8, bits: u32, rest: Seq<u8>)
    requires
        field < 16,
        s == fixed32_field(field, bits) + rest,
        above(rest, 8 * (field + 1)),
    ensures
        fixed32_at(s, field) == Some((bits, fixed32_field(field, bits).len())),
        s.skip(fixed32_field(field, bits).len() as int) == rest,
        above(s, 8 * field),
{
    if bits == 0 {
        assert(s =~= rest);
        assert(s.skip(0) =~= s);
    } else {
        assert(s[0] == key_of(field, KIND_FIXED32));
        assert(s[1] == (bits % 256) as u8);
        assert(s[2] == (bits / 256 % 256) as u8);
        assert(s[3] == (bits / 65536 % 256) as u8);
        assert(s[4] == (bits / 16777216) as u8);
        assert(s.skip(5) =~= rest);
    }
}

/// Reading what `delimited` wrote gives the payload back, whatever follows.
#[verifier::rlimit(50)]
#[verifier::spinoff_prover]
proof fn lemma_delimited_at(field: u8, payload: Seq<u8>, rest: Seq<u8>)
    requires
        field < 32,
        payload.len() <= u64::MAX,
    ensures
        delimited_at(delimited(field, payload) + rest, field) == Some(
            (payload, delimited(field, payload).len()),
        ),
        (delimited(field, payload) + rest).skip(delimited(field, payload).len() as int) == rest,
{
    let s = delimited(field, payload) + rest;
    let n = varint(payload.len()).len();
    lemma_varint_len(payload.len());
    lemma_varint_at(payload.len(), payload + rest, VARINT_MAX_LEN as nat);
    assert(s[0] == key_of(field, KIND_BYTES));
    assert(s.skip(1) =~= varint(payload.len()) + (payload + rest));
    assert(s.subrange((1 + n) as int, (1 + n + payload.len()) as int) =~= payload);
    assert(s.skip(delimited(field, payload).len() as int) =~= rest);
}

#[verifier::rlimit(50)]
#[verifier::spinoff_prover]
proof fn lemma_text_step(s: Seq<u8>, field: u8, text: Seq<char>, rest: Seq<u8>)
    requires
        field < 16,
        encode_utf8(text).len() <= u64::MAX,
        s == text_field(field, text) + rest,
        above(rest, 8 * (field + 1)),
    ensures
        text_at(s, field) == Some((text, text_field(field, text).len())),
        s.skip(text_field(field, text).len() as int) == rest,
        above(s, 8 * field),
{
    if text.len() == 0 {
        assert(s =~= rest);
        assert(s.skip(0) =~= s);
        assert(text =~= Seq::<char>::empty());
    } else {
        let payload = encode_utf8(text);
        lemma_delimited_at(field, payload, rest);
        vstd::utf8::encode_utf8_valid_utf8(text);
        vstd::utf8::encode_utf8_decode_utf8(text);
        assert(s[0] == key_of(field, KIND_BYTES));
    }
}

#[verifier::rlimit(50)]
#[verifier::spinoff_prover]
proof fn lemma_resize_body(width: u32, height: u32, rtype: i32, filter: i32)
    ensures
        resize_at(
            uint_field(1, width as nat) + uint_field(2, height as nat) + int_field(3, rtype)
                + int_field(4, filter),
        ) == Some(Op::Resize { width, height, rtype, filter }),
{
    let e = Seq::<u8>::empty();
    let f1 = uint_field(1, width as nat);
    let f2 = uint_field(2, height as nat);
    let f3 = int_field(3, rtype);
    let f4 = int_field(4, filter);
    let r3 = f4 + e;
    let r2 = f3 + r3;
    let r1 = f2 + r2;
    let s = f1 + f2 + f3 + f4;
    assert(s =~= f1 + r1);
    lemma_i32_step(r3, 4, filter, e);
    lemma_i32_step(r2, 3, rtype, r3);
    lemma_u32_step(r1, 2, height, r2);
    lemma_u32_step(s, 1, width, r1);
    assert(s.skip((f1.len() + f2.len()) as int) =~= r1.skip(f2.len() as int));
    assert(s.skip((f1.len() + f2.len() + f3.len()) as int) =~= r2.skip(f3.len() as int));
    assert(r3.len() == f4.len());
    assert(s.len() == f1.len() + f2.len() + f3.len() + f4.len());
}

#[verifier::rlimit(50)]
#[verifier::spinoff_prover]
proof fn lemma_crop_body(x1: u32, y1: u32, x2: u32, y2: u32)
    ensures
        crop_at(
            uint_field(1, x1 as nat) + uint_field(2, y1 as nat) + uint_field(3, x2 as nat)
                + uint_field(4, y2 as nat),
        ) == Some(Op::Crop { x1, y1, x2, y2 }),
{
    let e = Seq::<u8>::empty();
    let f1 = uint_field(1, x1 as nat);
    let f2 = uint_field(2, y1 as nat);
    let f3 = uint_field(3, x2 as nat);
    let f4 = uint_field(4, y2 as nat);
    let r3 = f4 + e;
    let r2 = f3 + r3;
    let r1 = f2 + r2;
    let s = f1 + f2 + f3 + f4;
    assert(s =~= f1 + r1);
    lemma_u32_step(r3, 4, y2, e);
    lemma_u32_step(r2, 3, x2, r3);
    lemma_u32_step(r1, 2, y1, r2);
    lemma_u32_step(s, 1, x1, r1);
    assert(s.skip((f1.len() + f2.len()) as int) =~= r1.skip(f2.len() as int));
    assert(s.skip((f1.len() + f2.len() + f3.len()) as int) =~= r2.skip(f3.len() as int));
    assert(r3.len() == f4.len());
    assert(s.len() == f1.len() + f2.len() + f3.len() + f4.len());
}

#[verifier::rlimit(50)]
#[verifier::spinoff_prover]
proof fn lemma_watermark_body(x: u32, y: u32, alpha: u32)
    ensures
        watermark_at(
            uint_field(1, x as nat) + uint_field(2, y as nat) + uint_field(3, alpha as nat),
        ) == Some(Op::Watermark { x, y, alpha }),
{
    let e = Seq::<u8>::empty();
    let f1 = uint_field(1, x as nat);
    let f2 = uint_field(2, y as nat);
    let f3 = uint_field(3, alpha as nat);
    let r2 = f3 + e;
    let r1 = f2 + r2;
    let s = f1 + f2 + f3;
    assert(s =~= f1 + r1);
    lemma_u32_step(r2, 3, alpha, e);
    lemma_u32_step(r1, 2, y, r2);
    lemma_u32_step(s, 1, x, r1);
    assert(s.skip((f1.len() + f2.len()) as int) =~= r1.skip(f2.len() as int));
    assert(r2.len() == f3.len());
    assert(s.len() == f1.len() + f2.len() + f3.len());
}

#[verifier::rlimit(50)]
#[verifier::spinoff_prover]
proof fn lemma_draw_text_body(text: Seq<char>, x: u32, y: u32)
    requires
        encode_utf8(text).len() <= u64::MAX,
    ensures
        draw_text_at(text_field(1, text) + uint_field(2, x as nat) + uint_field(3, y as nat))
            == Some(Op::Text { text, x, y }),
{
    let e = Seq::<u8>::empty();
    let f1 = text_field(1, text);
    let f2 = uint_field(2, x as nat);
    let f3 = uint_field(3, y as nat);
    let r2 = f3 + e;
    let r1 = f2 + r2;
    let s = f1 + f2 + f3;
    assert(s =~= f1 + r1);
    lemma_u32_step(r2, 3, y, e);
    lemma_u32_step(r1, 2, x, r2);
    lemma_text_step(s, 1, text, r1);
    assert(s.skip((f1.len() + f2.len()) as int) =~= r1.skip(f2.len() as int));
    assert(r2.len() == f3.len());
    assert(s.len() == f1.len() + f2.len() + f3.len());
}

#[verifier::rlimit(50)]
#[verifier::spinoff_prover]
proof fn lemma_oil_body(radius: i32, intensity: u32)
    ensures
        oil_at(int_field(1, radius) + fixed32_field(2, intensity)) == Some(
            Op::Oil { radius, intensity },
        ),
{
    let e = Seq::<u8>::empty();
    let f1 = int_field(1, radius);
    let f2 = fixed32_field(2, intensity);
    let r1 = f2 + e;
    let s = f1 + f2;
    assert(s =~= f1 + r1);
    lemma_fixed32_step(r1, 2, intensity, e);
    lemma_i32_step(s, 1, radius, r1);
    assert(r1.len() == f2.len());
    assert(s.len() == f1.len() + f2.len());
}

proof fn lemma_contrast_body(contrast: u32)
    ensures
        contrast_at(fixed32_field(1, contrast)) == Some(Op::Contrast { contrast }),
{
    let e = Seq::<u8>::empty();
    let s = fixed32_field(1, contrast);
    assert(s =~= s + e);
    lemma_fixed32_step(s, 1, contrast, e);
}

proof fn lemma_filter_body(filter: i32)
    ensures
        filter_at(int_field(1, filter)) == Some(Op::Filter { filter }),
{
    let e = Seq::<u8>::empty();
    let s = int_field(1, filter);
    assert(s =~= s + e);
    lemma_i32_step(s, 1, filter, e);
}

/// The UTF-8 bytes of a text are part of the body of the operation that
/// draws it.
proof fn lemma_text_in_body(text: Seq<char>, x: u32, y: u32)
    ensures
        encode_utf8(text).len() <= (text_field(1, text) + uint_field(2, x as nat) + uint_field(
            3,
            y as nat,
        )).len(),
{
    lemma_text_empty(text);
}

/// Reading the body that `body_of` wrote gives the operation back.
#[verifier::rlimit(50)]
#[verifier::spinoff_prover]
proof fn lemma_body_at(op: Op)
    requires
        body_of(op).len() <= u64::MAX,
    ensures
        body_at(tag_of(op), body_of(op)) == Some(op),
{
    reveal(body_of);
    match op {
        Op::Resize { width, height, rtype, filter } => {
            lemma_resize_body(width, height, rtype, filter);
        },
        Op::Crop { x1, y1, x2, y2 } => {
            lemma_crop_body(x1, y1, x2, y2);
        },
        Op::Flipv => {},
        Op::Fliph => {},
        Op::Contrast { contrast } => {
            lemma_contrast_body(contrast);
        },
        Op::Filter { filter } => {
            lemma_filter_body(filter);
        },
        Op::Watermark { x, y, alpha } => {
            lemma_watermark_body(x, y, alpha);
        },
        Op::Text { text, x, y } => {
            lemma_text_in_body(text, x, y);
            lemma_draw_text_body(text, x, y);
        },
        Op::Oil { radius, intensity } => {
            lemma_oil_body(radius, intensity);
        },
    }
}

/// Reading the operation that `operation` wrote gives it back.
#[verifier::rlimit(50)]
#[verifier::spinoff_prover]
proof fn lemma_operation_at(op: Op)
    requires
        operation(op).len() <= u64::MAX,
    ensures
        operation_at(operation(op)) == Some(op),
{
    reveal(operation);
    let s = operation(op);
    let body = body_of(op);
    let tag = tag_of(op);
    let e = Seq::<u8>::empty();
    assert(1 <= tag <= 9);
    assert(s == delimited(tag, body));
    assert(s.len() == 1 + varint(body.len()).len() + body.len());
    lemma_delimited_at(tag, body, e);
    lemma_body_at(op);
    assert(s + e =~= s);
    assert(s[0] == key_of(tag, KIND_BYTES));
    assert(s[0] == tag * 8 + 2);
    assert(s[0] % 8 == KIND_BYTES && s[0] / 8 == tag);
    assert(delimited_at(s, tag) == Some((body, s.len())));
}

/// Reading the frame that `frame` wrote gives the operation back, whatever
/// follows.
#[verifier::rlimit(50)]
#[verifier::spinoff_prover]
proof fn lemma_frame_at(op: Op, rest: Seq<u8>)
    requires
        frame(op).len() <= u64::MAX,
    ensures
        frame_at(frame(op) + rest) == Some((op, frame(op).len())),
        (frame(op) + rest).skip(frame(op).len() as int) == rest,
        frame(op).len() > 0,
{
    reveal(frame);
    let inner = operation(op);
    assert(frame(op) == delimited(1, inner));
    assert(frame(op).len() == 1 + varint(inner.len()).len() + inner.len());
    lemma_delimited_at(1, inner, rest);
    lemma_operation_at(op);
}

/// Reading what `wire` wrote gives the pipeline back.
#[verifier::rlimit(50)]
#[verifier::spinoff_prover]
pub proof fn lemma_ops_at_wire(ops: Seq<Op>)
    requires
        wire(ops).len() <= u64::MAX,
    ensures
        ops_at(wire(ops)) == Some(ops),
    decreases ops.len(),
{
    if ops.len() == 0 {
        assert(ops =~= Seq::<Op>::empty());
    } else {
        let s = wire(ops);
        let first = frame(ops[0]);
        let rest = wire(ops.skip(1));
        assert(s == first + rest);
        assert(s.len() == first.len() + rest.len());
        lemma_frame_at(ops[0], rest);
        lemma_ops_at_wire(ops.skip(1));
        assert(frame_at(s) == Some((ops[0], first.len())));
        assert(s.skip(first.len() as int) == rest);
        assert(ops_at(rest) == Some(ops.skip(1)));
        assert(seq![ops[0]] + ops.skip(1) =~= ops);
    }
}

/// Two pipelines with the same encoding are the same pipeline.
pub proof fn lemma_wire_injective(a: Seq<Op>, b: Seq<Op>)
    requires
        wire(a) == wire(b),
        wire(a).len() <= u64::MAX,
    ensures
        a == b,
{
    lemma_ops_at_wire(a);
    lemma_ops_at_wire(b);
}

/// Frames that were written by `wire` are read back one by one, and what
/// follows them decides the rest.
#[verifier::rlimit(50)]
#[verifier::spinoff_prover]
proof fn lemma_ops_at_prefix(before: Seq<Op>, tail: Seq<u8>)
    requires
        (wire(before) + tail).len() <= u64::MAX,
    ensures
        ops_at(wire(before) + tail) == match ops_at(tail) {
            Some(rest) => Some(before + rest),
            None => None,
        },
    decreases before.len(),
{
    if before.len() == 0 {
        assert(wire(before) + tail =~= tail);
        match ops_at(tail) {
            Some(rest) => {
                assert(before + rest =~= rest);
            },
            None => {},
        }
    } else {
        let s = wire(before) + tail;
        let first = frame(before[0]);
        let later = wire(before.skip(1)) + tail;
        assert(s =~= first + later);
        assert(s.len() == first.len() + later.len());
        lemma_frame_at(before[0], later);
        lemma_ops_at_prefix(before.skip(1), tail);
        assert(frame_at(s) == Some((before[0], first.len())));
        assert(s.skip(first.len() as int) == later);
        match ops_at(tail) {
            Some(rest) => {
                assert(seq![before[0]] + (before.skip(1) + rest) =~= before + rest);
            },
            None => {},
        }
    }
}

/// A frame whose operation carries a tag outside the operation set makes the
/// whole encoding unreadable, wherever the frame stands: it is never skipped.
#[verifier::rlimit(50)]
#[verifier::spinoff_prover]
pub proof fn law_unknown_tag(before: Seq<Op>, tag: u8, body: Seq<u8>, after: Seq<u8>)
    requires
        tag < 32,
        !(1 <= tag <= 9),
        (wire(before) + delimited(1, delimited(tag, body)) + after).len() <= u64::MAX,
    ensures
        pipeline_at(wire(before) + delimited(1, delimited(tag, body)) + after) is None,
{
    let inner = delimited(tag, body);
    let tail = delimited(1, inner) + after;
    let bytes = wire(before) + delimited(1, inner) + after;
    assert(bytes =~= wire(before) + tail);
    lemma_ops_at_prefix(before, tail);
    lemma_delimited_at(1, inner, after);
    assert(inner[0] == key_of(tag, KIND_BYTES));
    assert(inner[0] == tag * 8 + 2);
    assert(inner[0] / 8 == tag);
    assert(operation_at(inner) is None);
    assert(frame_at(tail) is None);
    assert(tail.len() > 0);
    assert(ops_at(tail) is None);
    assert forall|ops: Seq<Op>| wire(ops) == bytes implies false by {
        lemma_ops_at_wire(ops);
    }
}

/// The pipeline whose encoding `bytes` is, if it is the encoding of one.
pub open spec fn pipeline_at(bytes: Seq<u8>) -> Option<Seq<Op>> {
    if exists|ops: Seq<Op>| wire(ops) == bytes {
        Some(choose|ops: Seq<Op>| wire(ops) == bytes)
    } else {
        None
    }
}

/// The encoding of a pipeline stands for that pipeline and for no other.
pub proof fn lemma_pipeline_at_wire(ops: Seq<Op>)
    requires
        wire(ops).len() <= u64::MAX,
    ensures
        pipeline_at(wire(ops)) == Some(ops),
{
    let found = choose|other: Seq<Op>| wire(other) == wire(ops);
    lemma_wire_injective(ops, found);
}

/// Reads a pipeline from its binary encoding. Only the one encoding that
/// [`to_wire`] gives a pipeline is accepted: an unknown tag, a field out of
/// order or written at its default, an over-long number, text that is not
/// UTF-8 and bytes left over are all refused.
pub fn from_wire(bytes: &[u8]) -> (r: Option<Vec<Spec>>)
    ensures
        match r {
            Some(specs) => wire(ops_of(specs@)) == bytes@ && pipeline_at(bytes@) == Some(
                ops_of(specs@),
            ),
            None => pipeline_at(bytes@) is None && forall|ops: Seq<Op>| wire(ops) != bytes@,
        },
{
    let size = bytes.len();
    proof {
        assert forall|ops: Seq<Op>| wire(ops) == bytes@ implies ops_at(bytes@) == Some(ops) by {
            assert(wire(ops).len() == size);
            lemma_ops_at_wire(ops);
        }
    }
    match read_ops(bytes) {
        Some(specs) => {
            let again = to_wire(specs.as_slice());
            if same_bytes(again.as_slice(), bytes) {
                proof {
                    lemma_pipeline_at_wire(ops_of(specs@));
                }
                Some(specs)
            } else {
                None
            }
        },
        None => None,
    }
}

} // verus!
