//! The binary layer of a pipeline token.
//!
//! A pipeline is a run of frames. Each frame is length-delimited and holds one
//! operation: a key byte that carries the operation's tag, the length of its
//! body, and the body, which lists the operation's fields in a fixed order.
//! A field whose value is zero or empty is left out, so every pipeline has
//! exactly one encoding. Integers are written as little-endian base-128
//! varints, floating-point magnitudes as four little-endian bytes.

use vstd::prelude::*;
use vstd::utf8::encode_utf8;
use crate::pb::ops::{ops_of, Op, Spec};

verus! {

/// Wire kind of a varint field.
pub const KIND_VARINT: u8 = 0;

/// Wire kind of a length-delimited field.
pub const KIND_BYTES: u8 = 2;

/// Wire kind of a four-byte field.
pub const KIND_FIXED32: u8 = 5;

pub const TAG_RESIZE: u8 = 1;

pub const TAG_CROP: u8 = 2;

pub const TAG_FLIPV: u8 = 3;

pub const TAG_FLIPH: u8 = 4;

pub const TAG_CONTRAST: u8 = 5;

pub const TAG_FILTER: u8 = 6;

pub const TAG_WATERMARK: u8 = 7;

pub const TAG_TEXT: u8 = 8;

pub const TAG_OIL: u8 = 9;

/// The field under which a pipeline lists its frames.
pub const FRAME_FIELD: u8 = 1;

/// Two to the power 64: what a negative selector is offset by on the wire.
pub open spec fn two_64() -> int {
    0x1_0000_0000_0000_0000
}

/// The key byte of field `field` with wire kind `kind`.
pub open spec fn key_of(field: u8, kind: u8) -> u8
    recommends
        field < 16,
        kind < 8,
{
    (field * 8 + kind) as u8
}

/// The base-128 varint of `n`, least significant group first.
pub open spec fn varint(n: nat) -> Seq<u8>
    decreases n,
{
    if n < 128 {
        seq![n as u8]
    } else {
        seq![(128 + n % 128) as u8] + varint(n / 128)
    }
}

/// An unsigned field: nothing for zero, else the key and the varint.
pub open spec fn uint_field(field: u8, v: nat) -> Seq<u8> {
    if v == 0 {
        Seq::<u8>::empty()
    } else {
        seq![key_of(field, KIND_VARINT)] + varint(v)
    }
}

/// The natural number that stands for a signed selector: itself, or itself
/// plus 2^64 when negative.
pub open spec fn int_value(v: i32) -> nat {
    if v >= 0 {
        v as nat
    } else {
        (v + two_64()) as nat
    }
}

/// A signed field.
pub open spec fn int_field(field: u8, v: i32) -> Seq<u8> {
    uint_field(field, int_value(v))
}

/// Four bytes, least significant first.
pub open spec fn fixed32(bits: u32) -> Seq<u8> {
    seq![
        (bits % 256) as u8,
        (bits / 256 % 256) as u8,
        (bits / 65536 % 256) as u8,
        (bits / 16777216) as u8,
    ]
}

/// A four-byte field: nothing when all bits are zero.
pub open spec fn fixed32_field(field: u8, bits: u32) -> Seq<u8> {
    if bits == 0 {
        Seq::<u8>::empty()
    } else {
        seq![key_of(field, KIND_FIXED32)] + fixed32(bits)
    }
}

/// A length-delimited field, written even when the payload is empty.
pub open spec fn delimited(field: u8, payload: Seq<u8>) -> Seq<u8> {
    seq![key_of(field, KIND_BYTES)] + varint(payload.len()) + payload
}

/// A text field: nothing for the empty text, else its UTF-8 bytes, delimited.
pub open spec fn text_field(field: u8, text: Seq<char>) -> Seq<u8> {
    if text.len() == 0 {
        Seq::<u8>::empty()
    } else {
        delimited(field, encode_utf8(text))
    }
}

/// The tag that identifies the variant of an operation.
pub open spec fn tag_of(op: Op) -> u8 {
    match op {
        Op::Resize { .. } => TAG_RESIZE,
        Op::Crop { .. } => TAG_CROP,
        Op::Flipv => TAG_FLIPV,
        Op::Fliph => TAG_FLIPH,
        Op::Contrast { .. } => TAG_CONTRAST,
        Op::Filter { .. } => TAG_FILTER,
        Op::Watermark { .. } => TAG_WATERMARK,
        Op::Text { .. } => TAG_TEXT,
        Op::Oil { .. } => TAG_OIL,
    }
}

/// The fields of an operation, in their fixed order.
#[verifier::opaque]
pub open spec fn body_of(op: Op) -> Seq<u8> {
    match op {
        Op::Resize { width, height, rtype, filter } => uint_field(1, width as nat) + uint_field(
            2,
            height as nat,
        ) + int_field(3, rtype) + int_field(4, filter),
        Op::Crop { x1, y1, x2, y2 } => uint_field(1, x1 as nat) + uint_field(2, y1 as nat)
            + uint_field(3, x2 as nat) + uint_field(4, y2 as nat),
        Op::Flipv => Seq::<u8>::empty(),
        Op::Fliph => Seq::<u8>::empty(),
        Op::Contrast { contrast } => fixed32_field(1, contrast),
        Op::Filter { filter } => int_field(1, filter),
        Op::Watermark { x, y, alpha } => uint_field(1, x as nat) + uint_field(2, y as nat)
            + uint_field(3, alpha as nat),
        Op::Text { text, x, y } => text_field(1, text) + uint_field(2, x as nat) + uint_field(
            3,
            y as nat,
        ),
        Op::Oil { radius, intensity } => int_field(1, radius) + fixed32_field(2, intensity),
    }
}

/// One operation: its tag and its delimited body.
#[verifier::opaque]
pub open spec fn operation(op: Op) -> Seq<u8> {
    delimited(tag_of(op), body_of(op))
}

/// One frame of a pipeline.
#[verifier::opaque]
pub open spec fn frame(op: Op) -> Seq<u8> {
    delimited(FRAME_FIELD, operation(op))
}

/// The binary encoding of a pipeline: its frames in order.
pub open spec fn wire(ops: Seq<Op>) -> Seq<u8>
    decreases ops.len(),
{
    if ops.len() == 0 {
        Seq::<u8>::empty()
    } else {
        frame(ops[0]) + wire(ops.skip(1))
    }
}

/// Unfolds `wire` at position `i`.
pub proof fn lemma_wire_step(ops: Seq<Op>, i: int)
    requires
        0 <= i < ops.len(),
    ensures
        wire(ops.skip(i)) == frame(ops[i]) + wire(ops.skip(i + 1)),
{
    assert(ops.skip(i).skip(1) =~= ops.skip(i + 1));
}

fn put_varint(out: &mut Vec<u8>, value: u64)
    ensures
        final(out)@ == old(out)@ + varint(value as nat),
{
    let mut v: u64 = value;
    while v >= 128
        invariant
            out@ + varint(v as nat) == old(out)@ + varint(value as nat),
        decreases v,
    {
        let ghost before = out@;
        out.push((128 + v % 128) as u8);
        assert(before + varint(v as nat) =~= before.push((128 + v % 128) as u8) + varint(
            (v / 128) as nat,
        ));
        v = v / 128;
    }
    let ghost before = out@;
    out.push(v as u8);
    assert(before.push(v as u8) =~= before + varint(v as nat));
}

fn put_uint(out: &mut Vec<u8>, field: u8, value: u64)
    requires
        field < 16,
    ensures
        final(out)@ == old(out)@ + uint_field(field, value as nat),
{
    if value != 0 {
        out.push(field * 8 + KIND_VARINT);
        put_varint(out, value);
        assert(out@ =~= old(out)@ + uint_field(field, value as nat));
    } else {
        assert(out@ =~= old(out)@ + uint_field(field, value as nat));
    }
}

/// The number that a signed selector is written as.
fn widen(value: i32) -> (r: u64)
    ensures
        r as nat == int_value(value),
{
    if value >= 0 {
        value as u64
    } else {
        let below: i64 = -1 - (value as i64);
        u64::MAX - (below as u64)
    }
}

fn put_int(out: &mut Vec<u8>, field: u8, value: i32)
    requires
        field < 16,
    ensures
        final(out)@ == old(out)@ + int_field(field, value),
{
    put_uint(out, field, widen(value));
}

fn put_fixed32(out: &mut Vec<u8>, field: u8, bits: u32)
    requires
        field < 16,
    ensures
        final(out)@ == old(out)@ + fixed32_field(field, bits),
{
    if bits != 0 {
        out.push(field * 8 + KIND_FIXED32);
        out.push((bits % 256) as u8);
        out.push((bits / 256 % 256) as u8);
        out.push((bits / 65536 % 256) as u8);
        out.push((bits / 16777216) as u8);
        assert(out@ =~= old(out)@ + fixed32_field(field, bits));
    } else {
        assert(out@ =~= old(out)@ + fixed32_field(field, bits));
    }
}

fn put_delimited(out: &mut Vec<u8>, field: u8, payload: &[u8])
    requires
        field < 16,
    ensures
        final(out)@ == old(out)@ + delimited(field, payload@),
{
    out.push(field * 8 + KIND_BYTES);
    put_varint(out, payload.len() as u64);
    out.extend_from_slice(payload);
    assert(out@ =~= old(out)@ + delimited(field, payload@));
}

fn put_text(out: &mut Vec<u8>, field: u8, text: &str)
    requires
        field < 16,
    ensures
        final(out)@ == old(out)@ + text_field(field, text@),
{
    let bytes = text.as_bytes();
    if bytes.len() != 0 {
        put_delimited(out, field, bytes);
    }
    proof {
        lemma_text_empty(text@);
        assert(out@ =~= old(out)@ + text_field(field, text@));
    }
}

/// Only the empty text has no UTF-8 bytes.
pub proof fn lemma_text_empty(text: Seq<char>)
    ensures
        encode_utf8(text).len() == 0 <==> text.len() == 0,
{
    reveal_with_fuel(encode_utf8, 2);
}

/// Writes the body of one operation.
fn put_body(out: &mut Vec<u8>, op: &Spec)
    ensures
        final(out)@ == old(out)@ + body_of(op@),
{
    match op {
        Spec::Resize { width, height, rtype, filter } => {
            put_uint(out, 1, *width as u64);
            put_uint(out, 2, *height as u64);
            put_int(out, 3, *rtype);
            put_int(out, 4, *filter);
        },
        Spec::Crop { x1, y1, x2, y2 } => {
            put_uint(out, 1, *x1 as u64);
            put_uint(out, 2, *y1 as u64);
            put_uint(out, 3, *x2 as u64);
            put_uint(out, 4, *y2 as u64);
        },
        Spec::Flipv => {},
        Spec::Fliph => {},
        Spec::Contrast { contrast } => {
            put_fixed32(out, 1, *contrast);
        },
        Spec::Filter { filter } => {
            put_int(out, 1, *filter);
        },
        Spec::Watermark { x, y, alpha } => {
            put_uint(out, 1, *x as u64);
            put_uint(out, 2, *y as u64);
            put_uint(out, 3, *alpha as u64);
        },
        Spec::Text { text, x, y } => {
            put_text(out, 1, text.as_str());
            put_uint(out, 2, *x as u64);
            put_uint(out, 3, *y as u64);
        },
        Spec::Oil { radius, intensity } => {
            put_int(out, 1, *radius);
            put_fixed32(out, 2, *intensity);
        },
    }
    reveal(body_of);
    assert(out@ =~= old(out)@ + body_of(op@));
}

/// The tag of an operation.
pub fn tag(op: &Spec) -> (t: u8)
    ensures
        t == tag_of(op@),
        1 <= t <= 9,
{
    match op {
        Spec::Resize { .. } => TAG_RESIZE,
        Spec::Crop { .. } => TAG_CROP,
        Spec::Flipv => TAG_FLIPV,
        Spec::Fliph => TAG_FLIPH,
        Spec::Contrast { .. } => TAG_CONTRAST,
        Spec::Filter { .. } => TAG_FILTER,
        Spec::Watermark { .. } => TAG_WATERMARK,
        Spec::Text { .. } => TAG_TEXT,
        Spec::Oil { .. } => TAG_OIL,
    }
}

/// Appends the frame of one operation.
fn put_frame(out: &mut Vec<u8>, op: &Spec)
    ensures
        final(out)@ == old(out)@ + frame(op@),
{
    reveal(operation);
    reveal(frame);
    let mut body: Vec<u8> = Vec::new();
    put_body(&mut body, op);
    assert(body@ =~= body_of(op@));
    let mut inner: Vec<u8> = Vec::new();
    put_delimited(&mut inner, tag(op), body.as_slice());
    assert(inner@ =~= operation(op@));
    put_delimited(out, FRAME_FIELD, inner.as_slice());
}

/// The binary encoding of a pipeline.
pub fn to_wire(specs: &[Spec]) -> (out: Vec<u8>)
    ensures
        out@ == wire(ops_of(specs@)),
{
    let ghost ops = ops_of(specs@);
    let mut out: Vec<u8> = Vec::new();
    let mut i: usize = 0;
    assert(ops.skip(0) =~= ops);
    while i < specs.len()
        invariant
            0 <= i <= specs.len(),
            ops == ops_of(specs@),
            out@ + wire(ops.skip(i as int)) == wire(ops),
        decreases specs.len() - i,
    {
        let ghost before = out@;
        put_frame(&mut out, &specs[i]);
        proof {
            lemma_wire_step(ops, i as int);
            assert(before + wire(ops.skip(i as int)) =~= (before + frame(ops[i as int])) + wire(
                ops.skip(i + 1),
            ));
        }
        i += 1;
    }
    assert(out@ =~= out@ + wire(ops.skip(i as int)));
    out
}

} // verus!
