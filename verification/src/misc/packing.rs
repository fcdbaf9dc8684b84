//! Fixed-width integer packing in little and big endian byte order.

use crate::error::ErrorKind;
use vstd::prelude::*;

verus! {

/// Byte order of a packed integer.
#[derive(Clone, Copy, Debug, PartialEq, Eq, Structural)]
pub enum Endian {
    Little,
    Big,
}

/// The `width` low bytes of `v`, least significant first.
pub open spec fn le_bytes(v: nat, width: nat) -> Seq<u8>
    decreases width,
{
    if width == 0 {
        Seq::empty()
    } else {
        seq![(v % 256) as u8] + le_bytes(v / 256, (width - 1) as nat)
    }
}

/// The number whose bytes, least significant first, are `bytes`.
pub open spec fn le_value(bytes: Seq<u8>) -> nat
    decreases bytes.len(),
{
    if bytes.len() == 0 {
        0
    } else {
        bytes[0] as nat + 256 * le_value(bytes.drop_first())
    }
}

/// The `width` low bytes of `v` in the given byte order.
pub open spec fn packed(v: nat, width: nat, endian: Endian) -> Seq<u8> {
    match endian {
        Endian::Little => le_bytes(v, width),
        Endian::Big => le_bytes(v, width).reverse(),
    }
}

/// The number that `bytes` hold in the given byte order.
pub open spec fn unpacked(bytes: Seq<u8>, endian: Endian) -> nat {
    match endian {
        Endian::Little => le_value(bytes),
        Endian::Big => le_value(bytes.reverse()),
    }
}

/// `256` to the power of `width`.
pub open spec fn span(width: nat) -> nat
    decreases width,
{
    if width == 0 {
        1
    } else {
        256 * span((width - 1) as nat)
    }
}

/// Reading back the low bytes of a number gives the number, cut to their width.
pub proof fn lemma_le_round_trip(v: nat, width: nat)
    ensures
        le_bytes(v, width).len() == width,
        le_value(le_bytes(v, width)) == v % span(width),
    decreases width,
{
    if width > 0 {
        let rest = le_bytes(v / 256, (width - 1) as nat);
        lemma_le_round_trip(v / 256, (width - 1) as nat);
        assert(le_bytes(v, width).drop_first() =~= rest);
        let s = span((width - 1) as nat);
        assert(s > 0) by {
            lemma_span_positive((width - 1) as nat);
        }
        vstd::arithmetic::div_mod::lemma_mod_breakdown(v as int, 256, s as int);
    }
}

/// A span is never zero.
pub proof fn lemma_span_positive(width: nat)
    ensures
        span(width) > 0,
    decreases width,
{
    if width > 0 {
        lemma_span_positive((width - 1) as nat);
    }
}

/// Packing and unpacking undo each other: a number that fits in `width` bytes
/// comes back from its packed bytes, in either byte order.
pub proof fn lemma_pack_round_trip(v: nat, width: nat, endian: Endian)
    requires
        v < span(width),
    ensures
        unpacked(packed(v, width, endian), endian) == v,
{
    lemma_le_round_trip(v, width);
    assert(v % span(width) == v) by (nonlinear_arith)
        requires
            v < span(width),
    ;
    assert(le_bytes(v, width).reverse().reverse() =~= le_bytes(v, width));
}

/// Packs an 8-bit integer into a one-byte vector.
pub fn pack8(v: u8) -> (out: Vec<u8>)
    ensures
        out@ == seq![v],
{
    let mut wtr: Vec<u8> = Vec::new();
    wtr.push(v);
    wtr
}

/// Unpacks an 8-bit integer from exactly one byte.
pub fn unpack8(vec: &[u8]) -> (v: Result<u8, ErrorKind>)
    ensures
        v == (if vec@.len() == 1 {
            Ok::<u8, ErrorKind>(vec@[0])
        } else {
            Err::<u8, ErrorKind>(ErrorKind::WrongVectorSize)
        }),
{
    if vec.len() != 1 {
        return Err(ErrorKind::WrongVectorSize);
    }
    Ok(vec[0])
}

/// Packs a 16-bit integer into two bytes.
pub fn pack16(v: u16, endian: Endian) -> (out: [u8; 2])
    ensures
        out@ == packed(v as nat, 2, endian),
{
    let b0 = (v % 256) as u8;
    let b1 = (v / 256) as u8;
    proof {
        reveal_with_fuel(le_bytes, 3);
    }
    match endian {
        Endian::Little => {
            let out = [b0, b1];
            out
        },
        Endian::Big => {
            let out = [b1, b0];
            out
        },
    }
}

/// Unpacks a 16-bit integer from two bytes.  More bytes are refused.
pub fn unpack16(vec: &[u8], endian: Endian) -> (v: Result<u16, ErrorKind>)
    requires
        vec@.len() >= 2,
    ensures
        match v {
            Ok(x) => vec@.len() == 2 && x == unpacked(vec@, endian),
            Err(e) => vec@.len() > 2 && e == ErrorKind::WrongVectorSize,
        },
{
    if vec.len() > 2 {
        return Err(ErrorKind::WrongVectorSize);
    }
    proof {
        reveal_with_fuel(le_value, 3);
        lemma_le_value_2(vec@);
        lemma_le_value_2(vec@.reverse());
    }
    match endian {
        Endian::Little => Ok(vec[0] as u16 + vec[1] as u16 * 256),
        Endian::Big => Ok(vec[1] as u16 + vec[0] as u16 * 256),
    }
}

proof fn lemma_le_value_2(b: Seq<u8>)
    requires
        b.len() == 2,
    ensures
        le_value(b) == b[0] + 256 * b[1],
{
    reveal_with_fuel(le_value, 3);
}

proof fn lemma_le_value_4(b: Seq<u8>)
    requires
        b.len() == 4,
    ensures
        le_value(b) == b[0] + 256 * (b[1] + 256 * (b[2] + 256 * b[3])),
{
    let b1 = b.drop_first();
    let b2 = b1.drop_first();
    lemma_le_value_2(b2);
    assert(le_value(b1) == b1[0] + 256 * le_value(b2));
}

proof fn lemma_le_value_8(b: Seq<u8>)
    requires
        b.len() == 8,
    ensures
        le_value(b) == b[0] + 256 * (b[1] + 256 * (b[2] + 256 * (b[3] + 256 * (b[4] + 256 * (b[5]
            + 256 * (b[6] + 256 * b[7])))))),
{
    let b1 = b.drop_first();
    let b2 = b1.drop_first();
    let b3 = b2.drop_first();
    let b4 = b3.drop_first();
    lemma_le_value_4(b4);
    assert(le_value(b3) == b3[0] + 256 * le_value(b4));
    assert(le_value(b1) == b1[0] + 256 * le_value(b2));
}

/// Packs a 32-bit integer into four bytes.
pub fn pack32(v: u32, endian: Endian) -> (out: [u8; 4])
    ensures
        out@ == packed(v as nat, 4, endian),
{
    let b0 = (v % 256) as u8;
    let v1 = v / 256;
    let b1 = (v1 % 256) as u8;
    let v2 = v1 / 256;
    let b2 = (v2 % 256) as u8;
    let v3 = v2 / 256;
    let b3 = (v3 % 256) as u8;
    proof {
        assert(le_bytes(v3 as nat / 256, 0) =~= Seq::<u8>::empty());
        assert(le_bytes(v3 as nat, 1) =~= seq![b3]);
        assert(le_bytes(v2 as nat, 2) =~= seq![b2, b3]);
        assert(le_bytes(v1 as nat, 3) =~= seq![b1, b2, b3]);
    }
    match endian {
        Endian::Little => {
            let out = [b0, b1, b2, b3];
            out
        },
        Endian::Big => {
            let out = [b3, b2, b1, b0];
            out
        },
    }
}

/// Unpacks a 32-bit integer from four bytes.  More bytes are refused.
pub fn unpack32(vec: &[u8], endian: Endian) -> (v: Result<u32, ErrorKind>)
    requires
        vec@.len() >= 4,
    ensures
        match v {
            Ok(x) => vec@.len() == 4 && x == unpacked(vec@, endian),
            Err(e) => vec@.len() > 4 && e == ErrorKind::WrongVectorSize,
        },
{
    if vec.len() > 4 {
        return Err(ErrorKind::WrongVectorSize);
    }
    proof {
        lemma_le_value_4(vec@);
        lemma_le_value_4(vec@.reverse());
    }
    match endian {
        Endian::Little => Ok(
            vec[0] as u32 + 256 * (vec[1] as u32 + 256 * (vec[2] as u32 + 256 * (vec[3] as u32))),
        ),
        Endian::Big => Ok(
            vec[3] as u32 + 256 * (vec[2] as u32 + 256 * (vec[1] as u32 + 256 * (vec[0] as u32))),
        ),
    }
}

/// Packs a 64-bit integer into eight bytes.
pub fn pack64(v: u64, endian: Endian) -> (out: [u8; 8])
    ensures
        out@ == packed(v as nat, 8, endian),
{
    let b0 = (v % 256) as u8;
    let v1 = v / 256;
    let b1 = (v1 % 256) as u8;
    let v2 = v1 / 256;
    let b2 = (v2 % 256) as u8;
    let v3 = v2 / 256;
    let b3 = (v3 % 256) as u8;
    let v4 = v3 / 256;
    let b4 = (v4 % 256) as u8;
    let v5 = v4 / 256;
    let b5 = (v5 % 256) as u8;
    let v6 = v5 / 256;
    let b6 = (v6 % 256) as u8;
    let v7 = v6 / 256;
    let b7 = (v7 % 256) as u8;
    proof {
        assert(le_bytes(v7 as nat / 256, 0) =~= Seq::<u8>::empty());
        assert(le_bytes(v7 as nat, 1) =~= seq![b7]);
        assert(le_bytes(v6 as nat, 2) =~= seq![b6, b7]);
        assert(le_bytes(v5 as nat, 3) =~= seq![b5, b6, b7]);
        assert(le_bytes(v4 as nat, 4) =~= seq![b4, b5, b6, b7]);
        assert(le_bytes(v3 as nat, 5) =~= seq![b3, b4, b5, b6, b7]);
        assert(le_bytes(v2 as nat, 6) =~= seq![b2, b3, b4, b5, b6, b7]);
        assert(le_bytes(v1 as nat, 7) =~= seq![b1, b2, b3, b4, b5, b6, b7]);
    }
    match endian {
        Endian::Little => {
            let out = [b0, b1, b2, b3, b4, b5, b6, b7];
            out
        },
        Endian::Big => {
            let out = [b7, b6, b5, b4, b3, b2, b1, b0];
            out
        },
    }
}

/// Unpacks a 64-bit integer from eight bytes.  More bytes are refused.
pub fn unpack64(vec: &[u8], endian: Endian) -> (v: Result<u64, ErrorKind>)
    requires
        vec@.len() >= 8,
    ensures
        match v {
            Ok(x) => vec@.len() == 8 && x == unpacked(vec@, endian),
            Err(e) => vec@.len() > 8 && e == ErrorKind::WrongVectorSize,
        },
{
    if vec.len() > 8 {
        return Err(ErrorKind::WrongVectorSize);
    }
    proof {
        lemma_le_value_8(vec@);
        lemma_le_value_8(vec@.reverse());
    }
    match endian {
        Endian::Little => Ok(
            vec[0] as u64 + 256 * (vec[1] as u64 + 256 * (vec[2] as u64 + 256 * (vec[3] as u64 + 256
                * (vec[4] as u64 + 256 * (vec[5] as u64 + 256 * (vec[6] as u64 + 256 * (
            vec[7] as u64))))))),
        ),
        Endian::Big => Ok(
            vec[7] as u64 + 256 * (vec[6] as u64 + 256 * (vec[5] as u64 + 256 * (vec[4] as u64 + 256
                * (vec[3] as u64 + 256 * (vec[2] as u64 + 256 * (vec[1] as u64 + 256 * (
            vec[0] as u64))))))),
        ),
    }
}

} // verus!
