//! The canonical binary encoding: fixed-width little-endian integers and
//! ULEB128 length prefixes in front of every sequence.
use vstd::prelude::*;

verus! {

/// `v` as `width` little-endian bytes (the value is taken modulo `256^width`).
pub open spec fn le_bytes(v: nat, width: nat) -> Seq<u8>
    decreases width,
{
    if width == 0 {
        seq![]
    } else {
        seq![(v % 256) as u8] + le_bytes(v / 256, (width - 1) as nat)
    }
}

/// Unsigned LEB128: seven bits per byte, least significant group first, the
/// high bit set on every byte but the last.
pub open spec fn uleb128(v: nat) -> Seq<u8>
    decreases v,
{
    if v < 128 {
        seq![v as u8]
    } else {
        seq![((v % 128) + 128) as u8] + uleb128(v / 128)
    }
}

/// A byte string: its length as ULEB128, then the bytes.
pub open spec fn enc_bytes(b: Seq<u8>) -> Seq<u8> {
    uleb128(b.len()) + b
}

/// The concatenation of a sequence of byte strings.
pub open spec fn concat_all(parts: Seq<Seq<u8>>) -> Seq<u8>
    decreases parts.len(),
{
    if parts.len() == 0 {
        seq![]
    } else {
        concat_all(parts.drop_last()) + parts.last()
    }
}

/// A sequence: the element count as ULEB128, then each element's encoding.
pub open spec fn enc_seq(parts: Seq<Seq<u8>>) -> Seq<u8> {
    uleb128(parts.len()) + concat_all(parts)
}

/// Each byte string of `bs` in its own encoding.
pub open spec fn each_enc_bytes(bs: Seq<Seq<u8>>) -> Seq<Seq<u8>> {
    bs.map_values(|b: Seq<u8>| enc_bytes(b))
}

/// The views of a vector of byte vectors.
pub open spec fn views_of(v: Seq<Vec<u8>>) -> Seq<Seq<u8>> {
    v.map_values(|b: Vec<u8>| b@)
}

/// Appends `val` to `binary` as ULEB128.
pub fn write_u64_as_uleb128(binary: &mut Vec<u8>, val: usize)
    ensures
        final(binary)@ == old(binary)@ + uleb128(val as nat),
{
    let ghost start = binary@;
    let ghost val0 = val;
    let mut val = val;
    loop
        invariant_except_break
            start + uleb128(val0 as nat) == binary@ + uleb128(val as nat),
        ensures
            binary@ == start + uleb128(val0 as nat),
        decreases val,
    {
        let cur = val & 0x7F;
        if cur != val {
            assert(cur == val % 128 && val >= 128) by (bit_vector)
                requires
                    cur == val & 0x7F,
                    cur != val,
            ;
            assert((val >> 7) == val / 128) by (bit_vector);
            assert((cur | 0x80) == cur + 128) by (bit_vector)
                requires
                    cur < 128,
            ;
            let ghost prev = binary@;
            let ghost v = val;
            binary.push((cur | 0x80) as u8);
            val = val >> 7;
            assert(uleb128(v as nat) == seq![(cur + 128) as u8] + uleb128(val as nat));
            assert(prev + uleb128(v as nat) == binary@ + uleb128(val as nat));
        } else {
            assert(val < 128) by (bit_vector)
                requires
                    cur == val & 0x7F,
                    cur == val,
            ;
            binary.push(cur as u8);
            break;
        }
    }
}

} // verus!
