//! The script transaction record and its canonical encoding.
use crate::canonical::{concat_all, each_enc_bytes, enc_bytes, enc_seq, uleb128, views_of, write_u64_as_uleb128};
use crate::type_args::TypeTag;
use vstd::prelude::*;

verus! {

/// The index of a tag's variant in the chain's encoding, where structs
/// take 7 and the narrow and wide integers came after them.
pub open spec fn tag_variant(t: TypeTag) -> u8 {
    match t {
        TypeTag::Bool => 0,
        TypeTag::U8 => 1,
        TypeTag::U64 => 2,
        TypeTag::U128 => 3,
        TypeTag::Address => 4,
        TypeTag::Signer => 5,
        TypeTag::Vector(_) => 6,
        TypeTag::U16 => 8,
        TypeTag::U32 => 9,
        TypeTag::U256 => 10,
    }
}

/// A tag's encoding: its variant index, then the element tag of a vector.
pub open spec fn tag_enc(t: TypeTag) -> Seq<u8>
    decreases t,
{
    match t {
        TypeTag::Vector(i) => seq![6u8] + tag_enc(*i),
        _ => seq![tag_variant(t)],
    }
}

/// The encoding of a script transaction: the bytecode as a byte string, the
/// arguments as a sequence of byte strings, the type arguments as a sequence
/// of tags.
pub open spec fn script_tx_enc(bytecode: Seq<u8>, args: Seq<Seq<u8>>, tags: Seq<TypeTag>) -> Seq<u8> {
    enc_bytes(bytecode) + enc_seq(each_enc_bytes(args)) + enc_seq(
        tags.map_values(|t: TypeTag| tag_enc(t)),
    )
}

/// Transaction representation used in execute call.
#[derive(Debug)]
pub struct ScriptTransaction {
    /// Script bytecode.
    pub bytecode: Vec<u8>,
    /// Script args.
    pub args: Vec<Vec<u8>>,
    /// Script type arguments.
    pub type_args: Vec<TypeTag>,
}

fn write_tag(out: &mut Vec<u8>, t: &TypeTag)
    ensures
        final(out)@ == old(out)@ + tag_enc(*t),
    decreases t,
{
    match t {
        TypeTag::Bool => out.push(0),
        TypeTag::U8 => out.push(1),
        TypeTag::U64 => out.push(2),
        TypeTag::U128 => out.push(3),
        TypeTag::Address => out.push(4),
        TypeTag::Signer => out.push(5),
        TypeTag::Vector(inner) => {
            out.push(6);
            write_tag(out, inner);
            assert(final(out)@ =~= old(out)@ + tag_enc(*t));
        },
        TypeTag::U16 => out.push(8),
        TypeTag::U32 => out.push(9),
        TypeTag::U256 => out.push(10),
    }
}

/// Appends a byte string: its length, then its bytes.
fn write_bytes(out: &mut Vec<u8>, b: &Vec<u8>)
    ensures
        final(out)@ == old(out)@ + enc_bytes(b@),
{
    write_u64_as_uleb128(out, b.len());
    out.extend_from_slice(b.as_slice());
    assert(final(out)@ =~= old(out)@ + enc_bytes(b@));
}

impl ScriptTransaction {
    /// Serializes the transaction.
    pub fn encode(self) -> (r: Vec<u8>)
        ensures
            r@ == script_tx_enc(self.bytecode@, views_of(self.args@), self.type_args@),
    {
        let mut out: Vec<u8> = Vec::new();
        write_bytes(&mut out, &self.bytecode);
        let ghost head = out@;
        write_u64_as_uleb128(&mut out, self.args.len());
        let ghost parts = each_enc_bytes(views_of(self.args@));
        let ghost mid = out@;
        let mut i: usize = 0;
        while i < self.args.len()
            invariant
                i <= self.args@.len(),
                parts == each_enc_bytes(views_of(self.args@)),
                out@ == mid + concat_all(parts.subrange(0, i as int)),
            decreases self.args@.len() - i,
        {
            assert(parts.subrange(0, i + 1).drop_last() == parts.subrange(0, i as int));
            write_bytes(&mut out, &self.args[i]);
            i += 1;
            assert(out@ =~= mid + concat_all(parts.subrange(0, i as int)));
        }
        assert(parts.subrange(0, self.args@.len() as int) == parts);
        let ghost after_args = out@;
        write_u64_as_uleb128(&mut out, self.type_args.len());
        let ghost tags = self.type_args@.map_values(|t: TypeTag| tag_enc(t));
        let ghost mid2 = out@;
        let mut k: usize = 0;
        while k < self.type_args.len()
            invariant
                k <= self.type_args@.len(),
                tags == self.type_args@.map_values(|t: TypeTag| tag_enc(t)),
                out@ == mid2 + concat_all(tags.subrange(0, k as int)),
            decreases self.type_args@.len() - k,
        {
            assert(tags.subrange(0, k + 1).drop_last() == tags.subrange(0, k as int));
            write_tag(&mut out, &self.type_args[k]);
            k += 1;
            assert(out@ =~= mid2 + concat_all(tags.subrange(0, k as int)));
        }
        assert(tags.subrange(0, self.type_args@.len() as int) == tags);
        assert(out@ =~= script_tx_enc(self.bytecode@, views_of(self.args@), self.type_args@));
        out
    }
}

} // verus!
