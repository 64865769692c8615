//! Type signatures: parsing, display, and conversion to on-chain type tags.
use crate::error::ArgError;
use crate::text::{chars_of, push_char, string_of};
use vstd::prelude::*;

verus! {

/// The model of a [`MoveType`].
pub enum TypeSig {
    Bool,
    U8,
    U16,
    U32,
    U64,
    U128,
    U256,
    Address,
    Signer,
    Vector(Box<TypeSig>),
    Reference(bool, Box<TypeSig>),
    Unparsable(Seq<char>),
}

/// An enum of Move's possible types on-chain.
#[derive(Debug)]
pub enum MoveType {
    /// A bool type.
    Bool,
    /// An 8-bit unsigned int.
    U8,
    /// A 16-bit unsigned int.
    U16,
    /// A 32-bit unsigned int.
    U32,
    /// A 64-bit unsigned int.
    U64,
    /// A 128-bit unsigned int.
    U128,
    /// A 256-bit unsigned int.
    U256,
    /// A 32-byte account address.
    Address,
    /// An account signer.
    Signer,
    /// A vector of [`MoveType`].
    Vector { items: Box<MoveType> },
    /// A reference.
    Reference { mutable: bool, to: Box<MoveType> },
    /// A type that could not be parsed, with its text: one such part does
    /// not keep the rest of a signature from being read or shown.
    Unparsable(String),
}

impl View for MoveType {
    type V = TypeSig;

    open spec fn view(&self) -> TypeSig
        decreases self,
    {
        match self {
            MoveType::Bool => TypeSig::Bool,
            MoveType::U8 => TypeSig::U8,
            MoveType::U16 => TypeSig::U16,
            MoveType::U32 => TypeSig::U32,
            MoveType::U64 => TypeSig::U64,
            MoveType::U128 => TypeSig::U128,
            MoveType::U256 => TypeSig::U256,
            MoveType::Address => TypeSig::Address,
            MoveType::Signer => TypeSig::Signer,
            MoveType::Vector { items } => TypeSig::Vector(Box::new((**items).view())),
            MoveType::Reference { mutable, to } => TypeSig::Reference(
                *mutable,
                Box::new((**to).view()),
            ),
            MoveType::Unparsable(s) => TypeSig::Unparsable(s@),
        }
    }
}

/// The type tags that the chain accepts.
#[derive(Debug, PartialEq, Eq)]
pub enum TypeTag {
    Bool,
    U8,
    U16,
    U32,
    U64,
    U128,
    U256,
    Address,
    Signer,
    Vector(Box<TypeTag>),
}

/// The names of the primitive types, in the order of [`prim_sig`].
pub open spec fn prim_name(k: nat) -> Seq<char> {
    if k == 0 {
        seq!['b', 'o', 'o', 'l']
    } else if k == 1 {
        seq!['u', '8']
    } else if k == 2 {
        seq!['u', '1', '6']
    } else if k == 3 {
        seq!['u', '3', '2']
    } else if k == 4 {
        seq!['u', '6', '4']
    } else if k == 5 {
        seq!['u', '1', '2', '8']
    } else if k == 6 {
        seq!['u', '2', '5', '6']
    } else if k == 7 {
        seq!['a', 'd', 'd', 'r', 'e', 's', 's']
    } else {
        seq!['s', 'i', 'g', 'n', 'e', 'r']
    }
}

/// The number of primitive types.
pub const PRIM_COUNT: usize = 9;

pub open spec fn prim_sig(k: nat) -> TypeSig {
    if k == 0 {
        TypeSig::Bool
    } else if k == 1 {
        TypeSig::U8
    } else if k == 2 {
        TypeSig::U16
    } else if k == 3 {
        TypeSig::U32
    } else if k == 4 {
        TypeSig::U64
    } else if k == 5 {
        TypeSig::U128
    } else if k == 6 {
        TypeSig::U256
    } else if k == 7 {
        TypeSig::Address
    } else {
        TypeSig::Signer
    }
}

/// The primitive type named `s`, looking from the `k`-th name on.
pub open spec fn prim_lookup(s: Seq<char>, k: nat) -> Option<TypeSig>
    decreases 9 - k,
{
    if k >= 9 {
        None
    } else if s == prim_name(k) {
        Some(prim_sig(k))
    } else {
        prim_lookup(s, k + 1)
    }
}

pub open spec fn vector_open() -> Seq<char> {
    seq!['v', 'e', 'c', 't', 'o', 'r', '<']
}

/// The grammar of type tags: a primitive name, or `vector<T>` for a `T` of
/// the grammar.
pub open spec fn grammar_sig(s: Seq<char>) -> Option<TypeSig>
    decreases s.len(),
{
    if prim_lookup(s, 0) is Some {
        prim_lookup(s, 0)
    } else if s.len() > 8 && s.subrange(0, 7) == vector_open() && s.last() == '>' {
        match grammar_sig(s.subrange(7, s.len() - 1)) {
            Some(t) => Some(TypeSig::Vector(Box::new(t))),
            None => None,
        }
    } else {
        None
    }
}

pub open spec fn mut_space() -> Seq<char> {
    seq!['m', 'u', 't', ' ']
}

/// What a type signature string denotes: an optional `&` (then an optional
/// `mut `) in front of a type of the grammar; text outside the grammar is
/// kept as it is.
pub open spec fn parse_sig(s: Seq<char>) -> TypeSig {
    let is_ref = s.len() > 0 && s[0] == '&';
    let r1 = if is_ref {
        s.drop_first()
    } else {
        s
    };
    let is_mut = is_ref && r1.len() >= 4 && r1.subrange(0, 4) == mut_space();
    let r2 = if is_mut {
        r1.subrange(4, r1.len() as int)
    } else {
        r1
    };
    let inner = match grammar_sig(r2) {
        Some(t) => t,
        None => TypeSig::Unparsable(r2),
    };
    if is_ref {
        TypeSig::Reference(is_mut, Box::new(inner))
    } else {
        inner
    }
}

/// The on-chain tag of a type, if it has one.
pub open spec fn tag_of(t: TypeSig) -> Option<TypeTag>
    decreases t,
{
    match t {
        TypeSig::Bool => Some(TypeTag::Bool),
        TypeSig::U8 => Some(TypeTag::U8),
        TypeSig::U16 => Some(TypeTag::U16),
        TypeSig::U32 => Some(TypeTag::U32),
        TypeSig::U64 => Some(TypeTag::U64),
        TypeSig::U128 => Some(TypeTag::U128),
        TypeSig::U256 => Some(TypeTag::U256),
        TypeSig::Address => Some(TypeTag::Address),
        TypeSig::Signer => Some(TypeTag::Signer),
        TypeSig::Vector(i) => match tag_of(*i) {
            Some(x) => Some(TypeTag::Vector(Box::new(x))),
            None => None,
        },
        TypeSig::Reference(_, _) => None,
        TypeSig::Unparsable(_) => None,
    }
}

/// The type a tag stands for.
pub open spec fn sig_of_tag(t: TypeTag) -> TypeSig
    decreases t,
{
    match t {
        TypeTag::Bool => TypeSig::Bool,
        TypeTag::U8 => TypeSig::U8,
        TypeTag::U16 => TypeSig::U16,
        TypeTag::U32 => TypeSig::U32,
        TypeTag::U64 => TypeSig::U64,
        TypeTag::U128 => TypeSig::U128,
        TypeTag::U256 => TypeSig::U256,
        TypeTag::Address => TypeSig::Address,
        TypeTag::Signer => TypeSig::Signer,
        TypeTag::Vector(i) => TypeSig::Vector(Box::new(sig_of_tag(*i))),
    }
}

/// How a type is written.
pub open spec fn display(t: TypeSig) -> Seq<char>
    decreases t,
{
    match t {
        TypeSig::Bool => prim_name(0),
        TypeSig::U8 => prim_name(1),
        TypeSig::U16 => prim_name(2),
        TypeSig::U32 => prim_name(3),
        TypeSig::U64 => prim_name(4),
        TypeSig::U128 => prim_name(5),
        TypeSig::U256 => prim_name(6),
        TypeSig::Address => prim_name(7),
        TypeSig::Signer => prim_name(8),
        TypeSig::Vector(i) => vector_open() + display(*i) + seq!['>'],
        TypeSig::Reference(m, i) => if m {
            seq!['&'] + mut_space() + display(*i)
        } else {
            seq!['&'] + display(*i)
        },
        TypeSig::Unparsable(r) => seq!['u', 'n', 'p', 'a', 'r', 's', 'a', 'b', 'l', 'e', '<'] + r
            + seq!['>'],
    }
}

/// The characters of the `k`-th primitive name.
fn prim_name_chars(k: usize) -> (r: Vec<char>)
    requires
        k < PRIM_COUNT,
    ensures
        r@ == prim_name(k as nat),
{
    let r = if k == 0 {
        vec!['b', 'o', 'o', 'l']
    } else if k == 1 {
        vec!['u', '8']
    } else if k == 2 {
        vec!['u', '1', '6']
    } else if k == 3 {
        vec!['u', '3', '2']
    } else if k == 4 {
        vec!['u', '6', '4']
    } else if k == 5 {
        vec!['u', '1', '2', '8']
    } else if k == 6 {
        vec!['u', '2', '5', '6']
    } else if k == 7 {
        vec!['a', 'd', 'd', 'r', 'e', 's', 's']
    } else {
        vec!['s', 'i', 'g', 'n', 'e', 'r']
    };
    assert(r@ =~= prim_name(k as nat));
    r
}

fn prim_type(k: usize) -> (r: MoveType)
    requires
        k < PRIM_COUNT,
    ensures
        r@ == prim_sig(k as nat),
{
    if k == 0 {
        MoveType::Bool
    } else if k == 1 {
        MoveType::U8
    } else if k == 2 {
        MoveType::U16
    } else if k == 3 {
        MoveType::U32
    } else if k == 4 {
        MoveType::U64
    } else if k == 5 {
        MoveType::U128
    } else if k == 6 {
        MoveType::U256
    } else if k == 7 {
        MoveType::Address
    } else {
        MoveType::Signer
    }
}

/// Whether `cs[from..to]` is the word `w`.
pub fn word_at(cs: &Vec<char>, from: usize, to: usize, w: &Vec<char>) -> (r: bool)
    requires
        from <= to <= cs@.len(),
    ensures
        r == (cs@.subrange(from as int, to as int) == w@),
{
    if to - from != w.len() {
        return false;
    }
    let mut i: usize = 0;
    while i < w.len()
        invariant
            i <= w@.len(),
            to - from == w@.len(),
            from <= to <= cs@.len(),
            forall|j: int| 0 <= j < i ==> cs@[from + j] == w@[j],
        decreases w@.len() - i,
    {
        if cs[from + i] != w[i] {
            assert(cs@.subrange(from as int, to as int)[i as int] != w@[i as int]);
            return false;
        }
        i += 1;
    }
    assert(cs@.subrange(from as int, to as int) =~= w@);
    true
}

/// Parses `cs[from..to]` by the grammar of type tags.
fn parse_grammar(cs: &Vec<char>, from: usize, to: usize) -> (r: Option<MoveType>)
    requires
        from <= to <= cs@.len(),
    ensures
        match r {
            Some(t) => grammar_sig(cs@.subrange(from as int, to as int)) == Some(t@),
            None => grammar_sig(cs@.subrange(from as int, to as int)) is None,
        },
    decreases to - from,
{
    let ghost s = cs@.subrange(from as int, to as int);
    let mut k: usize = 0;
    while k < PRIM_COUNT
        invariant
            k <= PRIM_COUNT,
            from <= to <= cs@.len(),
            s == cs@.subrange(from as int, to as int),
            prim_lookup(s, 0) == prim_lookup(s, k as nat),
        decreases PRIM_COUNT - k,
    {
        let w = prim_name_chars(k);
        if word_at(cs, from, to, &w) {
            return Some(prim_type(k));
        }
        k += 1;
    }
    let open = vec!['v', 'e', 'c', 't', 'o', 'r', '<'];
    assert(open@ =~= vector_open());
    if to - from > 8 && word_at(cs, from, from + 7, &open) && cs[to - 1] == '>' {
        assert(s.subrange(0, 7) == cs@.subrange(from as int, from + 7));
        assert(s.subrange(7, s.len() - 1) == cs@.subrange(from + 7, to - 1));
        match parse_grammar(cs, from + 7, to - 1) {
            Some(t) => Some(MoveType::Vector { items: Box::new(t) }),
            None => None,
        }
    } else {
        proof {
            if s.len() > 8 && s.subrange(0, 7) == vector_open() {
                assert(s.subrange(0, 7) == cs@.subrange(from as int, from + 7));
            }
        }
        None
    }
}

impl MoveType {
    /// Parses a type signature; never fails: what the grammar of type tags
    /// does not cover becomes [`MoveType::Unparsable`].
    pub fn from_str(s: &str) -> (r: Result<MoveType, ArgError>)
        ensures
            r matches Ok(t) && t@ == parse_sig(s@),
    {
        let cs = chars_of(s);
        let n = cs.len();
        let mut from: usize = 0;
        let mut is_ref = false;
        let mut is_mut = false;
        if n > 0 && cs[0] == '&' {
            from = 1;
            is_ref = true;
        }
        let ms = vec!['m', 'u', 't', ' '];
        assert(ms@ =~= mut_space());
        if is_ref && n - from >= 4 && word_at(&cs, from, from + 4, &ms) {
            from = from + 4;
            is_mut = true;
        }
        proof {
            let r1 = if is_ref { s@.drop_first() } else { s@ };
            if is_ref {
                assert(r1 == cs@.subrange(1, n as int));
                if r1.len() >= 4 {
                    assert(r1.subrange(0, 4) == cs@.subrange(1, 5));
                }
            } else {
                assert(r1 == cs@.subrange(0, n as int));
            }
            let spec_mut = is_ref && r1.len() >= 4 && r1.subrange(0, 4) == mut_space();
            assert(spec_mut == is_mut);
            let r2 = if spec_mut { r1.subrange(4, r1.len() as int) } else { r1 };
            assert(r2 == cs@.subrange(from as int, n as int));
        }
        let ghost rest = cs@.subrange(from as int, n as int);
        let inner = match parse_grammar(&cs, from, n) {
            Some(t) => t,
            None => MoveType::Unparsable(string_of(&cs, from, n)),
        };
        let ghost expect = match grammar_sig(rest) {
            Some(t) => t,
            None => TypeSig::Unparsable(rest),
        };
        assert(inner@ == expect);
        if is_ref {
            let r = MoveType::Reference { mutable: is_mut, to: Box::new(inner) };
            assert(r@ == TypeSig::Reference(is_mut, Box::new(expect)));
            Ok(r)
        } else {
            Ok(inner)
        }
    }

    /// The type a tag stands for.
    pub fn from_tag(tag: &TypeTag) -> (r: MoveType)
        ensures
            r@ == sig_of_tag(*tag),
        decreases tag,
    {
        match tag {
            TypeTag::Bool => MoveType::Bool,
            TypeTag::U8 => MoveType::U8,
            TypeTag::U16 => MoveType::U16,
            TypeTag::U32 => MoveType::U32,
            TypeTag::U64 => MoveType::U64,
            TypeTag::U128 => MoveType::U128,
            TypeTag::U256 => MoveType::U256,
            TypeTag::Address => MoveType::Address,
            TypeTag::Signer => MoveType::Signer,
            TypeTag::Vector(v) => MoveType::Vector { items: Box::new(MoveType::from_tag(v)) },
        }
    }

    /// How the type is written: `vector<u8>`, `&mut signer`, and
    /// `unparsable<..>` around text that did not parse.
    pub fn to_display_string(&self) -> (r: String)
        ensures
            r@ == display(self@),
    {
        let mut r = String::new();
        self.write_to(&mut r);
        r
    }

    fn write_to(&self, out: &mut String)
        ensures
            final(out)@ == old(out)@ + display(self@),
        decreases self,
    {
        let ghost start = out@;
        match self {
            MoveType::Bool => push_chars(out, &prim_name_chars(0)),
            MoveType::U8 => push_chars(out, &prim_name_chars(1)),
            MoveType::U16 => push_chars(out, &prim_name_chars(2)),
            MoveType::U32 => push_chars(out, &prim_name_chars(3)),
            MoveType::U64 => push_chars(out, &prim_name_chars(4)),
            MoveType::U128 => push_chars(out, &prim_name_chars(5)),
            MoveType::U256 => push_chars(out, &prim_name_chars(6)),
            MoveType::Address => push_chars(out, &prim_name_chars(7)),
            MoveType::Signer => push_chars(out, &prim_name_chars(8)),
            MoveType::Vector { items } => {
                let open = vec!['v', 'e', 'c', 't', 'o', 'r', '<'];
                assert(open@ =~= vector_open());
                push_chars(out, &open);
                items.write_to(out);
                push_char(out, '>');
                assert(out@ =~= start + display(self@));
            },
            MoveType::Reference { mutable, to } => {
                push_char(out, '&');
                if *mutable {
                    let ms = vec!['m', 'u', 't', ' '];
                    assert(ms@ =~= mut_space());
                    push_chars(out, &ms);
                }
                to.write_to(out);
                assert(out@ =~= start + display(self@));
            },
            MoveType::Unparsable(raw) => {
                let word = vec!['u', 'n', 'p', 'a', 'r', 's', 'a', 'b', 'l', 'e', '<'];
                push_chars(out, &word);
                let raw_chars = chars_of(raw.as_str());
                push_chars(out, &raw_chars);
                push_char(out, '>');
                assert(out@ =~= start + display(self@));
            },
        }
    }
}

/// Appends the characters `cs` to `out`.
pub fn push_chars(out: &mut String, cs: &Vec<char>)
    ensures
        final(out)@ == old(out)@ + cs@,
{
    let ghost start = out@;
    let mut i: usize = 0;
    while i < cs.len()
        invariant
            i <= cs@.len(),
            out@ == start + cs@.subrange(0, i as int),
        decreases cs@.len() - i,
    {
        push_char(out, cs[i]);
        i += 1;
        assert(out@ =~= start + cs@.subrange(0, i as int));
    }
    assert(cs@.subrange(0, cs@.len() as int) == cs@);
}

impl TypeTag {
    /// The on-chain tag of a type; references and text that did not parse
    /// have none.
    pub fn try_from(t: &MoveType) -> (r: Result<TypeTag, ArgError>)
        ensures
            match r {
                Ok(x) => tag_of(t@) == Some(x),
                Err(ArgError::TypeConversion) => tag_of(t@) is None,
                Err(_) => false,
            },
        decreases t,
    {
        match t {
            MoveType::Bool => Ok(TypeTag::Bool),
            MoveType::U8 => Ok(TypeTag::U8),
            MoveType::U16 => Ok(TypeTag::U16),
            MoveType::U32 => Ok(TypeTag::U32),
            MoveType::U64 => Ok(TypeTag::U64),
            MoveType::U128 => Ok(TypeTag::U128),
            MoveType::U256 => Ok(TypeTag::U256),
            MoveType::Address => Ok(TypeTag::Address),
            MoveType::Signer => Ok(TypeTag::Signer),
            MoveType::Vector { items } => match TypeTag::try_from(items) {
                Ok(x) => Ok(TypeTag::Vector(Box::new(x))),
                Err(e) => Err(e),
            },
            _ => Err(ArgError::TypeConversion),
        }
    }
}

/// Type arguments, as written on the command line.
pub struct TypeArgVec {
    pub type_args: Vec<MoveType>,
}

} // verus!
