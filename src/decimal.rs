//! Unsigned decimal literals, read into little-endian bytes of a fixed width.
use crate::canonical::le_bytes;
use vstd::arithmetic::div_mod::{lemma_div_denominator, lemma_fundamental_div_mod_converse};
use vstd::prelude::*;

verus! {

/// `256^w`.
pub open spec fn pow256(w: nat) -> nat
    decreases w,
{
    if w == 0 {
        1
    } else {
        256 * pow256((w - 1) as nat)
    }
}

pub open spec fn is_digit(c: char) -> bool {
    '0' <= c <= '9'
}

pub open spec fn digit_value(c: char) -> nat {
    (c as u32 - '0' as u32) as nat
}

/// The value of a string of decimal digits, most significant first.
pub open spec fn digits_value(d: Seq<char>) -> nat
    decreases d.len(),
{
    if d.len() == 0 {
        0
    } else {
        digits_value(d.drop_last()) * 10 + digit_value(d.last())
    }
}

/// The digits of a literal: what follows an optional leading `+`.
pub open spec fn decimal_digits(s: Seq<char>) -> Seq<char> {
    if s.len() > 0 && s[0] == '+' {
        s.drop_first()
    } else {
        s
    }
}

/// An optional `+` followed by one or more decimal digits.
pub open spec fn is_decimal(s: Seq<char>) -> bool {
    let d = decimal_digits(s);
    d.len() > 0 && forall|i: int| 0 <= i < d.len() ==> is_digit(#[trigger] d[i])
}

pub open spec fn decimal_value(s: Seq<char>) -> nat {
    digits_value(decimal_digits(s))
}

/// Whether `s` is an unsigned decimal literal whose value fits in `width` bytes.
pub open spec fn fits_decimal(s: Seq<char>, width: nat) -> bool {
    is_decimal(s) && decimal_value(s) < pow256(width)
}

/// Multiplies the little-endian number `s` by ten and adds `c`: the new
/// digits and the carry out of the top byte.
pub open spec fn mul10_add(s: Seq<u8>, c: nat) -> (Seq<u8>, nat)
    decreases s.len(),
{
    if s.len() == 0 {
        (seq![], c)
    } else {
        let t = s[0] as nat * 10 + c;
        let rest = mul10_add(s.drop_first(), t / 256);
        (seq![(t % 256) as u8] + rest.0, rest.1)
    }
}

proof fn lemma_pow256_positive(w: nat)
    ensures
        pow256(w) > 0,
    decreases w,
{
    if w > 0 {
        lemma_pow256_positive((w - 1) as nat);
    }
}

proof fn lemma_mul10_add(v: nat, c: nat, w: nat)
    requires
        v < pow256(w),
        c < 256,
    ensures
        mul10_add(le_bytes(v, w), c) == (le_bytes(10 * v + c, w), (10 * v + c) / pow256(w)),
    decreases w,
{
    if w == 0 {
        assert(v == 0);
        assert((10 * v + c) / pow256(w) == c);
    } else {
        let s = le_bytes(v, w);
        let q = v / 256;
        let r = v % 256;
        let t = r * 10 + c;
        assert(s[0] as nat == r);
        lemma_pow256_positive((w - 1) as nat);
        assert(s.drop_first() == le_bytes(q, (w - 1) as nat));
        assert(q < pow256((w - 1) as nat)) by {
            lemma_fundamental_div_mod_converse(v as int, 256, q as int, r as int);
        }
        lemma_mul10_add(q, t / 256, (w - 1) as nat);
        let x = 10 * v + c;
        assert(v == q * 256 + r) by {
            lemma_fundamental_div_mod_converse(v as int, 256, q as int, r as int);
        }
        assert(t == (t / 256) * 256 + t % 256) by {
            lemma_fundamental_div_mod_converse(t as int, 256, (t / 256) as int, (t % 256) as int);
        }
        assert(x == (10 * q + t / 256) * 256 + t % 256) by (nonlinear_arith)
            requires
                x == 10 * v + c,
                v == q * 256 + r,
                t == r * 10 + c,
                t == (t / 256) * 256 + t % 256,
        ;
        lemma_fundamental_div_mod_converse(x as int, 256, (10 * q + t / 256) as int, (t % 256) as int);
        lemma_div_denominator(x as int, 256, pow256((w - 1) as nat) as int);
        assert(le_bytes(x, w) == seq![(x % 256) as u8] + le_bytes(x / 256, (w - 1) as nat));
        assert(mul10_add(s, c) == (seq![(t % 256) as u8] + mul10_add(s.drop_first(), t / 256).0,
            mul10_add(s.drop_first(), t / 256).1));
    }
}

proof fn lemma_le_bytes_len(v: nat, w: nat)
    ensures
        le_bytes(v, w).len() == w,
    decreases w,
{
    if w > 0 {
        lemma_le_bytes_len(v / 256, (w - 1) as nat);
    }
}

proof fn lemma_digits_value_prefix(d: Seq<char>, k: int)
    requires
        0 <= k <= d.len(),
    ensures
        digits_value(d.subrange(0, k)) <= digits_value(d),
    decreases d.len(),
{
    if k < d.len() {
        assert(d.drop_last().subrange(0, k) == d.subrange(0, k));
        lemma_digits_value_prefix(d.drop_last(), k);
    } else {
        assert(d.subrange(0, k) == d);
    }
}

/// Reads an unsigned decimal literal (an optional `+`, then one or more
/// digits) into `width` little-endian bytes; `None` when it is no such
/// literal or its value does not fit.
pub fn parse_decimal_le(s: &Vec<char>, width: usize) -> (r: Option<Vec<u8>>)
    ensures
        match r {
            Some(b) => fits_decimal(s@, width as nat) && b@ == le_bytes(
                decimal_value(s@),
                width as nat,
            ),
            None => !fits_decimal(s@, width as nat),
        },
{
    let n = s.len();
    let mut start: usize = 0;
    if n > 0 && s[0] == '+' {
        start = 1;
    }
    let ghost d = decimal_digits(s@);
    assert(d == s@.subrange(start as int, n as int));
    if start >= n {
        return None;
    }
    let mut acc: Vec<u8> = Vec::new();
    let mut k: usize = 0;
    while k < width
        invariant
            k <= width,
            acc@ == le_bytes(0, k as nat),
        decreases width - k,
    {
        acc.push(0);
        k += 1;
        assert(acc@ == le_bytes(0, k as nat)) by {
            assert(le_bytes(0, k as nat) == seq![0u8] + le_bytes(0, (k - 1) as nat));
            assert(le_bytes(0, (k - 1) as nat).push(0u8) == seq![0u8] + le_bytes(0, (k - 1) as nat)) by {
                lemma_zero_bytes_push((k - 1) as nat);
            }
        }
    }
    proof {
        lemma_pow256_positive(width as nat);
        lemma_le_bytes_len(0, width as nat);
    }
    let ghost mut v: nat = 0;
    let mut i: usize = start;
    assert(d.subrange(0, 0) =~= seq![]);
    while i < n
        invariant
            start <= i <= n,
            n == s@.len(),
            d == decimal_digits(s@),
            d == s@.subrange(start as int, n as int),
            acc@ == le_bytes(v, width as nat),
            acc@.len() == width,
            v < pow256(width as nat),
            v == digits_value(d.subrange(0, i - start)),
            forall|j: int| 0 <= j < i - start ==> is_digit(#[trigger] d[j]),
        decreases n - i,
    {
        let c = s[i];
        assert(d[i - start] == c);
        if !('0' <= c && c <= '9') {
            assert(!is_digit(d[i - start]));
            return None;
        }
        let dgt: u32 = (c as u32) - ('0' as u32);
        let mut carry: u32 = dgt;
        let mut out: Vec<u8> = Vec::new();
        let mut j: usize = 0;
        assert(acc@.subrange(0, width as int) == acc@);
        while j < width
            invariant
                j <= width,
                acc@.len() == width,
                carry < 256,
                out@.len() == j,
                out@ + mul10_add(acc@.subrange(j as int, width as int), carry as nat).0 == mul10_add(
                    acc@,
                    dgt as nat,
                ).0,
                mul10_add(acc@.subrange(j as int, width as int), carry as nat).1 == mul10_add(
                    acc@,
                    dgt as nat,
                ).1,
            decreases width - j,
        {
            let t: u32 = (acc[j] as u32) * 10 + carry;
            let ghost rest = acc@.subrange(j as int, width as int);
            assert(rest.drop_first() == acc@.subrange(j + 1, width as int));
            out.push((t % 256) as u8);
            carry = t / 256;
            j += 1;
            assert(out@ + mul10_add(acc@.subrange(j as int, width as int), carry as nat).0 == mul10_add(
                acc@,
                dgt as nat,
            ).0);
        }
        assert(acc@.subrange(width as int, width as int) =~= seq![]);
        proof {
            lemma_mul10_add(v, dgt as nat, width as nat);
        }
        let ghost next = 10 * v + dgt as nat;
        assert(d.subrange(0, i + 1 - start).drop_last() == d.subrange(0, i - start));
        assert(digits_value(d.subrange(0, i + 1 - start)) == next);
        if carry != 0 {
            proof {
                assert(next >= pow256(width as nat)) by (nonlinear_arith)
                    requires
                        next / pow256(width as nat) != 0,
                        pow256(width as nat) > 0,
                ;
                if is_decimal(s@) {
                    lemma_digits_value_prefix(d, i + 1 - start);
                }
            }
            return None;
        }
        proof {
            assert(next < pow256(width as nat)) by (nonlinear_arith)
                requires
                    next / pow256(width as nat) == 0,
                    pow256(width as nat) > 0,
            ;
            v = next;
        }
        acc = out;
        i += 1;
    }
    assert(d.subrange(0, n - start) == d);
    Some(acc)
}

/// A number written in decimal reads back as itself.
pub proof fn lemma_decimal_round_trip(v: nat)
    ensures
        is_decimal(crate::text::dec_str(v)),
        decimal_value(crate::text::dec_str(v)) == v,
        decimal_digits(crate::text::dec_str(v)) == crate::text::dec_str(v),
    decreases v,
{
    let s = crate::text::dec_str(v);
    assert(digit_value(crate::text::digit_char(v % 10)) == v % 10);
    if v < 10 {
        assert(s.drop_last() =~= Seq::<char>::empty());
        assert(digits_value(s) == digits_value(s.drop_last()) * 10 + digit_value(s.last()));
    } else {
        lemma_decimal_round_trip(v / 10);
        let p = crate::text::dec_str(v / 10);
        assert(s == p.push(crate::text::digit_char(v % 10)));
        assert(s.drop_last() == p);
        assert(digits_value(s) == digits_value(p) * 10 + v % 10);
        assert(s[0] == p[0]);
        assert forall|i: int| 0 <= i < s.len() implies is_digit(#[trigger] s[i]) by {
            if i < p.len() {
                assert(s[i] == p[i]);
                assert(is_digit(decimal_digits(p)[i]));
            }
        }
    }
}

proof fn lemma_zero_bytes_push(w: nat)
    ensures
        le_bytes(0, w).push(0u8) == seq![0u8] + le_bytes(0, w),
    decreases w,
{
    if w > 0 {
        lemma_zero_bytes_push((w - 1) as nat);
        assert(le_bytes(0, w) == seq![0u8] + le_bytes(0, (w - 1) as nat));
        assert(le_bytes(0, w).push(0u8) == seq![0u8] + le_bytes(0, (w - 1) as nat).push(0u8));
    }
}

} // verus!
