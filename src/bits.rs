use vstd::arithmetic::power2::{lemma2_to64, lemma_pow2_adds, lemma_pow2_pos, lemma_pow2_unfold, pow2};
use vstd::prelude::*;

verus! {

/// The unsigned number that a bit string spells, most significant bit first.
pub open spec fn bits_value(s: Seq<bool>) -> int
    decreases s.len(),
{
    if s.len() == 0 {
        0
    } else {
        (if s[0] {
            pow2((s.len() - 1) as nat) as int
        } else {
            0
        }) + bits_value(s.drop_first())
    }
}

/// The byte that eight bits spell, most significant bit first.
pub open spec fn byte_of(c: Seq<bool>) -> u8 {
    ((if c[0] { 128int } else { 0 }) + (if c[1] { 64int } else { 0 }) + (if c[2] { 32int } else { 0 })
        + (if c[3] { 16int } else { 0 }) + (if c[4] { 8int } else { 0 }) + (if c[5] { 4int } else { 0 })
        + (if c[6] { 2int } else { 0 }) + (if c[7] { 1int } else { 0 })) as u8
}

/// The bytes that a bit string of whole bytes packs into, in order.
pub open spec fn pack_bits(s: Seq<bool>) -> Seq<u8> {
    Seq::new(s.len() / 8, |i: int| byte_of(s.subrange(8 * i, 8 * i + 8)))
}

/// Leading zero bits do not change the value.
pub proof fn lemma_zero_prefix(k: nat, s: Seq<bool>)
    ensures
        bits_value(Seq::new(k, |i: int| false) + s) == bits_value(s),
    decreases k,
{
    if k > 0 {
        let z = Seq::new(k, |i: int| false);
        let z1 = Seq::new((k - 1) as nat, |i: int| false);
        assert((z + s).drop_first() =~= z1 + s);
        lemma_zero_prefix((k - 1) as nat, s);
    }
}

/// Prepending a bit adds its weight.
pub proof fn lemma_push_front(b: bool, s: Seq<bool>)
    ensures
        bits_value(seq![b] + s) == (if b {
            pow2(s.len()) as int
        } else {
            0
        }) + bits_value(s),
{
    assert((seq![b] + s).drop_first() =~= s);
}

/// A value is never negative, and it is zero exactly when no bit is set.
pub proof fn lemma_zero_iff_clear(s: Seq<bool>)
    ensures
        bits_value(s) >= 0,
        bits_value(s) == 0 <==> (forall|i: int| 0 <= i < s.len() ==> !s[i]),
    decreases s.len(),
{
    if s.len() > 0 {
        lemma_zero_iff_clear(s.drop_first());
        lemma_pow2_pos((s.len() - 1) as nat);
        if bits_value(s) == 0 {
            assert forall|i: int| 0 <= i < s.len() implies !s[i] by {
                if i > 0 {
                    assert(s[i] == s.drop_first()[i - 1]);
                }
            }
        }
        if forall|i: int| 0 <= i < s.len() ==> !s[i] {
            assert forall|i: int| 0 <= i < s.drop_first().len() implies !s.drop_first()[i] by {
                assert(s.drop_first()[i] == s[i + 1]);
            }
        }
    }
}

/// A value stays below two to the number of bits.
pub proof fn lemma_bits_bound(s: Seq<bool>)
    ensures
        0 <= bits_value(s) < pow2(s.len()),
    decreases s.len(),
{
    lemma_pow2_pos(s.len());
    if s.len() > 0 {
        lemma_bits_bound(s.drop_first());
        lemma_pow2_unfold(s.len());
    }
}

/// Bit strings of one length with one value are equal.
pub proof fn lemma_bits_injective(a: Seq<bool>, b: Seq<bool>)
    requires
        a.len() == b.len(),
        bits_value(a) == bits_value(b),
    ensures
        a == b,
    decreases a.len(),
{
    if a.len() > 0 {
        lemma_bits_bound(a.drop_first());
        lemma_bits_bound(b.drop_first());
        lemma_bits_injective(a.drop_first(), b.drop_first());
        assert(a =~= seq![a[0]] + a.drop_first());
        assert(b =~= seq![b[0]] + b.drop_first());
    }
}

/// The unsigned number that bytes spell, most significant byte first.
pub open spec fn bytes_value(s: Seq<u8>) -> int
    decreases s.len(),
{
    if s.len() == 0 {
        0
    } else {
        s[0] as int * pow2((8 * (s.len() - 1)) as nat) as int + bytes_value(s.drop_first())
    }
}

/// The value of a concatenation: the first part shifted past the second.
pub proof fn lemma_concat_value(a: Seq<bool>, c: Seq<bool>)
    ensures
        bits_value(a + c) == bits_value(a) * pow2(c.len()) + bits_value(c),
    decreases a.len(),
{
    if a.len() == 0 {
        assert(a + c =~= c);
    } else {
        lemma_concat_value(a.drop_first(), c);
        assert((a + c).drop_first() =~= a.drop_first() + c);
        lemma_pow2_adds((a.len() - 1) as nat, c.len());
        assert((a.len() - 1) as nat + c.len() == (a + c).len() - 1);
        let h = if a[0] {
            pow2((a.len() - 1) as nat) as int
        } else {
            0
        };
        let p = pow2(c.len()) as int;
        let r = bits_value(a.drop_first());
        assert((h + r) * p == h * p + r * p) by (nonlinear_arith);
    }
}

/// Eight bits make the byte of the same value.
pub proof fn lemma_byte_value(c: Seq<bool>)
    requires
        c.len() == 8,
    ensures
        byte_of(c) as int == bits_value(c),
{
    lemma2_to64();
    let c1 = c.drop_first();
    let c2 = c1.drop_first();
    let c3 = c2.drop_first();
    let c4 = c3.drop_first();
    let c5 = c4.drop_first();
    let c6 = c5.drop_first();
    let c7 = c6.drop_first();
    let c8 = c7.drop_first();
    assert(bits_value(c8) == 0);
    assert(bits_value(c7) == (if c[7] { 1int } else { 0 }));
    assert(bits_value(c6) == (if c[6] { 2int } else { 0 }) + bits_value(c7));
    assert(bits_value(c5) == (if c[5] { 4int } else { 0 }) + bits_value(c6));
    assert(bits_value(c4) == (if c[4] { 8int } else { 0 }) + bits_value(c5));
    assert(bits_value(c3) == (if c[3] { 16int } else { 0 }) + bits_value(c4));
    assert(bits_value(c2) == (if c[2] { 32int } else { 0 }) + bits_value(c3));
    assert(bits_value(c1) == (if c[1] { 64int } else { 0 }) + bits_value(c2));
    assert(bits_value(c) == (if c[0] { 128int } else { 0 }) + bits_value(c1));
}

/// Packing bits into bytes keeps the value: the bytes are the big-endian
/// form of the number that the bits spell.
pub proof fn lemma_pack_value(b: Seq<bool>)
    requires
        b.len() % 8 == 0,
    ensures
        bytes_value(pack_bits(b)) == bits_value(b),
    decreases b.len(),
{
    if b.len() > 0 {
        let c = b.subrange(0, 8);
        let rest = b.subrange(8, b.len() as int);
        assert(b =~= c + rest);
        lemma_concat_value(c, rest);
        lemma_byte_value(c);
        assert forall|i: int| 0 <= i < pack_bits(rest).len() implies pack_bits(b).drop_first()[i]
            == pack_bits(rest)[i] by {
            assert(b.subrange(8 * (i + 1), 8 * (i + 1) + 8) =~= rest.subrange(8 * i, 8 * i + 8));
        }
        assert(pack_bits(b).drop_first() =~= pack_bits(rest));
        lemma_pack_value(rest);
        assert(pack_bits(b)[0] == byte_of(c));
        assert(8 * (pack_bits(b).len() - 1) == rest.len());
    }
}

/// Packs a bit string of whole bytes into bytes.
pub fn pack(bits: &[bool]) -> (r: Vec<u8>)
    requires
        bits@.len() % 8 == 0,
    ensures
        r@ == pack_bits(bits@),
{
    let len: usize = bits.len();
    let n: usize = len / 8;
    let mut out: Vec<u8> = Vec::new();
    let mut i: usize = 0;
    while i < n
        invariant
            n == bits@.len() / 8,
            len == bits@.len(),
            bits@.len() % 8 == 0,
            i <= n,
            out@.len() == i,
            forall|j: int| 0 <= j < i ==> out@[j] == byte_of(bits@.subrange(8 * j, 8 * j + 8)),
        decreases n - i,
    {
        assert(8 * i + 8 <= bits@.len()) by (nonlinear_arith)
            requires
                i < n,
                n == bits@.len() / 8,
        ;
        let p: usize = 8 * i;
        let ghost c = bits@.subrange(8 * i as int, 8 * i as int + 8);
        let b: u8 = ((if bits[p] { 128u32 } else { 0 }) + (if bits[p + 1] { 64u32 } else { 0 })
            + (if bits[p + 2] { 32u32 } else { 0 }) + (if bits[p + 3] { 16u32 } else { 0 })
            + (if bits[p + 4] { 8u32 } else { 0 }) + (if bits[p + 5] { 4u32 } else { 0 })
            + (if bits[p + 6] { 2u32 } else { 0 }) + (if bits[p + 7] { 1u32 } else { 0 })) as u8;
        assert(b == byte_of(c));
        out.push(b);
        i = i + 1;
    }
    assert(out@ =~= pack_bits(bits@));
    out
}

} // verus!
