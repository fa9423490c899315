use crate::bits::{
    bits_value, bytes_value, lemma_bits_injective, lemma_pack_value, lemma_push_front, lemma_zero_iff_clear,
    lemma_zero_prefix, pack, pack_bits,
};
use vstd::arithmetic::power2::{lemma_pow2_unfold, pow2};
use vstd::prelude::*;

verus! {

/// Width of an integer's magnitude in bits.
pub const MAGNITUDE_BITS: usize = 256;

/// A signed integer of the machine: a sign and a 256-bit magnitude, most
/// significant bit first. Zero is never negative.
#[derive(Clone, Debug)]
pub struct IntegerData {
    negative: bool,
    magnitude: [bool; 256],
}

impl IntegerData {
    pub closed spec fn wf(&self) -> bool {
        &&& self.magnitude@.len() == MAGNITUDE_BITS
        &&& self.negative ==> bits_value(self.magnitude@) != 0
    }

    /// The number that the integer stands for.
    pub closed spec fn value(&self) -> int {
        if self.negative {
            -bits_value(self.magnitude@)
        } else {
            bits_value(self.magnitude@)
        }
    }

    /// The magnitude's bits, most significant first.
    pub closed spec fn magnitude_bits(&self) -> Seq<bool> {
        self.magnitude@
    }

    /// A non-negative integer's magnitude packs into the 32 big-endian bytes
    /// of its value.
    pub proof fn lemma_unsigned_bytes(&self)
        requires
            self.wf(),
            self.value() >= 0,
        ensures
            pack_bits(self.magnitude_bits()).len() == MAGNITUDE_BITS / 8,
            bytes_value(pack_bits(self.magnitude_bits())) == self.value(),
    {
        lemma_zero_iff_clear(self.magnitude@);
        lemma_pack_value(self.magnitude@);
    }

    /// An integer is fixed by its value: two well-formed integers of one
    /// value are the same.
    pub proof fn lemma_canonical(a: IntegerData, b: IntegerData)
        requires
            a.wf(),
            b.wf(),
            a.value() == b.value(),
        ensures
            a == b,
    {
        lemma_zero_iff_clear(a.magnitude@);
        lemma_zero_iff_clear(b.magnitude@);
        lemma_bits_injective(a.magnitude@, b.magnitude@);
        assert(a.magnitude =~= b.magnitude);
    }

    /// The integer of the given sign and bits, which are padded on the left
    /// with zeros to the full width.
    pub fn from_bits(negative: bool, bits: &[bool]) -> (r: Self)
        requires
            bits@.len() <= MAGNITUDE_BITS,
        ensures
            r.wf(),
            r.value() == (if negative && bits_value(bits@) != 0 {
                -bits_value(bits@)
            } else {
                bits_value(bits@)
            }),
    {
        let pad: usize = MAGNITUDE_BITS - bits.len();
        let mut magnitude: [bool; 256] = [false; 256];
        let ghost zeros = Seq::new(pad as nat, |j: int| false);
        let mut k: usize = 0;
        while k < bits.len()
            invariant
                pad + bits@.len() == MAGNITUDE_BITS,
                k <= bits@.len(),
                forall|j: int| 0 <= j < pad ==> !magnitude@[j],
                forall|j: int| 0 <= j < k ==> magnitude@[pad + j] == bits@[j],
                forall|j: int| pad + k <= j < MAGNITUDE_BITS ==> !magnitude@[j],
            decreases bits@.len() - k,
        {
            magnitude[pad + k] = bits[k];
            k = k + 1;
        }
        assert(magnitude@ =~= zeros + bits@);
        proof {
            lemma_zero_prefix(pad as nat, bits@);
            lemma_zero_iff_clear(bits@);
        }
        let nonzero = Self::any_set(magnitude.as_slice());
        IntegerData { negative: negative && nonzero, magnitude }
    }

    fn any_set(bits: &[bool]) -> (r: bool)
        ensures
            r == (bits_value(bits@) != 0),
    {
        proof {
            lemma_zero_iff_clear(bits@);
        }
        let mut i: usize = 0;
        while i < bits.len()
            invariant
                i <= bits@.len(),
                forall|j: int| 0 <= j < i ==> !bits@[j],
            decreases bits@.len() - i,
        {
            if bits[i] {
                proof {
                    lemma_zero_iff_clear(bits@);
                }
                return true;
            }
            i = i + 1;
        }
        false
    }

    /// The integer `v`.
    pub fn from_i64(v: i64) -> (r: Self)
        ensures
            r.wf(),
            r.value() == v as int,
    {
        let m0: u64 = if v < 0 {
            ((-(v + 1)) as u64) + 1
        } else {
            v as u64
        };
        let mut m: u64 = m0;
        let mut low: Vec<bool> = Vec::new();
        let mut k: usize = 0;
        proof {
            vstd::arithmetic::power2::lemma2_to64();
        }
        while k < 64
            invariant
                k <= 64,
                low@.len() == k,
                bits_value(low@) + m * pow2(k as nat) == m0,
                m < pow2((64 - k) as nat),
            decreases 64 - k,
        {
            let b: bool = m % 2 == 1;
            let ghost old_low = low@;
            low.insert(0, b);
            proof {
                assert(low@ =~= seq![b] + old_low);
                lemma_push_front(b, old_low);
                lemma_pow2_unfold((k + 1) as nat);
                lemma_pow2_unfold((64 - k) as nat);
                let p = pow2(k as nat) as int;
                let q = pow2((63 - k) as nat) as int;
                let mm = m as int;
                assert(mm * p == (mm / 2) * (2 * p) + (if b { p } else { 0 })) by (nonlinear_arith)
                    requires
                        b == (mm % 2 == 1),
                        mm >= 0,
                ;
                assert(mm / 2 < q) by (nonlinear_arith)
                    requires
                        mm < 2 * q,
                ;
            }
            m = m / 2;
            k = k + 1;
        }
        assert(m == 0);
        let r = Self::from_bits(v < 0, low.as_slice());
        r
    }

    /// True unless the integer is zero.
    pub fn is_nonzero(&self) -> (r: bool)
        requires
            self.wf(),
        ensures
            r == (self.value() != 0),
    {
        proof {
            lemma_zero_iff_clear(self.magnitude@);
        }
        Self::any_set(self.magnitude.as_slice())
    }

    /// True when the integer is not negative.
    pub fn is_non_negative(&self) -> (r: bool)
        requires
            self.wf(),
        ensures
            r == (self.value() >= 0),
    {
        proof {
            lemma_zero_iff_clear(self.magnitude@);
        }
        !self.negative
    }

    /// The 32 bytes of a non-negative integer, most significant first.
    pub fn to_unsigned_bytes(&self) -> (r: Vec<u8>)
        requires
            self.wf(),
            self.value() >= 0,
        ensures
            r@ == pack_bits(self.magnitude_bits()),
            r@.len() == MAGNITUDE_BITS / 8,
            bytes_value(r@) == self.value(),
    {
        proof {
            lemma_zero_iff_clear(self.magnitude@);
            lemma_pack_value(self.magnitude@);
        }
        pack(self.magnitude.as_slice())
    }
}

} // verus!
