//! Arithmetic modulo the fixed public prime.
use vstd::arithmetic::div_mod::{
    lemma_add_mod_noop, lemma_fundamental_div_mod_converse, lemma_mod_add_multiples_vanish, lemma_mul_mod_noop,
    lemma_sub_mod_noop,
};
use vstd::prelude::*;

verus! {

/// The public prime modulus.
pub const P: u64 = 1_000_000_007;

/// The canonical representative of `n` modulo `P`, in `[0, P)`.
pub open spec fn modp(n: int) -> int {
    n % (P as int)
}

/// An integer modulo `P`, always held as its representative in `[0, P)`.
#[derive(Clone, Copy, Debug)]
pub struct FieldElement {
    value: u64,
}

impl FieldElement {
    #[verifier::type_invariant]
    spec fn in_range(self) -> bool {
        self.value < P
    }

    /// The representative of this element, as an integer in `[0, P)`.
    pub closed spec fn val(self) -> int {
        self.value as int
    }

    /// Returns the representative in `[0, P)`.
    pub fn value(&self) -> (r: u64)
        ensures
            r as int == self.val(),
            r < P,
    {
        proof {
            use_type_invariant(self);
        }
        self.value
    }

    /// Reduces any signed integer into the field.
    pub fn reduce(n: i64) -> (r: FieldElement)
        ensures
            r.val() == modp(n as int),
            0 <= r.val() < P,
    {
        if n >= 0 {
            let v = (n as u64) % P;
            FieldElement { value: v }
        } else {
            // n == -(k + 1) with k >= 0, so n == -(q + 1) * P + (P - 1 - k % P).
            let k = (-(n + 1)) as u64;
            let m = k % P;
            let v = P - 1 - m;
            proof {
                let q = k as int / P as int;
                assert(k as int == q * P as int + m as int);
                assert(n as int == (-(q + 1)) * P as int + v as int) by (nonlinear_arith)
                    requires
                        k as int == q * P as int + m as int,
                        n as int == -(k as int + 1),
                        v as int == P as int - 1 - m as int,
                ;
                lemma_fundamental_div_mod_converse(n as int, P as int, -(q + 1), v as int);
            }
            FieldElement { value: v }
        }
    }

    /// `a + b` modulo `P`.
    pub fn add(&self, other: &FieldElement) -> (r: FieldElement)
        ensures
            r.val() == modp(self.val() + other.val()),
            0 <= r.val() < P,
    {
        proof {
            use_type_invariant(self);
            use_type_invariant(other);
        }
        FieldElement { value: (self.value + other.value) % P }
    }

    /// `a - b` modulo `P`; `P` is added before reducing so no intermediate
    /// value is negative.
    pub fn sub(&self, other: &FieldElement) -> (r: FieldElement)
        ensures
            r.val() == modp(self.val() - other.val()),
            0 <= r.val() < P,
    {
        proof {
            use_type_invariant(self);
            use_type_invariant(other);
        }
        let v = (self.value + P - other.value) % P;
        proof {
            let d = self.val() - other.val();
            lemma_mod_add_multiples_vanish(d, P as int);
        }
        FieldElement { value: v }
    }

    /// `a * b` modulo `P`; the product of two representatives fits in 64 bits.
    pub fn mul(&self, other: &FieldElement) -> (r: FieldElement)
        ensures
            r.val() == modp(self.val() * other.val()),
            0 <= r.val() < P,
    {
        proof {
            use_type_invariant(self);
            use_type_invariant(other);
        }
        let a = self.value;
        let b = other.value;
        assert(a * b < P * P) by (nonlinear_arith)
            requires
                a < P,
                b < P,
        ;
        FieldElement { value: (a * b) % P }
    }
}

/// Masking round trip: removing a mask that was added gives back the value.
pub proof fn lemma_unmask(x: int, r: int)
    requires
        0 <= x < P,
        0 <= r < P,
    ensures
        modp(modp(x + r) - r) == x,
{
    lemma_sub_mod_noop(x + r, r, P as int);
    lemma_fundamental_div_mod_converse(r, P as int, 0, r);
    lemma_fundamental_div_mod_converse(x, P as int, 0, x);
}

/// Sum of products: reducing the terms of a sum first does not change it.
pub proof fn lemma_sum_of_reduced(a: int, b: int, c: int, d: int)
    ensures
        modp(modp(modp(modp(a) + modp(b)) + modp(c)) + modp(d)) == modp(a + b + c + d),
{
    let p = P as int;
    lemma_add_mod_noop(a, b, p);
    lemma_add_mod_noop(a + b, c, p);
    lemma_add_mod_noop(a + b + c, d, p);
    lemma_mod_of_mod(a + b);
    lemma_mod_of_mod(a + b + c);
    lemma_add_mod_noop(modp(a + b), c, p);
    lemma_add_mod_noop(modp(a + b + c), d, p);
}

proof fn lemma_mod_of_mod(n: int)
    ensures
        modp(modp(n)) == modp(n),
{
    lemma_fundamental_div_mod_converse(modp(n), P as int, 0, modp(n));
}

/// A product reduced after its factors were reduced is the product reduced.
pub proof fn lemma_product_of_reduced(a: int, b: int)
    ensures
        modp(modp(a) * modp(b)) == modp(a * b),
{
    lemma_mul_mod_noop(a, b, P as int);
}

} // verus!
