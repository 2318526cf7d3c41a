//! Votes as unit vectors: a one at the chosen option, zeros elsewhere.

use vstd::prelude::*;

verus! {

/// Largest number of options a vote can have.
pub const MAX_OPTIONS: usize = 256;

/// The unit vector of `size` entries whose entry `ith` is one.
#[derive(Clone, Copy, Debug, PartialEq, Eq, Structural)]
pub struct UnitVector {
    ith: usize,
    size: usize,
}

/// The abstract unit vector: its length and the position of the one.
pub struct UnitVectorView {
    pub size: nat,
    pub ith: nat,
}

impl View for UnitVector {
    type V = UnitVectorView;

    closed spec fn view(&self) -> UnitVectorView {
        UnitVectorView { size: self.size as nat, ith: self.ith as nat }
    }
}

/// Entry `j` of the unit vector with its one at `ith`.
pub open spec fn unit_entry(ith: nat, j: nat) -> nat {
    if j == ith {
        1
    } else {
        0
    }
}

/// Bit `l` of `n`, least significant first.
pub open spec fn bit_of(n: nat, l: nat) -> bool {
    (n / two_pow(l)) % 2 == 1
}

/// Number of bits needed to index `n` entries: the least `m` with
/// `2^m >= n`.
pub open spec fn bits_for(n: nat) -> nat
    decreases n,
{
    if n <= 1 {
        0
    } else {
        1 + bits_for((n + 1) / 2)
    }
}

/// Two to the power `m`.
pub open spec fn two_pow(m: nat) -> nat
    decreases m,
{
    if m == 0 {
        1
    } else {
        2 * two_pow((m - 1) as nat)
    }
}

/// Powers of two are positive.
pub proof fn lemma_two_pow_positive(m: nat)
    ensures
        two_pow(m) > 0,
    decreases m,
{
    if m > 0 {
        lemma_two_pow_positive((m - 1) as nat);
    }
}

/// `2^bits_for(n)` is at least `n`.
pub proof fn lemma_bits_for_covers(n: nat)
    ensures
        two_pow(bits_for(n)) >= n,
        n >= 1 ==> two_pow(bits_for(n)) < 2 * n,
    decreases n,
{
    if n > 1 {
        lemma_bits_for_covers((n + 1) / 2);
    }
}

/// Up to `MAX_OPTIONS` entries need at most eight bits.
pub proof fn lemma_bits_for_bound(n: nat)
    requires
        n <= MAX_OPTIONS,
    ensures
        bits_for(n) <= 8,
        two_pow(bits_for(n)) <= 256,
{
    reveal_with_fuel(bits_for, 10);
    reveal_with_fuel(two_pow, 10);
}

impl UnitVector {
    #[verifier::type_invariant]
    spec fn inv(self) -> bool {
        self.ith < self.size && self.size <= MAX_OPTIONS
    }

    /// The position of the one is within the vector, and the vector has at
    /// most `MAX_OPTIONS` entries.
    pub proof fn lemma_in_range(self)
        requires
            self.well_formed(),
        ensures
            self@.ith < self@.size <= MAX_OPTIONS,
    {
    }

    /// Whether the position of the one is within the vector.
    pub closed spec fn well_formed(self) -> bool {
        self.inv()
    }

    /// The unit vector of `size` entries with its one at `ith`.
    pub fn new(size: usize, ith: usize) -> (r: UnitVector)
        requires
            ith < size <= MAX_OPTIONS,
        ensures
            r@.size == size,
            r@.ith == ith,
            r.well_formed(),
    {
        UnitVector { ith, size }
    }

    /// The position of the one.
    pub fn ith(&self) -> (r: usize)
        ensures
            r == self@.ith,
            r < self@.size,
            self@.size <= MAX_OPTIONS,
            self.well_formed(),
    {
        proof {
            use_type_invariant(self);
        }
        self.ith
    }

    /// Number of entries.
    pub fn len(&self) -> (r: usize)
        ensures
            r == self@.size,
            self@.ith < r <= MAX_OPTIONS,
            self.well_formed(),
    {
        proof {
            use_type_invariant(self);
        }
        self.size
    }

    /// Whether entry `j` is the one.
    pub fn is_jth(&self, j: usize) -> (r: bool)
        ensures
            r == (unit_entry(self@.ith, j as nat) == 1),
    {
        self.ith == j
    }
}

/// Number of bits needed to index `n` entries.
pub fn bits_needed(n: usize) -> (bits: usize)
    requires
        n <= MAX_OPTIONS,
    ensures
        bits == bits_for(n as nat),
        bits <= 8,
{
    proof {
        lemma_bits_for_bound(n as nat);
    }
    let mut k: usize = n;
    let mut bits: usize = 0;
    while k > 1
        invariant
            bits + bits_for(k as nat) == bits_for(n as nat),
            bits_for(n as nat) <= 8,
        decreases k,
    {
        let half: usize = k / 2 + k % 2;
        assert(half == (k + 1) / 2);
        k = half;
        bits = bits + 1;
    }
    bits
}

/// The lowest `digits` bits of `n`, least significant first.
pub fn binrep(n: usize, digits: u32) -> (r: Vec<bool>)
    ensures
        r@.len() == digits,
        forall|l: int| 0 <= l < digits ==> r@[l] == bit_of(n as nat, l as nat),
{
    let mut out: Vec<bool> = Vec::new();
    let mut rest: usize = n;
    let mut l: u32 = 0;
    assert(two_pow(0) == 1);
    while l < digits
        invariant
            l <= digits,
            out@.len() == l,
            forall|k: int| 0 <= k < l ==> out@[k] == bit_of(n as nat, k as nat),
            rest as nat == (n as nat) / two_pow(l as nat),
        decreases digits - l,
    {
        out.push(rest % 2 == 1);
        proof {
            lemma_two_pow_positive(l as nat);
            vstd::arithmetic::div_mod::lemma_div_denominator(
                n as int,
                two_pow(l as nat) as int,
                2,
            );
            vstd::arithmetic::mul::lemma_mul_is_commutative(two_pow(l as nat) as int, 2);
        }
        rest = rest / 2;
        l = l + 1;
    }
    out
}

} // verus!
