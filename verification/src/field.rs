//! Scalar field elements, carried as canonical little-endian byte encodings.
//!
//! A [`Scalar`] holds the 32-byte canonical encoding of an element of the
//! BLS12-381 scalar field; its mathematical value is the little-endian
//! integer of those bytes, always below the field modulus. Arithmetic is
//! performed by the arkworks field implementation behind trusted wrappers
//! whose contracts state the exact modular arithmetic.

use vstd::prelude::*;

use ark_ff::{One, Zero};
use ark_serialize::{CanonicalDeserialize, CanonicalSerialize};

verus! {

/// The prime modulus of the BLS12-381 scalar field,
/// `0x73eda753299d7d483339d80809a1d80553bda402fffe5bfeffffffff00000001`,
/// assembled here from four 64-bit limbs.
pub open spec fn fr_modulus() -> nat {
    (0x73eda753299d7d48 * pow256(24) + 0x3339d80809a1d805 * pow256(16)
        + 0x53bda402fffe5bfe * pow256(8) + 0xffffffff00000001) as nat
}

/// Integer value of a little-endian byte sequence.
pub open spec fn le_val(s: Seq<u8>) -> nat
    decreases s.len(),
{
    if s.len() == 0 {
        0
    } else {
        (s[0] + 256 * le_val(s.subrange(1, s.len() as int))) as nat
    }
}

/// 256 raised to the power `k`.
pub open spec fn pow256(k: nat) -> nat
    decreases k,
{
    if k == 0 {
        1
    } else {
        256 * pow256((k - 1) as nat)
    }
}

/// Appending a byte adds its value at the next power of 256.
pub proof fn lemma_le_val_push(s: Seq<u8>, b: u8)
    ensures
        le_val(s.push(b)) == le_val(s) + (b as nat) * pow256(s.len()),
    decreases s.len(),
{
    if s.len() == 0 {
        assert(s.push(b).subrange(1, 1) =~= Seq::<u8>::empty());
        assert(le_val(s.push(b)) == (b as nat) + 256 * le_val(s.push(b).subrange(1, 1)));
        assert(pow256(0) == 1);
    } else {
        let tail = s.subrange(1, s.len() as int);
        assert(s.push(b).subrange(1, s.len() as int + 1) =~= tail.push(b));
        lemma_le_val_push(tail, b);
        assert(le_val(s.push(b)) == (s[0] as nat) + 256 * le_val(tail.push(b)));
        assert(le_val(s) == (s[0] as nat) + 256 * le_val(tail));
        assert(pow256(s.len()) == 256 * pow256((s.len() - 1) as nat));
        assert((b as nat) * pow256(s.len()) == 256 * ((b as nat) * pow256((s.len() - 1) as nat)))
            by (nonlinear_arith)
            requires
                pow256(s.len()) == 256 * pow256((s.len() - 1) as nat),
        {}
    }
}

/// A little-endian value is zero exactly when every byte is zero.
pub proof fn lemma_le_val_zero(s: Seq<u8>)
    ensures
        (le_val(s) == 0) <==> (forall|j: int| 0 <= j < s.len() ==> s[j] == 0),
    decreases s.len(),
{
    if s.len() > 0 {
        let tail = s.subrange(1, s.len() as int);
        lemma_le_val_zero(tail);
        assert(forall|j: int| 1 <= j < s.len() ==> s[j] == tail[j - 1]);
    }
}

/// Every 64-bit value lies below the field modulus.
pub proof fn lemma_u64_below_modulus(n: u64)
    ensures
        (n as nat) < fr_modulus(),
{
    assert(pow256(8) == 0x1_0000_0000_0000_0000) by {
        reveal_with_fuel(pow256, 9);
    }
    lemma_pow256_increases(8, 24);
}

/// Powers of 256 do not decrease.
pub proof fn lemma_pow256_increases(a: nat, b: nat)
    requires
        a <= b,
    ensures
        pow256(a) <= pow256(b),
    decreases b,
{
    if a < b {
        lemma_pow256_increases(a, (b - 1) as nat);
    }
}

/// The base `b` raised to the power `e`, modulo the field modulus.
pub open spec fn pow_mod(b: nat, e: nat) -> nat
    decreases e,
{
    if e == 0 {
        1nat % fr_modulus()
    } else {
        (b * pow_mod(b, (e - 1) as nat)) % fr_modulus()
    }
}

/// Copy a byte vector element by element.
pub(crate) fn copy_bytes(v: &Vec<u8>) -> (r: Vec<u8>)
    ensures
        r@ == v@,
{
    let mut out: Vec<u8> = Vec::new();
    let mut i: usize = 0;
    while i < v.len()
        invariant
            i <= v@.len(),
            out@ == v@.subrange(0, i as int),
        decreases v@.len() - i,
    {
        out.push(v[i]);
        proof {
            assert(out@ =~= v@.subrange(0, i + 1 as int));
        }
        i = i + 1;
    }
    proof {
        assert(v@.subrange(0, v@.len() as int) =~= v@);
    }
    out
}

/// An element of the scalar field, as its canonical 32-byte little-endian
/// encoding.
#[derive(Debug, PartialEq, Eq, Hash)]
pub struct Scalar {
    /// The canonical encoding; little-endian, 32 bytes, value below the
    /// modulus.
    pub bytes: Vec<u8>,
}

impl View for Scalar {
    type V = Seq<u8>;

    open spec fn view(&self) -> Seq<u8> {
        self.bytes@
    }
}

impl Scalar {
    /// The field element this encoding stands for.
    pub open spec fn value(&self) -> nat {
        le_val(self.bytes@)
    }

    /// The encoding is canonical: 32 bytes, value below the modulus.
    pub open spec fn wf(&self) -> bool {
        self.bytes@.len() == 32 && self.value() < fr_modulus()
    }

    /// Build the scalar with a given small value.
    pub fn from_u64(n: u64) -> (r: Scalar)
        ensures
            r.wf(),
            r.value() == n as nat,
    {
        let mut bytes: Vec<u8> = Vec::new();
        let mut m: u64 = n;
        let mut i: usize = 0;
        proof {
            assert(le_val(bytes@) == 0);
            assert(pow256(0) == 1);
            assert((m as nat) * pow256(0) == m as nat) by (nonlinear_arith)
                requires
                    pow256(0) == 1,
            {}
        }
        while i < 32
            invariant
                i <= 32,
                bytes@.len() == i,
                le_val(bytes@) + (m as nat) * pow256(i as nat) == n as nat,
                (m as nat) * pow256(i as nat) <= n as nat,
            decreases 32 - i,
        {
            let b: u8 = (m % 256) as u8;
            let m2: u64 = m / 256;
            proof {
                lemma_le_val_push(bytes@, b);
                assert((m2 as nat) * pow256(i as nat + 1) + (b as nat) * pow256(i as nat)
                    == (m as nat) * pow256(i as nat)) by (nonlinear_arith)
                    requires
                        pow256(i as nat + 1) == 256 * pow256(i as nat),
                        m2 == m / 256,
                        b == m % 256,
                {}
                assert((m2 as nat) * pow256(i as nat + 1) <= (m as nat) * pow256(i as nat));
            }
            bytes.push(b);
            m = m2;
            i = i + 1;
        }
        proof {
            assert(pow256(8) == 0x1_0000_0000_0000_0000) by {
                reveal_with_fuel(pow256, 9);
            }
            lemma_pow256_increases(8, 32);
            if m >= 1 {
                assert((m as nat) * pow256(32) >= pow256(32)) by (nonlinear_arith)
                    requires
                        m >= 1,
                {}
            }
            assert(m == 0);
            lemma_u64_below_modulus(n);
        }
        Scalar { bytes }
    }

    /// The zero element.
    pub fn zero() -> (r: Scalar)
        ensures
            r.wf(),
            r.value() == 0,
    {
        Scalar::from_u64(0)
    }

    /// The unit element.
    pub fn one() -> (r: Scalar)
        ensures
            r.wf(),
            r.value() == 1,
    {
        Scalar::from_u64(1)
    }

    /// A fresh scalar with the same encoding.
    pub fn duplicate(&self) -> (r: Scalar)
        ensures
            r@ == self@,
    {
        Scalar { bytes: copy_bytes(&self.bytes) }
    }

    /// Whether this is the zero element.
    pub fn is_zero(&self) -> (r: bool)
        ensures
            r == (self.value() == 0),
    {
        let mut i: usize = 0;
        let mut all0: bool = true;
        while i < self.bytes.len()
            invariant
                i <= self.bytes@.len(),
                all0 == (forall|j: int| 0 <= j < i ==> self.bytes@[j] == 0),
            decreases self.bytes@.len() - i,
        {
            if self.bytes[i] != 0 {
                all0 = false;
            }
            i = i + 1;
        }
        proof {
            lemma_le_val_zero(self.bytes@);
        }
        all0
    }
}

/// Relies on the arkworks BLS12-381 scalar field addition: the sum of the two
/// encoded elements, modulo the field's prime order.
#[verifier::external_body]
pub(crate) fn scalar_add(a: &Scalar, b: &Scalar) -> (r: Scalar)
    requires
        a.wf(),
        b.wf(),
    ensures
        r.wf(),
        r.value() == (a.value() + b.value()) % fr_modulus(),
{
    let x = ark_bls12_381::Fr::deserialize(&a.bytes[..]).unwrap();
    let y = ark_bls12_381::Fr::deserialize(&b.bytes[..]).unwrap();
    let mut out: Vec<u8> = Vec::new();
    (x + y).serialize(&mut out).unwrap();
    Scalar { bytes: out }
}

/// Relies on the arkworks BLS12-381 scalar field multiplication: the product
/// of the two encoded elements, modulo the field's prime order.
#[verifier::external_body]
pub(crate) fn scalar_mul(a: &Scalar, b: &Scalar) -> (r: Scalar)
    requires
        a.wf(),
        b.wf(),
    ensures
        r.wf(),
        r.value() == (a.value() * b.value()) % fr_modulus(),
{
    let x = ark_bls12_381::Fr::deserialize(&a.bytes[..]).unwrap();
    let y = ark_bls12_381::Fr::deserialize(&b.bytes[..]).unwrap();
    let mut out: Vec<u8> = Vec::new();
    (x * y).serialize(&mut out).unwrap();
    Scalar { bytes: out }
}

/// Relies on the arkworks BLS12-381 scalar field negation: the additive
/// inverse of the encoded element.
#[verifier::external_body]
pub(crate) fn scalar_neg(a: &Scalar) -> (r: Scalar)
    requires
        a.wf(),
    ensures
        r.wf(),
        r.value() == ((fr_modulus() - a.value()) as nat) % fr_modulus(),
{
    let x = ark_bls12_381::Fr::deserialize(&a.bytes[..]).unwrap();
    let mut out: Vec<u8> = Vec::new();
    (-x).serialize(&mut out).unwrap();
    Scalar { bytes: out }
}

} // verus!
