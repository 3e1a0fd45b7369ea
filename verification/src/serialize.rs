//! Canonical binary encoding and decoding of keys, commitments and proofs.
//!
//! A value is encoded as the plain concatenation of its group elements in
//! their canonical fixed-width encodings: 48 bytes for a G1 element, 96 for
//! a G2 element. Decoding fails the whole value as soon as one element is
//! not accepted as a canonical encoding.

use vstd::prelude::*;

use crate::field::copy_bytes;
use crate::group::{bytes_seq, g1_is_valid, g1_valid_of, g2_is_valid, g2_valid_of};
use crate::srs::{UnivariateProverParam, UnivariateUniversalParams, UnivariateVerifierParam};
use crate::structs::Commitment;
use crate::univariate_kzg::{proofs_view, UnivariateKzgProof};

verus! {

/// The concatenation of a sequence of byte strings.
pub open spec fn concat_of(s: Seq<Seq<u8>>) -> Seq<u8>
    decreases s.len(),
{
    if s.len() == 0 {
        Seq::empty()
    } else {
        concat_of(s.drop_last()) + s.last()
    }
}

/// The consecutive 48-byte chunks of a byte string.
pub open spec fn g1_chunks(s: Seq<u8>) -> Seq<Seq<u8>> {
    Seq::new(s.len() / 48, |i: int| s.subrange(48 * i, 48 * i + 48))
}

/// Append the bytes of `src` to `out`.
fn append_bytes(out: &mut Vec<u8>, src: &Vec<u8>)
    ensures
        final(out)@ == old(out)@ + src@,
{
    let mut i: usize = 0;
    while i < src.len()
        invariant
            i <= src@.len(),
            out@ == old(out)@ + src@.subrange(0, i as int),
        decreases src@.len() - i,
    {
        out.push(src[i]);
        proof {
            assert(out@ =~= old(out)@ + src@.subrange(0, i as int + 1));
        }
        i = i + 1;
    }
    proof {
        assert(old(out)@ + src@.subrange(0, src@.len() as int) =~= old(out)@ + src@);
    }
}

/// The concatenation of a list of element encodings.
fn concat_elems(elems: &Vec<Vec<u8>>) -> (r: Vec<u8>)
    ensures
        r@ == concat_of(bytes_seq(elems@)),
{
    let mut out: Vec<u8> = Vec::new();
    let mut i: usize = 0;
    proof {
        assert(out@ =~= concat_of(bytes_seq(elems@).subrange(0, 0)));
    }
    while i < elems.len()
        invariant
            i <= elems@.len(),
            out@ == concat_of(bytes_seq(elems@).subrange(0, i as int)),
        decreases elems@.len() - i,
    {
        append_bytes(&mut out, &elems[i]);
        proof {
            let full = bytes_seq(elems@);
            assert(full.subrange(0, i as int + 1).drop_last() =~= full.subrange(0, i as int));
            assert(full.subrange(0, i as int + 1).last() == full[i as int]);
        }
        i = i + 1;
    }
    proof {
        assert(bytes_seq(elems@).subrange(0, elems@.len() as int) =~= bytes_seq(elems@));
    }
    out
}

/// Copy `len` bytes of `bytes` starting at `start`.
fn sub_bytes(bytes: &Vec<u8>, start: usize, len: usize) -> (r: Vec<u8>)
    requires
        start + len <= bytes@.len(),
    ensures
        r@ == bytes@.subrange(start as int, start as int + len as int),
{
    let total = bytes.len();
    let mut out: Vec<u8> = Vec::new();
    let mut i: usize = 0;
    while i < len
        invariant
            i <= len,
            total == bytes@.len(),
            start + len <= total,
            out@ == bytes@.subrange(start as int, start as int + i as int),
        decreases len - i,
    {
        out.push(bytes[start + i]);
        proof {
            assert(out@ =~= bytes@.subrange(start as int, start as int + i as int + 1));
        }
        i = i + 1;
    }
    out
}

/// Split a byte string into 48-byte G1 encodings, failing when the length
/// is not a multiple of 48 or some chunk is not accepted as an encoding.
fn split_g1_elems(bytes: &Vec<u8>) -> (r: Option<Vec<Vec<u8>>>)
    ensures
        r is Some <==> (bytes@.len() % 48 == 0 && forall|i: int|
            0 <= i < g1_chunks(bytes@).len() ==> g1_valid_of(#[trigger] g1_chunks(bytes@)[i])),
        r matches Some(v) ==> bytes_seq(v@) == g1_chunks(bytes@),
{
    let n = bytes.len();
    if n % 48 != 0 {
        return None;
    }
    let mut out: Vec<Vec<u8>> = Vec::new();
    let mut off: usize = 0;
    let ghost m = g1_chunks(bytes@).len() as int;
    proof {
        assert(bytes_seq(out@) =~= g1_chunks(bytes@).subrange(0, 0));
    }
    while off < n
        invariant
            n == bytes@.len(),
            n % 48 == 0,
            off <= n,
            off % 48 == 0,
            m == g1_chunks(bytes@).len(),
            out@.len() == off / 48,
            bytes_seq(out@) == g1_chunks(bytes@).subrange(0, off as int / 48),
            forall|i: int|
                0 <= i < off / 48 ==> g1_valid_of(#[trigger] g1_chunks(bytes@)[i]),
        decreases n - off,
    {
        proof {
            assert(off + 48 <= n) by (nonlinear_arith)
                requires
                    off < n,
                    off % 48 == 0,
                    n % 48 == 0,
            {}
        }
        let chunk = sub_bytes(bytes, off, 48);
        let ghost k = off as int / 48;
        proof {
            assert(48 * k == off) by (nonlinear_arith)
                requires
                    k == off as int / 48,
                    off % 48 == 0,
            {}
            assert(g1_chunks(bytes@)[k] == bytes@.subrange(48 * k, 48 * k + 48));
            assert(chunk@ == g1_chunks(bytes@)[k]);
        }
        if !g1_is_valid(&chunk) {
            return None;
        }
        out.push(chunk);
        proof {
            assert((off + 48) as int / 48 == k + 1) by (nonlinear_arith)
                requires
                    48 * k == off,
            {}
            assert(bytes_seq(out@) =~= g1_chunks(bytes@).subrange(0, k + 1));
        }
        off = off + 48;
    }
    proof {
        assert(off as int / 48 == m) by (nonlinear_arith)
            requires
                off == bytes@.len(),
                m == bytes@.len() as int / 48,
        {}
        assert(g1_chunks(bytes@).subrange(0, m) =~= g1_chunks(bytes@));
    }
    Some(out)
}

impl Commitment {
    /// The canonical encoding: the single element's 48 bytes.
    pub fn to_bytes(&self) -> (r: Vec<u8>)
        ensures
            r@ == self@,
    {
        copy_bytes(&self.0)
    }

    /// Decode a commitment; fails unless the bytes are one accepted
    /// 48-byte element encoding.
    pub fn from_bytes(bytes: &Vec<u8>) -> (r: Option<Commitment>)
        ensures
            r is Some <==> (bytes@.len() == 48 && g1_valid_of(bytes@)),
            r matches Some(c) ==> c@ == bytes@,
    {
        if bytes.len() == 48 && g1_is_valid(bytes) {
            Some(Commitment(copy_bytes(bytes)))
        } else {
            None
        }
    }
}

impl UnivariateKzgProof {
    /// The canonical encoding: the single element's 48 bytes.
    pub fn to_bytes(&self) -> (r: Vec<u8>)
        ensures
            r@ == self@,
    {
        copy_bytes(&self.proof)
    }

    /// Decode a proof; fails unless the bytes are one accepted 48-byte
    /// element encoding.
    pub fn from_bytes(bytes: &Vec<u8>) -> (r: Option<UnivariateKzgProof>)
        ensures
            r is Some <==> (bytes@.len() == 48 && g1_valid_of(bytes@)),
            r matches Some(p) ==> p@ == bytes@,
    {
        if bytes.len() == 48 && g1_is_valid(bytes) {
            Some(UnivariateKzgProof { proof: copy_bytes(bytes) })
        } else {
            None
        }
    }
}

/// Encode a batch proof as the concatenation of its proofs' encodings, in
/// order.
pub fn batch_proof_to_bytes(batch_proof: &Vec<UnivariateKzgProof>) -> (r: Vec<u8>)
    ensures
        r@ == concat_of(proofs_view(batch_proof@)),
{
    let mut elems: Vec<Vec<u8>> = Vec::new();
    let mut i: usize = 0;
    while i < batch_proof.len()
        invariant
            i <= batch_proof@.len(),
            elems@.len() == i,
            forall|j: int| 0 <= j < i ==> (#[trigger] elems@[j])@ == batch_proof@[j].proof@,
        decreases batch_proof@.len() - i,
    {
        elems.push(copy_bytes(&batch_proof[i].proof));
        i = i + 1;
    }
    proof {
        assert(bytes_seq(elems@) =~~= proofs_view(batch_proof@));
    }
    concat_elems(&elems)
}

/// Decode a batch proof: consecutive 48-byte element encodings; fails when
/// the length is not a multiple of 48 or some element is not accepted.
pub fn batch_proof_from_bytes(bytes: &Vec<u8>) -> (r: Option<Vec<UnivariateKzgProof>>)
    ensures
        r is Some <==> (bytes@.len() % 48 == 0 && forall|i: int|
            0 <= i < g1_chunks(bytes@).len() ==> g1_valid_of(#[trigger] g1_chunks(bytes@)[i])),
        r matches Some(v) ==> proofs_view(v@) == g1_chunks(bytes@),
{
    match split_g1_elems(bytes) {
        None => None,
        Some(elems) => {
            let mut out: Vec<UnivariateKzgProof> = Vec::new();
            let mut i: usize = 0;
            while i < elems.len()
                invariant
                    i <= elems@.len(),
                    out@.len() == i,
                    forall|j: int| 0 <= j < i ==> (#[trigger] out@[j]).proof@ == elems@[j]@,
                decreases elems@.len() - i,
            {
                out.push(UnivariateKzgProof { proof: copy_bytes(&elems[i]) });
                i = i + 1;
            }
            proof {
                assert(proofs_view(out@) =~~= bytes_seq(elems@));
            }
            Some(out)
        },
    }
}

impl UnivariateProverParam {
    /// The canonical encoding: the power sequence's elements, concatenated
    /// in order.
    pub fn to_bytes(&self) -> (r: Vec<u8>)
        ensures
            r@ == concat_of(bytes_seq(self.powers_of_g@)),
    {
        concat_elems(&self.powers_of_g)
    }

    /// Decode a prover key: consecutive 48-byte element encodings.
    pub fn from_bytes(bytes: &Vec<u8>) -> (r: Option<UnivariateProverParam>)
        ensures
            r is Some <==> (bytes@.len() % 48 == 0 && forall|i: int|
                0 <= i < g1_chunks(bytes@).len() ==> g1_valid_of(
                    #[trigger] g1_chunks(bytes@)[i],
                )),
            r matches Some(pp) ==> bytes_seq(pp.powers_of_g@) == g1_chunks(bytes@),
    {
        match split_g1_elems(bytes) {
            None => None,
            Some(elems) => Some(UnivariateProverParam { powers_of_g: elems }),
        }
    }
}

impl UnivariateVerifierParam {
    /// The canonical encoding: `g`, then `h`, then `beta_h`.
    pub fn to_bytes(&self) -> (r: Vec<u8>)
        ensures
            r@ == self.g@ + self.h@ + self.beta_h@,
    {
        let mut out = copy_bytes(&self.g);
        append_bytes(&mut out, &self.h);
        append_bytes(&mut out, &self.beta_h);
        out
    }

    /// Decode a verifier key: one accepted 48-byte G1 encoding, then two
    /// accepted 96-byte G2 encodings.
    pub fn from_bytes(bytes: &Vec<u8>) -> (r: Option<UnivariateVerifierParam>)
        ensures
            r is Some <==> (bytes@.len() == 240 && g1_valid_of(bytes@.subrange(0, 48))
                && g2_valid_of(bytes@.subrange(48, 144)) && g2_valid_of(
                bytes@.subrange(144, 240),
            )),
            r matches Some(vp) ==> {
                &&& vp.g@ == bytes@.subrange(0, 48)
                &&& vp.h@ == bytes@.subrange(48, 144)
                &&& vp.beta_h@ == bytes@.subrange(144, 240)
            },
    {
        if bytes.len() != 240 {
            return None;
        }
        let g = sub_bytes(bytes, 0, 48);
        let h = sub_bytes(bytes, 48, 96);
        let beta_h = sub_bytes(bytes, 144, 96);
        if g1_is_valid(&g) && g2_is_valid(&h) && g2_is_valid(&beta_h) {
            Some(UnivariateVerifierParam { g, h, beta_h })
        } else {
            None
        }
    }
}

impl UnivariateUniversalParams {
    /// The canonical encoding: the power sequence's elements in order, then
    /// `h`, then `beta_h`.
    pub fn to_bytes(&self) -> (r: Vec<u8>)
        ensures
            r@ == concat_of(bytes_seq(self.powers_of_g@)) + self.h@ + self.beta_h@,
    {
        let mut out = concat_elems(&self.powers_of_g);
        append_bytes(&mut out, &self.h);
        append_bytes(&mut out, &self.beta_h);
        out
    }

    /// Decode an SRS: consecutive 48-byte G1 encodings followed by two
    /// accepted 96-byte G2 encodings.
    pub fn from_bytes(bytes: &Vec<u8>) -> (r: Option<UnivariateUniversalParams>)
        ensures
            r is Some <==> (bytes@.len() >= 192 && (bytes@.len() - 192) % 48 == 0 && g2_valid_of(
                bytes@.subrange(bytes@.len() - 192, bytes@.len() - 96),
            ) && g2_valid_of(bytes@.subrange(bytes@.len() - 96, bytes@.len() as int)) && forall|
                i: int,
            |
                0 <= i < g1_chunks(bytes@.subrange(0, bytes@.len() - 192)).len()
                    ==> g1_valid_of(
                    #[trigger] g1_chunks(bytes@.subrange(0, bytes@.len() - 192))[i],
                )),
            r matches Some(s) ==> {
                &&& bytes_seq(s.powers_of_g@) == g1_chunks(bytes@.subrange(0, bytes@.len() - 192))
                &&& s.h@ == bytes@.subrange(bytes@.len() - 192, bytes@.len() - 96)
                &&& s.beta_h@ == bytes@.subrange(bytes@.len() - 96, bytes@.len() as int)
            },
    {
        let n = bytes.len();
        if n < 192 || (n - 192) % 48 != 0 {
            return None;
        }
        let powers_bytes = sub_bytes(bytes, 0, n - 192);
        let h = sub_bytes(bytes, n - 192, 96);
        let beta_h = sub_bytes(bytes, n - 96, 96);
        if !g2_is_valid(&h) || !g2_is_valid(&beta_h) {
            return None;
        }
        match split_g1_elems(&powers_bytes) {
            None => None,
            Some(elems) => Some(UnivariateUniversalParams { powers_of_g: elems, h, beta_h }),
        }
    }
}

} // verus!
