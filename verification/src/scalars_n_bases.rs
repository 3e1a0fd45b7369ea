//! A deferred scalar-accumulation accumulator.
//!
//! An append-only list of `(scalar, base)` contributions over G1, merged from
//! heterogeneous sources and collapsed by a single multi-scalar
//! multiplication at the end, so that many linear-combination terms cost one
//! batched operation instead of one multiplication each.

use vstd::prelude::*;

use crate::field::{copy_bytes, fr_modulus, scalar_mul, Scalar};
use crate::group::{bytes_seq, g1_msm, g1_msm_of, scalar_values, scalars_wf};

verus! {

/// The encoding of the multi-scalar multiplication of a sequence of
/// `(scalar value, base encoding)` pairs.
pub open spec fn pairs_msm(ps: Seq<(nat, Seq<u8>)>) -> Seq<u8> {
    g1_msm_of(
        ps.map_values(|p: (nat, Seq<u8>)| p.0),
        ps.map_values(|p: (nat, Seq<u8>)| p.1),
    )
}

/// The pairs of `ps` with every scalar value multiplied by `r`, reduced.
pub open spec fn scaled_pairs(ps: Seq<(nat, Seq<u8>)>, r: nat) -> Seq<(nat, Seq<u8>)> {
    ps.map_values(|p: (nat, Seq<u8>)| (((r * p.0) % fr_modulus()), p.1))
}

/// An append-only accumulation of scalar-weighted G1 bases.
#[derive(Debug, PartialEq, Eq)]
pub struct ScalarsAndBases {
    /// The accumulated `(scalar, base)` contributions, in push order.
    pub pairs: Vec<(Scalar, Vec<u8>)>,
}

impl View for ScalarsAndBases {
    type V = Seq<(nat, Seq<u8>)>;

    open spec fn view(&self) -> Seq<(nat, Seq<u8>)> {
        self.pairs@.map_values(|p: (Scalar, Vec<u8>)| (p.0.value(), p.1@))
    }
}

impl ScalarsAndBases {
    /// Every accumulated scalar is canonically encoded.
    pub open spec fn wf(&self) -> bool {
        forall|i: int| 0 <= i < self.pairs@.len() ==> (#[trigger] self.pairs@[i]).0.wf()
    }

    /// An empty accumulator.
    pub fn new() -> (r: ScalarsAndBases)
        ensures
            r.wf(),
            r@ == Seq::<(nat, Seq<u8>)>::empty(),
    {
        let r = ScalarsAndBases { pairs: Vec::new() };
        proof {
            assert(r@ =~= Seq::<(nat, Seq<u8>)>::empty());
        }
        r
    }

    /// Append one `(scalar, base)` contribution.
    pub fn push(&mut self, scalar: Scalar, base: Vec<u8>)
        requires
            old(self).wf(),
            scalar.wf(),
        ensures
            final(self).wf(),
            final(self)@ == old(self)@.push((scalar.value(), base@)),
    {
        let ghost v0 = self@;
        self.pairs.push((scalar, base));
        proof {
            assert(self@ =~= v0.push((scalar.value(), base@)));
        }
    }

    /// Merge in another accumulator's contributions, each scalar pre-scaled
    /// by `scale`.
    pub fn merge(&mut self, scale: &Scalar, other: &ScalarsAndBases)
        requires
            old(self).wf(),
            scale.wf(),
            other.wf(),
        ensures
            final(self).wf(),
            final(self)@ == old(self)@ + scaled_pairs(other@, scale.value()),
    {
        let mut i: usize = 0;
        proof {
            assert(self@ =~= self@ + scaled_pairs(other@, scale.value()).subrange(0, 0));
        }
        while i < other.pairs.len()
            invariant
                i <= other.pairs@.len(),
                self.wf(),
                scale.wf(),
                other.wf(),
                self@ == old(self)@ + scaled_pairs(other@, scale.value()).subrange(0, i as int),
            decreases other.pairs@.len() - i,
        {
            let ghost v0 = self@;
            let s = scalar_mul(scale, &other.pairs[i].0);
            let b = copy_bytes(&other.pairs[i].1);
            self.pairs.push((s, b));
            proof {
                assert(self@ =~= v0.push((s.value(), b@)));
                assert(self@ =~= old(self)@ + scaled_pairs(other@, scale.value()).subrange(
                    0,
                    i as int + 1,
                ));
            }
            i = i + 1;
        }
        proof {
            assert(scaled_pairs(other@, scale.value()).subrange(
                0,
                other.pairs@.len() as int,
            ) =~= scaled_pairs(other@, scale.value()));
        }
    }

    /// Collapse the accumulation to a single G1 element by one multi-scalar
    /// multiplication.
    pub fn multi_scalar_mul(&self) -> (r: Vec<u8>)
        requires
            self.wf(),
        ensures
            r@ == pairs_msm(self@),
    {
        let mut ss: Vec<Scalar> = Vec::new();
        let mut bs: Vec<Vec<u8>> = Vec::new();
        let mut i: usize = 0;
        while i < self.pairs.len()
            invariant
                i <= self.pairs@.len(),
                self.wf(),
                ss@.len() == i,
                bs@.len() == i,
                scalars_wf(ss@),
                scalar_values(ss@) == self@.map_values(|p: (nat, Seq<u8>)| p.0).subrange(
                    0,
                    i as int,
                ),
                bytes_seq(bs@) == self@.map_values(|p: (nat, Seq<u8>)| p.1).subrange(0, i as int),
            decreases self.pairs@.len() - i,
        {
            ss.push(self.pairs[i].0.duplicate());
            bs.push(copy_bytes(&self.pairs[i].1));
            proof {
                assert(scalar_values(ss@) =~= self@.map_values(|p: (nat, Seq<u8>)| p.0).subrange(
                    0,
                    i as int + 1,
                ));
                assert(bytes_seq(bs@) =~= self@.map_values(|p: (nat, Seq<u8>)| p.1).subrange(
                    0,
                    i as int + 1,
                ));
            }
            i = i + 1;
        }
        proof {
            assert(scalar_values(ss@) =~= self@.map_values(|p: (nat, Seq<u8>)| p.0));
            assert(bytes_seq(bs@) =~= self@.map_values(|p: (nat, Seq<u8>)| p.1));
        }
        g1_msm(&ss, &bs)
    }
}

} // verus!
