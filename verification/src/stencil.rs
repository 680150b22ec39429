use vstd::prelude::*;

verus! {

/// One weight of a subdivision rule, held exactly.
///
/// The weights of an interior vertex with four or more neighbours involve
/// a cosine. They are named here by the number of neighbours `n`:
/// each neighbour weighs `alpha(n) = (1/n) (5/8 - (3/8 + 1/4 cos(2 pi / n))^2)`
/// and the vertex itself `1 - n alpha(n)`.
#[derive(Clone, Copy, Debug, PartialEq, Eq, Structural)]
pub enum Weight {
    /// The fraction `num / den`.
    Ratio { num: u32, den: u32 },
    /// `1 - n alpha(n)` for `n = valence`.
    LoopCenter { valence: usize },
    /// `alpha(n)` for `n = valence`.
    LoopRing { valence: usize },
}

impl Weight {
    /// A fraction has a denominator; a named weight has four or more
    /// neighbours.
    pub open spec fn wf(self) -> bool {
        match self {
            Weight::Ratio { num, den } => den > 0,
            Weight::LoopCenter { valence } => valence >= 4,
            Weight::LoopRing { valence } => valence >= 4,
        }
    }
}

/// Weight of each end of a boundary edge in its edge point: 1/2.
pub open spec fn midpoint_weight() -> Weight {
    Weight::Ratio { num: 1, den: 2 }
}

/// Weight of each end of an interior edge in its edge point: 3/8.
pub open spec fn edge_end_weight() -> Weight {
    Weight::Ratio { num: 3, den: 8 }
}

/// Weight of each of the two opposite corners in the edge point of an
/// interior edge: 1/8.
pub open spec fn edge_wing_weight() -> Weight {
    Weight::Ratio { num: 1, den: 8 }
}

/// Weight of a vertex with two neighbours in its vertex point: 3/4.
pub open spec fn corner_center_weight() -> Weight {
    Weight::Ratio { num: 3, den: 4 }
}

/// Weight of each of the two neighbours of such a vertex: 1/8.
pub open spec fn corner_ring_weight() -> Weight {
    Weight::Ratio { num: 1, den: 8 }
}

/// Weight `alpha` of each neighbour of a vertex with `valence` neighbours,
/// three or more: 3/16 for three, else Loop's weight.
pub open spec fn ring_weight(valence: usize) -> Weight {
    if valence == 3 {
        Weight::Ratio { num: 3, den: 16 }
    } else {
        Weight::LoopRing { valence }
    }
}

/// Weight `1 - n alpha` of a vertex with `valence` neighbours, three or
/// more, in its own vertex point: 7/16 for three.
pub open spec fn center_weight(valence: usize) -> Weight {
    if valence == 3 {
        Weight::Ratio { num: 7, den: 16 }
    } else {
        Weight::LoopCenter { valence }
    }
}

/// A weighted combination of positions: the position that a subdivision
/// rule prescribes is the sum of `weight * position` over `terms`, in
/// their order.
#[derive(Clone, Debug)]
pub struct Stencil<P> {
    pub terms: Vec<(Weight, P)>,
}

impl<P> View for Stencil<P> {
    type V = Seq<(Weight, P)>;

    open spec fn view(&self) -> Seq<(Weight, P)> {
        self.terms@
    }
}

/// True of the terms of a stencil that a subdivision rule can give: at
/// least one term, and every weight well formed.
pub open spec fn terms_wf<P>(terms: Seq<(Weight, P)>) -> bool {
    terms.len() > 0 && forall|i: int| 0 <= i < terms.len() ==> (#[trigger] terms[i]).0.wf()
}

impl<P> Stencil<P> {
    pub open spec fn wf(&self) -> bool {
        terms_wf(self@)
    }
}

/// True if `out` is a position that `blend` may answer with for a stencil
/// with the given terms.
pub open spec fn blended<P, F: Fn(&Stencil<P>) -> P>(
    blend: &F,
    terms: Seq<(Weight, P)>,
    out: P,
) -> bool {
    exists|s: Stencil<P>| s@ == terms && #[trigger] blend.ensures((&s,), out)
}

/// True if `blend` accepts every stencil that a subdivision rule can give.
pub open spec fn accepts_stencils<P, F: Fn(&Stencil<P>) -> P>(blend: &F) -> bool {
    forall|s: &Stencil<P>| s.wf() ==> #[trigger] blend.requires((s,))
}

/// `alpha(n)` for the given number of neighbours, three or more.
pub fn ring_weight_of(valence: usize) -> (w: Weight)
    ensures
        w == ring_weight(valence),
{
    if valence == 3 {
        Weight::Ratio { num: 3, den: 16 }
    } else {
        Weight::LoopRing { valence }
    }
}

/// `1 - n alpha(n)` for the given number of neighbours, three or more.
pub fn center_weight_of(valence: usize) -> (w: Weight)
    ensures
        w == center_weight(valence),
{
    if valence == 3 {
        Weight::Ratio { num: 7, den: 16 }
    } else {
        Weight::LoopCenter { valence }
    }
}

/// Hands `stencil` to `blend` and returns the position that it answers
/// with.
pub fn apply<P, F: Fn(&Stencil<P>) -> P>(blend: &F, stencil: &Stencil<P>) -> (out: P)
    requires
        accepts_stencils(blend),
        stencil.wf(),
    ensures
        blended(blend, stencil@, out),
{
    blend(stencil)
}

} // verus!
