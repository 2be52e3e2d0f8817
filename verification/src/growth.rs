//! Growth classification and the growth-to-color rule.

use vstd::prelude::*;
use vstd::arithmetic::div_mod::{
    lemma_hoist_over_denominator, lemma_mod_bound, lemma_mod_multiples_vanish,
};
use crate::color::Color;

verus! {

/// The outcome of escape-time classification for one point: either the point
/// never escaped within the iteration bound, or it escaped after `n` steps,
/// where `n` is the zero-based index of the first iteration whose escape test
/// held.
#[derive(Debug, PartialEq, Eq, Clone, Copy)]
pub enum Growth {
    /// The escape test held at no step within the iteration bound.
    Stable,
    /// The escape test held first at step `n`.
    After(usize),
}

/// What it means for `g` to classify the escape observations `s`, where
/// `s[i]` records whether the escape test held at step `i`: the result is
/// `After(n)` exactly for the first step `n` whose test held, and `Stable`
/// exactly when no test held within the bound.
pub open spec fn classifies(s: Seq<bool>, g: Growth) -> bool {
    match g {
        Growth::Stable => forall|i: int| 0 <= i < s.len() ==> !s[i],
        Growth::After(n) => {
            &&& n < s.len()
            &&& s[n as int]
            &&& forall|i: int| 0 <= i < n ==> !s[i]
        },
    }
}

/// Scans the escape observations of one point, in step order, for the first
/// step at which the escape test held. Runs in time bounded by the number of
/// observations, which the caller caps at the iteration depth.
pub fn classify(escapes: &Vec<bool>) -> (g: Growth)
    ensures
        classifies(escapes@, g),
{
    let mut i: usize = 0;
    while i < escapes.len()
        invariant
            i <= escapes@.len(),
            forall|j: int| 0 <= j < i ==> !escapes@[j],
        decreases escapes@.len() - i,
    {
        if escapes[i] {
            return Growth::After(i);
        }
        i = i + 1;
    }
    Growth::Stable
}

/// Classification is a pure function of the observations: two results that
/// both classify the same observations are equal, so repeated classification
/// of identical inputs yields identical results.
pub proof fn lemma_classify_deterministic(s: Seq<bool>, g1: Growth, g2: Growth)
    requires
        classifies(s, g1),
        classifies(s, g2),
    ensures
        g1 == g2,
{
    match (g1, g2) {
        (Growth::After(n1), Growth::After(n2)) => {
            if n1 < n2 {
                assert(!s[n1 as int]);
            }
            if n2 < n1 {
                assert(!s[n2 as int]);
            }
        },
        (Growth::After(n1), Growth::Stable) => {
            assert(!s[n1 as int]);
        },
        (Growth::Stable, Growth::After(n2)) => {
            assert(!s[n2 as int]);
        },
        (Growth::Stable, Growth::Stable) => {},
    }
}

/// A point whose escape test held at no step — such as the origin under the
/// Mandelbrot recurrence with a zero constant — is classified stable, at any
/// iteration bound.
pub proof fn lemma_no_escape_is_stable(s: Seq<bool>, g: Growth)
    requires
        forall|i: int| 0 <= i < s.len() ==> !s[i],
        classifies(s, g),
    ensures
        g == Growth::Stable,
{
    if let Growth::After(n) = g {
        assert(!s[n as int]);
    }
}

/// The color assigned to a growth result: a stable point takes the dedicated
/// stable color; a point that escaped after `n` steps takes the palette entry
/// `(n / 4) % palette.len()`. Four consecutive escape speeds share one color
/// band, and the bands cycle through the palette instead of clamping at its
/// end.
pub open spec fn growth_color(g: Growth, stable_color: Color, palette: Seq<Color>) -> Color
    recommends
        palette.len() >= 1,
{
    match g {
        Growth::Stable => stable_color,
        Growth::After(n) => palette[((n as int) / 4) % (palette.len() as int)],
    }
}

impl Growth {
    /// Converts the growth to a color, given the stable color and the
    /// resolved (non-empty) palette.
    pub fn to_rgb(self, stable_color: Color, palette: &Vec<Color>) -> (c: Color)
        requires
            palette@.len() >= 1,
        ensures
            c == growth_color(self, stable_color, palette@),
    {
        match self {
            Growth::Stable => stable_color,
            Growth::After(n) => {
                let idx: usize = (n / 4) % palette.len();
                proof {
                    lemma_mod_bound((n / 4) as int, palette@.len() as int);
                }
                palette[idx]
            },
        }
    }
}

/// Band periodicity of the growth-to-color rule: escape counts that differ
/// by a whole number of palette cycles — four steps per band, one band per
/// palette entry — take the same color.
pub proof fn lemma_escape_color_periodic(
    n: usize,
    k: nat,
    stable_color: Color,
    palette: Seq<Color>,
)
    requires
        palette.len() >= 1,
        n + 4 * k * palette.len() <= usize::MAX,
    ensures
        growth_color(Growth::After((n + 4 * k * palette.len()) as usize), stable_color, palette)
            == growth_color(Growth::After(n), stable_color, palette),
{
    let len = palette.len() as int;
    let n2 = n + 4 * k * len;
    let q = n as int / 4;
    assert((n + 4 * k * palette.len()) as usize == n2);
    assert(n + 4 * k * len == n + (k * len) * 4) by (nonlinear_arith);
    lemma_hoist_over_denominator(n as int, k * len, 4);
    assert(n2 / 4 == k * len + q);
    lemma_mod_multiples_vanish(k as int, q, len);
    assert((len * k + q) % len == q % len);
    assert(k * len == len * k) by (nonlinear_arith);
}

} // verus!
