//! Colors, palettes, and the gradient generator.

use vstd::prelude::*;
use vstd::arithmetic::div_mod::{
    lemma_div_nonincreasing, lemma_div_pos_is_pos, lemma_fundamental_div_mod, lemma_mod_bound,
};
use vstd::arithmetic::mul::{lemma_mul_inequality, lemma_mul_nonnegative};

verus! {

/// An RGB color: red, green and blue channels, 8 bits each.
pub type Color = [u8; 3];

/// A signed, wider-range channel triple. It serves only as an intermediate
/// during gradient interpolation, where a per-channel delta may be negative.
pub type ColorOffset = [i16; 3];

/// Widens each channel of a color into the signed intermediate form.
pub fn to_color_offset(color: Color) -> (o: ColorOffset)
    ensures
        forall|ch: int| 0 <= ch < 3 ==> o[ch] == color[ch] as i16,
{
    [color[0] as i16, color[1] as i16, color[2] as i16]
}

/// Narrows a signed channel triple back into a color. Each channel must
/// already be within the 8-bit range.
pub fn from_color_offset(offset: ColorOffset) -> (c: Color)
    requires
        forall|ch: int| 0 <= ch < 3 ==> 0 <= #[trigger] offset[ch] <= 255,
    ensures
        forall|ch: int| 0 <= ch < 3 ==> c[ch] == offset[ch] as u8,
{
    [offset[0] as u8, offset[1] as u8, offset[2] as u8]
}

/// A palette specification: an explicit list of colors, or a gradient
/// generator between two endpoint colors.
#[derive(Clone, Eq, PartialEq, Debug)]
pub enum Coloring {
    /// An explicit ordered palette, used as is.
    Palette(Vec<Color>),
    /// A gradient from `start` to `end` over `steps` steps. The palette it
    /// builds holds `steps + 1` colors when `steps >= 2`; `steps == 0` gives
    /// `[start]` alone and `steps == 1` gives `[start, end]`. Each channel is
    /// interpolated independently with a truncating integer division of its
    /// delta, so a channel whose endpoints agree never moves, and rounding
    /// error accumulates per channel rather than being redistributed.
    Range { start: Color, end: Color, steps: i32 },
}

/// A configuration that pixel computation cannot proceed on.
#[derive(Debug, PartialEq, Eq, Clone, Copy)]
pub enum ConfigError {
    /// An explicit palette with no colors: the growth-to-color lookup would
    /// have nothing to index.
    EmptyPalette,
    /// A gradient with a negative step count.
    NegativeSteps,
}

/// The per-channel increment of a gradient from channel value `s` to `e`
/// over `steps` steps: the delta `e - s` divided by `steps`, rounded toward
/// zero.
pub open spec fn chan_step(s: int, e: int, steps: int) -> int
    recommends
        1 <= steps,
{
    if e >= s {
        (e - s) / steps
    } else {
        -((s - e) / steps)
    }
}

/// The value of one channel at position `k` of a gradient from `s` to `e`
/// over `steps` steps: the endpoint itself at `k == steps`, and otherwise
/// `s` advanced `k` times by the truncated per-channel increment.
pub open spec fn gradient_chan(s: int, e: int, steps: int, k: int) -> int
    recommends
        1 <= steps,
        0 <= k <= steps,
{
    if k == steps {
        e
    } else {
        s + k * chan_step(s, e, steps)
    }
}

/// Every gradient channel value lies between its two endpoints, hence within
/// the 8-bit channel range.
proof fn lemma_gradient_chan_bounds(s: int, e: int, steps: int, k: int)
    requires
        0 <= s <= 255,
        0 <= e <= 255,
        1 <= steps,
        0 <= k <= steps,
    ensures
        e >= s ==> s <= gradient_chan(s, e, steps, k) <= e,
        e < s ==> e <= gradient_chan(s, e, steps, k) <= s,
        0 <= gradient_chan(s, e, steps, k) <= 255,
{
    if k < steps {
        if e >= s {
            let d = (e - s) / steps;
            lemma_div_pos_is_pos(e - s, steps);
            lemma_mul_nonnegative(k, d);
            lemma_mul_inequality(k, steps, d);
            lemma_fundamental_div_mod(e - s, steps);
            lemma_mod_bound(e - s, steps);
            assert(steps * d <= e - s);
            assert(k * d <= steps * d);
        } else {
            let m = (s - e) / steps;
            lemma_div_pos_is_pos(s - e, steps);
            lemma_mul_nonnegative(k, m);
            lemma_mul_inequality(k, steps, m);
            lemma_fundamental_div_mod(s - e, steps);
            lemma_mod_bound(s - e, steps);
            assert(steps * m <= s - e);
            assert(k * m <= steps * m);
            assert(chan_step(s, e, steps) == -m);
            assert(k * (-m) == -(k * m)) by (nonlinear_arith);
        }
    }
}

/// Advancing a gradient channel one position adds the per-channel increment.
proof fn lemma_gradient_chan_unfold(s: int, e: int, steps: int, k: int)
    requires
        1 <= steps,
        1 <= k < steps,
    ensures
        gradient_chan(s, e, steps, k)
            == gradient_chan(s, e, steps, k - 1) + chan_step(s, e, steps),
{
    let d = chan_step(s, e, steps);
    assert(k * d == (k - 1) * d + d) by (nonlinear_arith);
}

/// Computes the per-channel increment: the channel delta divided by the step
/// count, rounded toward zero. The division is performed on the nonnegative
/// magnitude of the delta.
fn delta_step(s: i16, e: i16, steps: i32) -> (d: i16)
    requires
        0 <= s <= 255,
        0 <= e <= 255,
        1 <= steps,
    ensures
        d as int == chan_step(s as int, e as int, steps as int),
{
    if e >= s {
        let m: i32 = (e as i32 - s as i32) / steps;
        proof {
            lemma_div_pos_is_pos(e - s, steps as int);
            lemma_div_nonincreasing(e - s, steps as int);
        }
        m as i16
    } else {
        let m: i32 = (s as i32 - e as i32) / steps;
        proof {
            lemma_div_pos_is_pos(s - e, steps as int);
            lemma_div_nonincreasing(s - e, steps as int);
        }
        -(m as i16)
    }
}

impl Coloring {
    /// A coloring the pixel pipeline can run on: an explicit palette must be
    /// non-empty, and a gradient's step count must not be negative.
    pub open spec fn is_valid(self) -> bool {
        match self {
            Coloring::Palette(v) => v@.len() >= 1,
            Coloring::Range { start, end, steps } => steps >= 0,
        }
    }

    /// Checks the coloring at configuration time, so that an unusable palette
    /// is rejected before any pixel is computed.
    pub fn validate(&self) -> (r: Result<(), ConfigError>)
        ensures
            r is Ok <==> self.is_valid(),
            match *self {
                Coloring::Palette(v) => r == if v@.len() == 0 {
                    Err::<(), ConfigError>(ConfigError::EmptyPalette)
                } else {
                    Ok::<(), ConfigError>(())
                },
                Coloring::Range { start, end, steps } => r == if steps < 0 {
                    Err::<(), ConfigError>(ConfigError::NegativeSteps)
                } else {
                    Ok::<(), ConfigError>(())
                },
            },
    {
        match self {
            Coloring::Palette(v) => {
                if v.len() == 0 {
                    Err(ConfigError::EmptyPalette)
                } else {
                    Ok(())
                }
            },
            Coloring::Range { start, end, steps } => {
                if *steps < 0 {
                    Err(ConfigError::NegativeSteps)
                } else {
                    Ok(())
                }
            },
        }
    }

    /// Builds the concrete palette described by this coloring.
    ///
    /// An explicit palette is returned as is. A gradient yields its start
    /// color, then `steps - 1` colors each advanced channel-wise by the
    /// truncated per-channel increment, then the end color exactly; the
    /// degenerate step counts 0 and 1 yield `[start]` and `[start, end]`.
    /// A valid coloring always builds a non-empty palette.
    pub fn build(self) -> (r: Vec<Color>)
        requires
            self matches Coloring::Range { start, end, steps } ==> steps >= 0,
        ensures
            self matches Coloring::Palette(v) ==> r == v,
            self.is_valid() ==> r@.len() >= 1,
            self matches Coloring::Range { start, end, steps } ==> {
                &&& steps == 0 ==> r@.len() == 1
                &&& steps >= 1 ==> r@.len() == steps + 1
                &&& r@[0] == start
                &&& steps >= 1 ==> r@[steps as int] == end
                &&& steps >= 1 ==> forall|k: int, ch: int|
                    0 <= k <= steps && 0 <= ch < 3 ==> #[trigger] r@[k][ch]
                        == gradient_chan(start[ch] as int, end[ch] as int, steps as int, k)
            },
    {
        match self {
            Coloring::Palette(v) => v,
            Coloring::Range { start, end, steps } => {
                if steps == 0 {
                    let mut r: Vec<Color> = Vec::new();
                    r.push(start);
                    return r;
                }
                if steps == 1 {
                    let mut r: Vec<Color> = Vec::new();
                    r.push(start);
                    r.push(end);
                    proof {
                        assert forall|k: int, ch: int| 0 <= k <= steps && 0 <= ch < 3 implies
                            #[trigger] r@[k][ch] == gradient_chan(
                            start[ch] as int,
                            end[ch] as int,
                            steps as int,
                            k,
                        ) by {
                            if k == 0 {
                                assert(r@[0] == start);
                            } else {
                                assert(r@[1] == end);
                            }
                        }
                    }
                    return r;
                }
                let s_off = to_color_offset(start);
                let e_off = to_color_offset(end);
                let rgb_steps: ColorOffset = [
                    delta_step(s_off[0], e_off[0], steps),
                    delta_step(s_off[1], e_off[1], steps),
                    delta_step(s_off[2], e_off[2], steps),
                ];
                let mut progress: ColorOffset = s_off;
                let mut result: Vec<Color> = Vec::new();
                result.push(start);
                let mut k: i32 = 1;
                while k < steps
                    invariant
                        2 <= steps,
                        1 <= k <= steps,
                        forall|ch: int| 0 <= ch < 3 ==> #[trigger] rgb_steps[ch] as int
                            == chan_step(start[ch] as int, end[ch] as int, steps as int),
                        forall|ch: int| 0 <= ch < 3 ==> #[trigger] progress[ch] as int
                            == gradient_chan(
                            start[ch] as int,
                            end[ch] as int,
                            steps as int,
                            k - 1,
                        ),
                        result@.len() == k,
                        forall|i: int, ch: int|
                            0 <= i < k && 0 <= ch < 3 ==> #[trigger] result@[i][ch]
                                == gradient_chan(
                                start[ch] as int,
                                end[ch] as int,
                                steps as int,
                                i,
                            ),
                    decreases steps - k,
                {
                    proof {
                        assert forall|ch: int| 0 <= ch < 3 implies {
                            &&& 0 <= gradient_chan(
                                start[ch] as int,
                                end[ch] as int,
                                steps as int,
                                k as int,
                            ) <= 255
                            &&& gradient_chan(
                                start[ch] as int,
                                end[ch] as int,
                                steps as int,
                                k as int,
                            ) == #[trigger] progress[ch] + rgb_steps[ch]
                        } by {
                            lemma_gradient_chan_bounds(
                                start[ch] as int,
                                end[ch] as int,
                                steps as int,
                                k as int,
                            );
                            lemma_gradient_chan_unfold(
                                start[ch] as int,
                                end[ch] as int,
                                steps as int,
                                k as int,
                            );
                        }
                    }
                    progress[0] = progress[0] + rgb_steps[0];
                    progress[1] = progress[1] + rgb_steps[1];
                    progress[2] = progress[2] + rgb_steps[2];
                    result.push(from_color_offset(progress));
                    k = k + 1;
                }
                result.push(end);
                proof {
                    assert forall|i: int, ch: int| 0 <= i <= steps && 0 <= ch < 3 implies
                        #[trigger] result@[i][ch] == gradient_chan(
                        start[ch] as int,
                        end[ch] as int,
                        steps as int,
                        i,
                    ) by {
                        if i == steps {
                            assert(result@[i] == end);
                        }
                    }
                }
                result
            },
        }
    }
}

/// The twelve fully saturated hues of the RGB color wheel, ordered from
/// blue — the band of the fastest escapes — through azure, cyan, spring
/// green, green, chartreuse, yellow, orange, red, rose and magenta to
/// violet.
pub open spec fn default_hues() -> Seq<Color> {
    seq![
        [0u8, 0u8, 255u8],
        [0u8, 127u8, 255u8],
        [0u8, 255u8, 255u8],
        [0u8, 255u8, 127u8],
        [0u8, 255u8, 0u8],
        [127u8, 255u8, 0u8],
        [255u8, 255u8, 0u8],
        [255u8, 127u8, 0u8],
        [255u8, 0u8, 0u8],
        [255u8, 0u8, 127u8],
        [255u8, 0u8, 255u8],
        [127u8, 0u8, 255u8],
    ]
}

/// The color of a stable point when no configuration overrides it: black.
pub fn default_stable_color() -> (c: Color)
    ensures
        c[0] == 0 && c[1] == 0 && c[2] == 0,
{
    [0, 0, 0]
}

impl Default for Coloring {
    /// The palette used when no configuration overrides it: the twelve fully
    /// saturated hues of the RGB color wheel, ordered from blue — the band of
    /// the fastest escapes — through azure, cyan, spring green, green,
    /// chartreuse, yellow, orange, red, rose and magenta to violet.
    fn default() -> (c: Coloring)
        ensures
            c matches Coloring::Palette(v) && v@ == default_hues(),
            c.is_valid(),
    {
        let mut v: Vec<Color> = Vec::new();
        v.push([0, 0, 255]);
        v.push([0, 127, 255]);
        v.push([0, 255, 255]);
        v.push([0, 255, 127]);
        v.push([0, 255, 0]);
        v.push([127, 255, 0]);
        v.push([255, 255, 0]);
        v.push([255, 127, 0]);
        v.push([255, 0, 0]);
        v.push([255, 0, 127]);
        v.push([255, 0, 255]);
        v.push([127, 0, 255]);
        Coloring::Palette(v)
    }
}

} // verus!
