//! Remap: requires exactly one input; built with an ordered list of at
//! least two `(value, threshold)` steps.  The input's average R/G/B
//! intensity picks a bracketing pair of steps; outside the covered range the
//! first or last step's value is returned unmodified, inside it the output
//! interpolates linearly between the bracketing steps' canonical pixels.
use vstd::prelude::*;

use crate::coordinate::Coordinate;
use crate::input_output_value::{spec_to_pixel, InputOutputValue};
use crate::node::{NamedValues, NameView, NodeError, NodeErrorView, SpaceInfo};
use crate::scalar::{spec_channel_pct, Scalar, SCALE};

verus! {

#[derive(Debug)]
pub struct Remap {
    steps: Vec<(InputOutputValue, Scalar)>,
    pub space_info: SpaceInfo,
}

/// The average R/G/B intensity of a canonical pixel, as fixed-point bits.
pub open spec fn spec_avg_intensity(p: crate::pixel::Pixel) -> int {
    (spec_channel_pct(p.r as int) + spec_channel_pct(p.g as int) + spec_channel_pct(p.b as int))
        / 3
}

/// The bracket scan: walks the steps in order keeping the last step whose
/// threshold lies below the intensity as the lower bound, and stops at the
/// first that does not, taking it as the upper bound.
pub open spec fn spec_bracket(
    steps: Seq<(InputOutputValue, Scalar)>,
    avg: int,
    i: int,
    first: (InputOutputValue, Scalar),
    last: (InputOutputValue, Scalar),
) -> ((InputOutputValue, Scalar), (InputOutputValue, Scalar))
    decreases steps.len() - i,
{
    if i < 0 || i >= steps.len() {
        (first, last)
    } else if steps[i].1.bits < avg {
        spec_bracket(steps, avg, i + 1, steps[i], last)
    } else {
        (first, steps[i])
    }
}

/// One interpolated channel between the bracketing pixels' percentages,
/// truncated to a byte.
pub open spec fn spec_interp_channel(c1: int, c2: int, avg: int, lo: int, hi: int) -> int {
    let p = ((avg - lo) * SCALE as int) / (hi - lo);
    let num = spec_channel_pct(c1) * (SCALE - p) + spec_channel_pct(c2) * p;
    (num * 255) / (SCALE as int * SCALE as int)
}

/// What remapping yields: with exactly one input, the clamped or
/// interpolated step value at the input's average intensity; otherwise the
/// input-arity configuration error.
pub open spec fn spec_remap_generate(
    steps: Seq<(InputOutputValue, Scalar)>,
    inputs: Map<NameView, InputOutputValue>,
) -> Result<InputOutputValue, NodeErrorView> {
    if inputs.dom().len() != 1 {
        Err(NodeErrorView::WrongInputCount(1, inputs.dom().len() as int))
    } else {
        let avg = spec_avg_intensity(spec_to_pixel(inputs[inputs.dom().choose()]));
        let fl = if steps.len() == 2 {
            (steps[0], steps[1])
        } else {
            spec_bracket(steps, avg, 0, steps[0], steps[steps.len() - 1])
        };
        let first = fl.0;
        let last = fl.1;
        if avg < first.1.bits {
            Ok(first.0)
        } else if avg >= last.1.bits {
            Ok(last.0)
        } else {
            let p1 = spec_to_pixel(first.0);
            let p2 = spec_to_pixel(last.0);
            let lo = first.1.bits as int;
            let hi = last.1.bits as int;
            Ok(
                InputOutputValue::Pixel(
                    crate::pixel::Pixel {
                        r: spec_interp_channel(p1.r as int, p2.r as int, avg, lo, hi) as u8,
                        g: spec_interp_channel(p1.g as int, p2.g as int, avg, lo, hi) as u8,
                        b: spec_interp_channel(p1.b as int, p2.b as int, avg, lo, hi) as u8,
                        a: spec_interp_channel(p1.a as int, p2.a as int, avg, lo, hi) as u8,
                    },
                ),
            )
        }
    }
}

/// One interpolated channel, executably.
fn interp_channel(c1: u8, c2: u8, avg: i64, lo: i64, hi: i64) -> (r: u8)
    requires
        0 <= avg,
        lo <= avg < hi,
    ensures
        r == spec_interp_channel(c1 as int, c2 as int, avg as int, lo as int, hi as int),
{
    let d1: i128 = avg as i128 - lo as i128;
    let d2: i128 = hi as i128 - lo as i128;
    let p: u128 = ((d1 as u128) * (SCALE as u128)) / (d2 as u128);
    proof {
        assert((d1 as int * SCALE) / (d2 as int) < SCALE) by (nonlinear_arith)
            requires
                0 <= d1 < d2,
                SCALE == 0x1_0000_0000,
        ;
    }
    let v1: u128 = (((c1 as u128) * (SCALE as u128)) / 255) as u128;
    let v2: u128 = (((c2 as u128) * (SCALE as u128)) / 255) as u128;
    proof {
        assert((c1 as int * SCALE) / 255 <= SCALE && (c2 as int * SCALE) / 255 <= SCALE)
            by (nonlinear_arith)
            requires
                0 <= c1 <= 255,
                0 <= c2 <= 255,
                SCALE == 0x1_0000_0000,
        ;
    }
    proof {
        assert(v1 as int * (SCALE - p as int) + v2 as int * (p as int) <= SCALE as int * SCALE
            && v1 as int * (SCALE - p as int) >= 0 && v2 as int * (p as int) >= 0)
            by (nonlinear_arith)
            requires
                0 <= v1 <= SCALE,
                0 <= v2 <= SCALE,
                0 <= p <= SCALE,
        ;
    }
    let num: u128 = v1 * ((SCALE as u128) - p) + v2 * p;
    proof {
        assert((num as int * 255) / (SCALE as int * SCALE as int) <= 255) by (nonlinear_arith)
            requires
                0 <= num <= SCALE as int * SCALE as int,
                SCALE == 0x1_0000_0000,
        ;
    }
    ((num * 255) / ((SCALE as u128) * (SCALE as u128))) as u8
}

impl Remap {
    /// Every remap node carries at least two steps.
    #[verifier::type_invariant]
    pub closed spec fn wf(&self) -> bool {
        self.steps@.len() >= 2
    }

    pub closed spec fn spec_steps(&self) -> Seq<(InputOutputValue, Scalar)> {
        self.steps@
    }

    pub fn new(steps: Vec<(InputOutputValue, Scalar)>) -> (r: Remap)
        requires
            steps@.len() >= 2,
        ensures
            r.spec_steps() == steps@,
    {
        Remap { steps, space_info: SpaceInfo::new() }
    }

    /// Remaps the single input's average intensity through the steps.
    pub fn generate(
        &self,
        _position: &Coordinate,
        _size: (u32, u32),
        input: &NamedValues,
    ) -> (r: Result<InputOutputValue, NodeError>)
        requires
            input.wf(),
        ensures
            crate::node::result_view(r) == spec_remap_generate(self.spec_steps(), input@),
    {
        proof {
            use_type_invariant(self);
        }
        let n = input.len();
        match input.single() {
            Some(vin) => {
                let rp = vin.r_percentage();
                let gp = vin.g_percentage();
                let bp = vin.b_percentage();
                let avg: i64 = ((rp.bits as u128 + gp.bits as u128 + bp.bits as u128) / 3) as i64;
                let mut first: (InputOutputValue, Scalar) = self.steps[0];
                let mut last: (InputOutputValue, Scalar) = self.steps[self.steps.len() - 1];
                if self.steps.len() != 2 {
                    let ghost steps = self.steps@;
                    let mut i: usize = 0;
                    let mut broke: bool = false;
                    while i < self.steps.len() && !broke
                        invariant
                            steps == self.steps@,
                            steps.len() >= 2,
                            0 <= i <= steps.len(),
                            !broke ==> spec_bracket(steps, avg as int, 0, steps[0], steps[steps.len() - 1])
                                == spec_bracket(steps, avg as int, i as int, first, last),
                            broke ==> spec_bracket(steps, avg as int, 0, steps[0], steps[steps.len() - 1])
                                == (first, last),
                        decreases steps.len() - i + (if broke { 0int } else { 1int }),
                    {
                        let step = self.steps[i];
                        if step.1.bits < avg {
                            first = step;
                            i = i + 1;
                        } else {
                            last = step;
                            broke = true;
                        }
                    }
                }
                if avg < first.1.bits {
                    Ok(first.0)
                } else if avg >= last.1.bits {
                    Ok(last.0)
                } else {
                    let p1 = first.0.to_common_ground();
                    let p2 = last.0.to_common_ground();
                    Ok(
                        InputOutputValue::Pixel(
                            crate::pixel::Pixel {
                                r: interp_channel(p1.r, p2.r, avg, first.1.bits, last.1.bits),
                                g: interp_channel(p1.g, p2.g, avg, first.1.bits, last.1.bits),
                                b: interp_channel(p1.b, p2.b, avg, first.1.bits, last.1.bits),
                                a: interp_channel(p1.a, p2.a, avg, first.1.bits, last.1.bits),
                            },
                        ),
                    )
                }
            },
            None => Err(NodeError::WrongInputCount { expected: 1, got: n }),
        }
    }

    /// The presentation metadata.
    pub fn space_info(&self) -> &SpaceInfo {
        &self.space_info
    }


    /// Moves the node on the editor canvas; evaluation data is unaffected.
    pub fn set_position(&mut self, x: i64, y: i64)
        ensures
            final(self).spec_steps() == old(self).spec_steps(),
    {
        proof {
            use_type_invariant(&*self);
        }
        self.space_info.position = (x, y);
    }

    /// Renames the node's editor label; evaluation data is unaffected.
    pub fn set_name(&mut self, name: String)
        ensures
            final(self).spec_steps() == old(self).spec_steps(),
    {
        proof {
            use_type_invariant(&*self);
        }
        self.space_info.name = name;
    }
}

} // verus!
