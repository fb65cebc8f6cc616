//! The painter's configuration: destination size, stroke shape and decay,
//! alpha schedule, and edge-count range. Fractional parameters are carried
//! in fixed point with sixteen fractional bits.

use vstd::prelude::*;
use crate::fixed::{MAX_DIM, MAX_JITTER};

verus! {

/// The per-run configuration of the painter.
///
/// `stroke_ratio`, `stroke_reduction` and `stroke_inversion_threshold` are
/// fractions of one whole unit (65536); `stroke_jitter` is in fixed-point
/// destination pixels; `initial_alpha` and `alpha_increase` are fixed-point
/// channel values on the 0-255 scale.
#[derive(Clone, Copy, PartialEq, Eq, Structural, Debug)]
pub struct UserParams {
    pub destination_width: u32,
    pub destination_height: u32,
    pub stroke_ratio: u32,
    pub stroke_reduction: u32,
    pub stroke_jitter: u64,
    pub stroke_inversion_threshold: u32,
    pub initial_alpha: u64,
    pub alpha_increase: u64,
    pub min_edge_count: u32,
    pub max_edge_count: u32,
}

impl UserParams {
    /// The field domains the painter relies on: the fractions stay within
    /// one unit (the ratio strictly positive, the reduction strictly below
    /// one), and sizes and jitter stay under the machine caps.
    pub open spec fn wf(self) -> bool {
        &&& 0 < self.stroke_ratio <= 65536
        &&& self.stroke_reduction < 65536
        &&& self.stroke_jitter <= MAX_JITTER
        &&& self.stroke_inversion_threshold <= 65536
        &&& self.destination_width <= MAX_DIM
        &&& self.destination_height <= MAX_DIM
    }

    /// The configuration checks made at painter construction: a nonempty
    /// destination and an ordered edge-count range starting at three.
    pub open spec fn config_ok(self) -> bool {
        &&& self.destination_width > 0
        &&& self.destination_height > 0
        &&& self.min_edge_count >= 3
        &&& self.min_edge_count <= self.max_edge_count
    }
}

impl Default for UserParams {
    /// The documented defaults: a 3840 by 2160 canvas, stroke ratio 0.75,
    /// reduction 0.002, jitter of a tenth of the width, inversion threshold
    /// 0.05, alpha 0.1 rising by 0.006 per cycle, and three to four edges
    /// (the fractions truncated to fixed point).
    fn default() -> (r: UserParams)
        ensures
            r == (UserParams {
                destination_width: 3840,
                destination_height: 2160,
                stroke_ratio: 49152,
                stroke_reduction: 131,
                stroke_jitter: 25165824,
                stroke_inversion_threshold: 3276,
                initial_alpha: 6553,
                alpha_increase: 393,
                min_edge_count: 3,
                max_edge_count: 4,
            }),
            r.wf(),
            r.config_ok(),
    {
        UserParams {
            destination_width: 3840,
            destination_height: 2160,
            stroke_ratio: 49152,
            stroke_reduction: 131,
            stroke_jitter: 25165824,
            stroke_inversion_threshold: 3276,
            initial_alpha: 6553,
            alpha_increase: 393,
            min_edge_count: 3,
            max_edge_count: 4,
        }
    }
}

/// Why constructing a painter was refused.
#[derive(Clone, Copy, PartialEq, Eq, Structural, Debug)]
pub enum ConfigError {
    /// The destination width or height is zero.
    EmptyDestination,
    /// The smallest allowed edge count is below three.
    EdgeCountBelowThree,
    /// The smallest allowed edge count exceeds the largest.
    EdgeCountsOutOfOrder,
}

} // verus!
