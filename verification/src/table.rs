//! The layout of a radial lookup table.
//!
//! A table of `n` magnification samples covers the radii from zero to the
//! largest radius of the image in `n - 1` equal steps: sample `i` belongs to
//! the radius `i / (n - 1)` of the largest. A radius in between is served by
//! the two samples around it. This module decides which two.

use vstd::prelude::*;
use crate::error::UndistortError;

verus! {

/// The two samples between which a radius is interpolated, for a table of
/// `samples` entries and a radius that lies `step` whole steps from the
/// center.
///
/// The lower one is `step`, held back to the last but one sample, so that the
/// upper one, its successor, is still a sample of the table. A table of a
/// single sample offers that sample twice.
pub open spec fn bracket_of(samples: nat, step: nat) -> (nat, nat) {
    if samples < 2 {
        (0, 0)
    } else if step + 2 <= samples {
        (step, step + 1)
    } else {
        ((samples - 2) as nat, (samples - 1) as nat)
    }
}

/// The number of samples of a lookup table, known to be at least one.
#[derive(Clone, Copy, Debug)]
pub struct TableLayout {
    samples: usize,
}

impl View for TableLayout {
    type V = nat;

    closed spec fn view(&self) -> nat {
        self.samples as nat
    }
}

impl TableLayout {
    #[verifier::type_invariant]
    spec fn nonempty(self) -> bool {
        self.samples >= 1
    }

    /// The layout of a table of `samples` entries. A table without entries
    /// is refused with `Configuration`.
    pub fn new(samples: usize) -> (layout: Result<TableLayout, UndistortError>)
        ensures
            samples == 0 ==> layout == Err::<TableLayout, UndistortError>(
                UndistortError::Configuration,
            ),
            samples > 0 ==> layout is Ok && layout->Ok_0@ == samples,
    {
        if samples == 0 {
            Err(UndistortError::Configuration)
        } else {
            Ok(TableLayout { samples })
        }
    }

    /// The number of samples.
    pub fn samples(&self) -> (samples: usize)
        ensures
            samples == self@,
            samples >= 1,
    {
        proof {
            use_type_invariant(self);
        }
        self.samples
    }

    /// The position of the last sample, the one that serves every radius from
    /// the largest radius of the image on.
    pub fn last_index(&self) -> (index: usize)
        ensures
            index == self@ - 1,
    {
        proof {
            use_type_invariant(self);
        }
        self.samples - 1
    }

    /// The positions of the two samples around a radius that lies `step`
    /// whole steps from the center. Both are positions of the table,
    /// whatever `step` is.
    pub fn bracket(&self, step: usize) -> (around: (usize, usize))
        ensures
            (around.0 as nat, around.1 as nat) == bracket_of(self@, step as nat),
            around.0 <= around.1 < self@,
    {
        proof {
            use_type_invariant(self);
        }
        if self.samples < 2 {
            (0, 0)
        } else if step <= self.samples - 2 {
            (step, step + 1)
        } else {
            (self.samples - 2, self.samples - 1)
        }
    }
}

} // verus!
