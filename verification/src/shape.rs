//! Validation of buffer shapes. A shape is the list of a buffer's axis
//! lengths, outermost first. Every check here runs before the first write to
//! an output buffer.

use vstd::prelude::*;
use crate::error::UndistortError;
use crate::geometry::ImageSize;

verus! {

/// The number of colour channels of every image pixel.
pub const CHANNELS: usize = 3;

/// The number of columns of a point buffer: a row and a column coordinate.
pub const POINT_COLUMNS: usize = 2;

/// The verdict on a pair of buffers that must agree in shape.
pub open spec fn same_shape_verdict(first: Seq<usize>, second: Seq<usize>) -> Result<
    (),
    UndistortError,
> {
    if first == second {
        Ok(())
    } else {
        Err(UndistortError::ShapeMismatch)
    }
}

/// The verdict on the shapes of the two buffers of an image remap, each given
/// as (height, width, channels). A difference between the two is reported
/// first; only then are they held against the configured size and the fixed
/// channel count.
pub open spec fn image_shape_verdict(
    size: ImageSize,
    input: (nat, nat, nat),
    output: (nat, nat, nat),
) -> Result<(), UndistortError> {
    if input != output {
        Err(UndistortError::ShapeMismatch)
    } else if input.0 != size.height || input.1 != size.width || input.2 != CHANNELS {
        Err(UndistortError::ConfigurationMismatch)
    } else {
        Ok(())
    }
}

/// The verdict on the shapes of the two buffers of a point remap: the number
/// of points they hold, where both have the same shape and that shape is
/// (points, 2).
pub open spec fn points_shape_verdict(input: Seq<usize>, output: Seq<usize>) -> Result<
    usize,
    UndistortError,
> {
    if input != output {
        Err(UndistortError::ShapeMismatch)
    } else if input.len() != 2 || input[1] != POINT_COLUMNS {
        Err(UndistortError::ColumnCount)
    } else {
        Ok(input[0])
    }
}

/// Accepts two shapes exactly when they are equal, axis by axis.
pub fn check_same_shape(first: &[usize], second: &[usize]) -> (verdict: Result<
    (),
    UndistortError,
>)
    ensures
        verdict == same_shape_verdict(first@, second@),
{
    if first.len() != second.len() {
        return Err(UndistortError::ShapeMismatch);
    }
    let mut axis: usize = 0;
    while axis < first.len()
        invariant
            axis <= first.len(),
            first.len() == second.len(),
            forall|i: int| 0 <= i < axis ==> first@[i] == second@[i],
        decreases first.len() - axis,
    {
        if first[axis] != second[axis] {
            return Err(UndistortError::ShapeMismatch);
        }
        axis += 1;
    }
    assert(first@ =~= second@);
    Ok(())
}

/// Validates the shapes of the input and output buffers of an image remap
/// configured for `size`.
pub fn check_image_shape(
    size: &ImageSize,
    input: (usize, usize, usize),
    output: (usize, usize, usize),
) -> (verdict: Result<(), UndistortError>)
    ensures
        verdict == image_shape_verdict(
            *size,
            (input.0 as nat, input.1 as nat, input.2 as nat),
            (output.0 as nat, output.1 as nat, output.2 as nat),
        ),
{
    if input.0 != output.0 || input.1 != output.1 || input.2 != output.2 {
        Err(UndistortError::ShapeMismatch)
    } else if input.0 != size.height || input.1 != size.width || input.2 != CHANNELS {
        Err(UndistortError::ConfigurationMismatch)
    } else {
        Ok(())
    }
}

/// Validates the shapes of the input and output buffers of a point remap and
/// returns the number of points to transform.
pub fn check_points_shape(input: &[usize], output: &[usize]) -> (verdict: Result<
    usize,
    UndistortError,
>)
    ensures
        verdict == points_shape_verdict(input@, output@),
{
    match check_same_shape(input, output) {
        Err(error) => Err(error),
        Ok(()) => {
            if input.len() != 2 || input[1] != POINT_COLUMNS {
                Err(UndistortError::ColumnCount)
            } else {
                Ok(input[0])
            }
        },
    }
}

} // verus!
