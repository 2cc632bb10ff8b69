//! Images as three-dimensional byte arrays of `ndarray`, indexed by row,
//! column and channel.
//!
//! Verus cannot look inside such an array. What the verified code needs of
//! one is given two names, its extent and its cells, and the three array
//! operations the remap uses are stated over those names. These statements
//! are taken from `ndarray`'s documentation and are not proved here.

use vstd::prelude::*;

verus! {

#[verifier::external_type_specification]
#[verifier::external_body]
#[verifier::reject_recursive_types(A)]
#[verifier::reject_recursive_types(D)]
pub struct ExArrayRef<A, D>(ndarray::ArrayRef<A, D>);

#[verifier::external_type_specification]
#[verifier::external_body]
#[verifier::reject_recursive_types(I)]
pub struct ExDim<I: ?Sized>(ndarray::Dim<I>);

/// The axis lengths of an image: (height, width, channels).
pub uninterp spec fn image_extent(image: &ndarray::ArrayRef3<u8>) -> (nat, nat, nat);

/// The bytes of an image, by (row, column, channel).
pub uninterp spec fn image_cells(image: &ndarray::ArrayRef3<u8>) -> Map<(int, int, int), u8>;

/// Whether `cells` holds a byte at each index within `extent` and nowhere
/// else.
pub open spec fn fills(cells: Map<(int, int, int), u8>, extent: (nat, nat, nat)) -> bool {
    forall|at: (int, int, int)| #[trigger]
        cells.dom().contains(at) <==> 0 <= at.0 < extent.0 && 0 <= at.1 < extent.1 && 0 <= at.2
            < extent.2
}

/// Calls `ndarray::LayoutRef::dim`, which returns the array's shape as a tuple
/// of its three axis lengths. An array has an element at exactly the indices
/// that lie within that shape.
#[verifier::external_body]
pub(crate) fn extent(image: &ndarray::ArrayRef3<u8>) -> (lengths: (usize, usize, usize))
    ensures
        (lengths.0 as nat, lengths.1 as nat, lengths.2 as nat) == image_extent(image),
        fills(image_cells(image), (lengths.0 as nat, lengths.1 as nat, lengths.2 as nat)),
{
    image.dim()
}

/// Calls `Index::index` of `ndarray::ArrayRef`, which returns the element at
/// the given index and panics on an index outside the array: the `requires`
/// keeps every index within its axis.
#[verifier::external_body]
pub(crate) fn read_cell(
    image: &ndarray::ArrayRef3<u8>,
    row: usize,
    col: usize,
    channel: usize,
) -> (value: u8)
    requires
        row < image_extent(image).0,
        col < image_extent(image).1,
        channel < image_extent(image).2,
    ensures
        value == image_cells(image)[(row as int, col as int, channel as int)],
{
    image[[row, col, channel]]
}

/// Calls `IndexMut::index_mut` of `ndarray::ArrayRef` and assigns through the
/// reference it returns: the element at the given index becomes `value`, and
/// neither the shape nor any other element changes, since in an array that
/// can be written to no two indices name the same element. The call panics
/// on an index outside the array: the `requires` keeps every index within
/// its axis.
#[verifier::external_body]
pub(crate) fn write_cell(
    image: &mut ndarray::ArrayRef3<u8>,
    row: usize,
    col: usize,
    channel: usize,
    value: u8,
)
    requires
        row < image_extent(old(image)).0,
        col < image_extent(old(image)).1,
        channel < image_extent(old(image)).2,
    ensures
        image_extent(final(image)) == image_extent(old(image)),
        image_cells(final(image)) == image_cells(old(image)).insert(
            (row as int, col as int, channel as int),
            value,
        ),
{
    image[[row, col, channel]] = value;
}

} // verus!
