//! The dense image remap: every destination pixel takes its colour from the
//! source pixel that a remap table names for it, nearest neighbour, with no
//! blending.

use vstd::prelude::*;
use crate::error::UndistortError;
use crate::geometry::{is_pixel_visible, ImageSize, SourcePixel};
use crate::image::{extent, fills, image_cells, image_extent, read_cell, write_cell};
use crate::shape::{check_image_shape, image_shape_verdict, CHANNELS};

verus! {

/// What a remap table is: an image size and, for each pixel of an image of
/// that size, the source pixel. The sources stand row after row.
pub struct RemapModel {
    pub size: ImageSize,
    pub sources: Seq<SourcePixel>,
}

impl RemapModel {
    /// The source of the destination pixel `(row, col)`.
    pub open spec fn source_of(self, row: int, col: int) -> SourcePixel {
        self.sources[row * self.size.width + col]
    }

    /// Whether the source of the destination pixel `(row, col)` lies inside
    /// the image.
    pub open spec fn source_visible(self, row: int, col: int) -> bool {
        self.size.contains(self.source_of(row, col).row as int, self.source_of(row, col).col as int)
    }

    /// The byte that the cell `(row, col, channel)` of the output holds after
    /// a remap of `input`, where `before` is what the output held before it:
    /// the input's byte at the source pixel where that pixel is visible, and
    /// the byte that was there otherwise.
    pub open spec fn remapped_cell(
        self,
        input: Map<(int, int, int), u8>,
        before: Map<(int, int, int), u8>,
        row: int,
        col: int,
        channel: int,
    ) -> u8 {
        if self.size.contains(row, col) && self.source_visible(row, col) {
            input[(self.source_of(row, col).row as int, self.source_of(row, col).col as int, channel)]
        } else {
            before[(row, col, channel)]
        }
    }

    /// The cells of the output after a remap of `input`, where `before` is
    /// what the output held before it.
    pub open spec fn remapped(
        self,
        input: Map<(int, int, int), u8>,
        before: Map<(int, int, int), u8>,
    ) -> Map<(int, int, int), u8> {
        Map::new(
            |at: (int, int, int)| before.dom().contains(at),
            |at: (int, int, int)| self.remapped_cell(input, before, at.0, at.1, at.2),
        )
    }

    /// Whether every pixel is its own source.
    pub open spec fn is_identity(self) -> bool {
        forall|row: int, col: int|
            self.size.contains(row, col) ==> {
                &&& (#[trigger] self.source_of(row, col)).row == row
                &&& self.source_of(row, col).col == col
            }
    }
}

/// A remap table for images of one size. It holds exactly one source per
/// pixel.
#[derive(Debug)]
pub struct RemapTable {
    size: ImageSize,
    sources: Vec<SourcePixel>,
}

impl View for RemapTable {
    type V = RemapModel;

    closed spec fn view(&self) -> RemapModel {
        RemapModel { size: self.size, sources: self.sources@ }
    }
}

impl RemapTable {
    #[verifier::type_invariant]
    spec fn complete(self) -> bool {
        self.sources.len() == self.size.height * self.size.width
    }

    /// Makes a table from the sources of all pixels, row after row. There is
    /// a table exactly when `sources` holds one entry per pixel of `size`.
    pub fn new(size: ImageSize, sources: Vec<SourcePixel>) -> (table: Option<RemapTable>)
        ensures
            table is Some <==> sources@.len() == size.area(),
            table matches Some(t) ==> t@.size == size && t@.sources == sources@,
    {
        let count = sources.len();
        match size.height.checked_mul(size.width) {
            None => None,
            Some(area) => {
                if count == area {
                    Some(RemapTable { size, sources })
                } else {
                    None
                }
            },
        }
    }

    /// Makes a table by asking `source_of` for the source of each pixel of
    /// `size`, row after row. There is a table exactly when the number of
    /// pixels fits the machine.
    pub fn from_fn<F: Fn(usize, usize) -> SourcePixel>(size: ImageSize, source_of: F) -> (table:
        Option<RemapTable>)
        requires
            forall|row: usize, col: usize|
                size.contains(row as int, col as int) ==> #[trigger] call_requires(
                    source_of,
                    (row, col),
                ),
        ensures
            table is Some <==> size.area() <= usize::MAX,
            table matches Some(t) ==> {
                &&& t@.size == size
                &&& t@.sources.len() == size.area()
                &&& forall|row: usize, col: usize|
                    size.contains(row as int, col as int) ==> call_ensures(
                        source_of,
                        (row, col),
                        #[trigger] t@.source_of(row as int, col as int),
                    )
            },
    {
        if size.height.checked_mul(size.width).is_none() {
            return None;
        }
        let height = size.height;
        let width = size.width;
        let mut sources: Vec<SourcePixel> = Vec::new();
        let mut row: usize = 0;
        while row < height
            invariant
                row <= height,
                height == size.height,
                width == size.width,
                height * width <= usize::MAX,
                sources.len() == row * width,
                forall|r: usize, c: usize|
                    size.contains(r as int, c as int) ==> #[trigger] call_requires(
                        source_of,
                        (r, c),
                    ),
                forall|r: usize, c: usize|
                    r < row && c < width ==> call_ensures(
                        source_of,
                        (r, c),
                        #[trigger] (RemapModel { size, sources: sources@ }).source_of(
                            r as int,
                            c as int,
                        ),
                    ),
            decreases height - row,
        {
            let mut col: usize = 0;
            while col < width
                invariant
                    row < height,
                    col <= width,
                    height == size.height,
                    width == size.width,
                    height * width <= usize::MAX,
                    sources.len() == row * width + col,
                    forall|r: usize, c: usize|
                        size.contains(r as int, c as int) ==> #[trigger] call_requires(
                        source_of,
                        (r, c),
                    ),
                    forall|r: usize, c: usize|
                        (r < row || (r == row && c < col)) && c < width ==> call_ensures(
                            source_of,
                            (r, c),
                            #[trigger] (RemapModel { size, sources: sources@ }).source_of(
                                r as int,
                                c as int,
                            ),
                        ),
                decreases width - col,
            {
                let source = source_of(row, col);
                let ghost earlier = sources@;
                sources.push(source);
                proof {
                    lemma_pixel_index(height as int, width as int, row as int, col as int);
                    assert forall|r: usize, c: usize|
                        (r < row || (r == row && c < col + 1)) && c < width implies call_ensures(
                        source_of,
                        (r, c),
                        #[trigger] (RemapModel { size, sources: sources@ }).source_of(
                            r as int,
                            c as int,
                        ),
                    ) by {
                        if r == row && c == col {
                        } else {
                            lemma_pixel_order(width as int, r as int, c as int, row as int, col as int);
                            assert((RemapModel { size, sources: earlier }).source_of(
                                r as int,
                                c as int,
                            ) == sources@[r * width + c]);
                        }
                    }
                }
                col += 1;
            }
            assert(row * width + width == (row + 1) * width) by (nonlinear_arith);
            row += 1;
        }
        Some(RemapTable { size, sources })
    }

    /// The size of the images this table remaps.
    pub fn size(&self) -> (size: ImageSize)
        ensures
            size == self@.size,
            self@.sources.len() == size.area(),
    {
        proof {
            use_type_invariant(self);
        }
        self.size
    }

    /// The source of the destination pixel `(row, col)`, where the image has
    /// such a pixel.
    pub fn source(&self, row: usize, col: usize) -> (source: Option<SourcePixel>)
        ensures
            source == (if self@.size.contains(row as int, col as int) {
                Some(self@.source_of(row as int, col as int))
            } else {
                None
            }),
    {
        proof {
            use_type_invariant(self);
        }
        if row < self.size.height && col < self.size.width {
            let width = self.size.width;
            proof {
                lemma_pixel_index(self.size.height as int, width as int, row as int, col as int);
            }
            Some(self.sources[row * width + col])
        } else {
            None
        }
    }

    /// Remaps `input` into `output`.
    ///
    /// Both images must have the shape (height, width, 3) of this table's
    /// size. Where they differ from each other the call fails with
    /// `ShapeMismatch`, where they agree but not with the table, with
    /// `ConfigurationMismatch`; `output` is then left as it was.
    ///
    /// Otherwise each destination pixel whose source is visible receives the
    /// three bytes of that source pixel of `input`, and every other pixel of
    /// `output` keeps the bytes it had.
    pub fn undistort_image(
        &self,
        input: &ndarray::ArrayRef3<u8>,
        output: &mut ndarray::ArrayRef3<u8>,
    ) -> (outcome: Result<(), UndistortError>)
        ensures
            outcome == image_shape_verdict(
                self@.size,
                image_extent(input),
                image_extent(old(output)),
            ),
            image_extent(final(output)) == image_extent(old(output)),
            image_cells(final(output)) == (if outcome is Ok {
                self@.remapped(image_cells(input), image_cells(old(output)))
            } else {
                image_cells(old(output))
            }),
    {
        proof {
            use_type_invariant(self);
        }
        let input_extent = extent(input);
        let output_extent = extent(output);
        match check_image_shape(&self.size, input_extent, output_extent) {
            Err(error) => {
                return Err(error);
            },
            Ok(()) => {},
        }
        let height = self.size.height;
        let width = self.size.width;
        let ghost before = image_cells(output);
        let ghost shape = (height as nat, width as nat, CHANNELS as nat);
        let mut index: usize = 0;
        let mut row: usize = 0;
        while row < height
            invariant
                row <= height,
                index == row * width,
                height == self.size.height,
                width == self.size.width,
                self.sources.len() == height * width,
                shape == (height as nat, width as nat, CHANNELS as nat),
                image_extent(input) == shape,
                image_extent(output) == shape,
                fills(image_cells(input), shape),
                fills(before, shape),
                image_cells(output).dom() == before.dom(),
                forall|at: (int, int, int)|
                    before.dom().contains(at) ==> #[trigger] image_cells(output)[at] == (if at.0
                        < row {
                        self@.remapped_cell(image_cells(input), before, at.0, at.1, at.2)
                    } else {
                        before[at]
                    }),
            decreases height - row,
        {
            let mut col: usize = 0;
            while col < width
                invariant
                    row < height,
                    col <= width,
                    index == row * width + col,
                    height == self.size.height,
                    width == self.size.width,
                    self.sources.len() == height * width,
                    shape == (height as nat, width as nat, CHANNELS as nat),
                    image_extent(input) == shape,
                    image_extent(output) == shape,
                    fills(image_cells(input), shape),
                    fills(before, shape),
                    image_cells(output).dom() == before.dom(),
                    forall|at: (int, int, int)|
                        before.dom().contains(at) ==> #[trigger] image_cells(output)[at] == (if at.0
                            < row || (at.0 == row && at.1 < col) {
                            self@.remapped_cell(image_cells(input), before, at.0, at.1, at.2)
                        } else {
                            before[at]
                        }),
                decreases width - col,
            {
                proof {
                    lemma_pixel_index(height as int, width as int, row as int, col as int);
                }
                let source = self.sources[index];
                if is_pixel_visible(&self.size, source.row, source.col) {
                    copy_pixel(input, output, source.row as usize, source.col as usize, row, col);
                }
                col += 1;
                index += 1;
            }
            assert(row * width + width == (row + 1) * width) by (nonlinear_arith);
            row += 1;
        }
        assert(image_cells(output) =~= self@.remapped(image_cells(input), before));
        Ok(())
    }
}

/// Copies the three bytes of the pixel `(from_row, from_col)` of `input` to
/// the pixel `(row, col)` of `output`.
fn copy_pixel(
    input: &ndarray::ArrayRef3<u8>,
    output: &mut ndarray::ArrayRef3<u8>,
    from_row: usize,
    from_col: usize,
    row: usize,
    col: usize,
)
    requires
        image_extent(input) == image_extent(old(output)),
        image_extent(input).2 == CHANNELS,
        fills(image_cells(input), image_extent(input)),
        fills(image_cells(old(output)), image_extent(old(output))),
        from_row < image_extent(input).0,
        from_col < image_extent(input).1,
        row < image_extent(input).0,
        col < image_extent(input).1,
    ensures
        image_extent(final(output)) == image_extent(old(output)),
        image_cells(final(output)).dom() == image_cells(old(output)).dom(),
        forall|at: (int, int, int)|
            image_cells(old(output)).dom().contains(at) ==> #[trigger] image_cells(
                final(output),
            )[at] == (if at.0 == row && at.1 == col {
                image_cells(input)[(from_row as int, from_col as int, at.2)]
            } else {
                image_cells(old(output))[at]
            }),
{
    let mut channel: usize = 0;
    while channel < CHANNELS
        invariant
            channel <= CHANNELS,
            image_extent(input) == image_extent(old(output)),
            image_extent(output) == image_extent(old(output)),
            image_extent(input).2 == CHANNELS,
            fills(image_cells(input), image_extent(input)),
            fills(image_cells(old(output)), image_extent(old(output))),
            from_row < image_extent(input).0,
            from_col < image_extent(input).1,
            row < image_extent(input).0,
            col < image_extent(input).1,
            image_cells(output).dom() == image_cells(old(output)).dom(),
            forall|at: (int, int, int)|
                image_cells(old(output)).dom().contains(at) ==> #[trigger] image_cells(output)[at]
                    == (if at.0 == row && at.1 == col && at.2 < channel {
                    image_cells(input)[(from_row as int, from_col as int, at.2)]
                } else {
                    image_cells(old(output))[at]
                }),
        decreases CHANNELS - channel,
    {
        let value = read_cell(input, from_row, from_col, channel);
        let ghost cells = image_cells(output);
        write_cell(output, row, col, channel, value);
        assert(cells.dom().contains((row as int, col as int, channel as int)));
        assert(image_cells(output).dom() =~= cells.dom());
        channel += 1;
    }
}

/// A destination pixel whose source lies outside the image keeps the bytes it
/// had before the remap.
pub proof fn lemma_hidden_source_keeps_pixel(
    table: RemapModel,
    input: Map<(int, int, int), u8>,
    before: Map<(int, int, int), u8>,
    row: int,
    col: int,
    channel: int,
)
    requires
        before.dom().contains((row, col, channel)),
        !table.source_visible(row, col),
    ensures
        table.remapped(input, before)[(row, col, channel)] == before[(row, col, channel)],
{
}

/// A destination pixel whose source lies inside the image receives the bytes
/// of that pixel of the input.
pub proof fn lemma_visible_source_is_copied(
    table: RemapModel,
    input: Map<(int, int, int), u8>,
    before: Map<(int, int, int), u8>,
    row: int,
    col: int,
    channel: int,
)
    requires
        before.dom().contains((row, col, channel)),
        table.size.contains(row, col),
        table.source_visible(row, col),
    ensures
        table.remapped(input, before)[(row, col, channel)] == input[(
            table.source_of(row, col).row as int,
            table.source_of(row, col).col as int,
            channel,
        )],
{
}

/// With a table in which every pixel is its own source, the remap of an
/// input into an output of the table's shape yields the input, whatever the
/// output held before.
pub proof fn lemma_identity_table_copies_input(
    table: RemapModel,
    input: Map<(int, int, int), u8>,
    before: Map<(int, int, int), u8>,
)
    requires
        table.is_identity(),
        fills(input, (table.size.height as nat, table.size.width as nat, CHANNELS as nat)),
        fills(before, (table.size.height as nat, table.size.width as nat, CHANNELS as nat)),
    ensures
        table.remapped(input, before) == input,
{
    assert forall|at: (int, int, int)| #[trigger] before.dom().contains(at) implies table.remapped(
        input,
        before,
    )[at] == input[at] by {
        assert(table.size.contains(at.0, at.1));
        assert(table.source_of(at.0, at.1).row == at.0);
        assert((at.0, at.1, at.2) == at);
    }
    assert(table.remapped(input, before) =~= input);
}

/// Row after row, an earlier pixel stands at an earlier position.
proof fn lemma_pixel_order(width: int, row: int, col: int, later_row: int, later_col: int)
    requires
        0 <= row,
        0 <= col < width,
        0 <= later_col,
        row < later_row || (row == later_row && col < later_col),
    ensures
        0 <= row * width + col < later_row * width + later_col,
{
    assert(0 <= row * width + col < later_row * width + later_col) by (nonlinear_arith)
        requires
            0 <= row,
            0 <= col < width,
            0 <= later_col,
            row < later_row || (row == later_row && col < later_col),
    ;
}

/// The position of the pixel `(row, col)` in a row-after-row list of the
/// pixels of an image lies within that list.
proof fn lemma_pixel_index(height: int, width: int, row: int, col: int)
    requires
        0 <= row < height,
        0 <= col < width,
    ensures
        0 <= row * width,
        row * width + col < height * width,
{
    assert(0 <= row * width && row * width + col < height * width) by (nonlinear_arith)
        requires
            0 <= row < height,
            0 <= col < width,
    ;
}

} // verus!
