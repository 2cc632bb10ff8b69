use ndarray::Array3;
use radial_undistort::geometry::{ImageSize, SourcePixel};
use radial_undistort::remap::RemapTable;
use radial_undistort::table::TableLayout;

const MARKER: u8 = 0xA5;

/// A lens as a caller of the library sets it up: the radial transform in
/// floating point, with the library deciding which samples serve a radius.
struct Lens {
    size: ImageSize,
    center: (f64, f64),
    table: Vec<f64>,
    layout: TableLayout,
    max_radius: f64,
}

impl Lens {
    fn new(size: ImageSize, center: (f64, f64), table: Vec<f64>) -> Lens {
        let layout = TableLayout::new(table.len()).unwrap();
        let row_reach = center.0.max(size.height as f64 - center.0);
        let col_reach = center.1.max(size.width as f64 - center.1);
        let max_radius = (row_reach * row_reach + col_reach * col_reach).sqrt();
        Lens { size, center, table, layout, max_radius }
    }

    fn magnification(&self, radius: f64) -> f64 {
        if radius < self.max_radius {
            let steps = radius / self.max_radius * self.layout.last_index() as f64;
            let (lower, upper) = self.layout.bracket(steps as usize);
            let part = steps - lower as f64;
            (1.0 - part) * self.table[lower] + part * self.table[upper]
        } else {
            self.table[self.layout.last_index()]
        }
    }

    fn distort(&self, row: f64, col: f64) -> (f64, f64) {
        let (v_row, v_col) = (row - self.center.0, col - self.center.1);
        let scale = 1.0 + self.magnification((v_row * v_row + v_col * v_col).sqrt());
        (v_row * scale + self.center.0, v_col * scale + self.center.1)
    }

    fn remap_table(&self) -> RemapTable {
        RemapTable::from_fn(self.size, |row, col| {
            let (source_row, source_col) = self.distort(row as f64, col as f64);
            SourcePixel { row: source_row as i64, col: source_col as i64 }
        })
        .unwrap()
    }
}

fn numbered_image(height: usize, width: usize) -> Array3<u8> {
    Array3::from_shape_fn((height, width, 3), |(row, col, channel)| {
        (10 + 20 * row + 4 * col + channel) as u8
    })
}

#[test]
fn zero_table_leaves_a_four_by_four_image_as_it_is() {
    let size = ImageSize { height: 4, width: 4 };
    let lens = Lens::new(size, (2.0, 2.0), vec![0.0, 0.0]);
    let input = numbered_image(4, 4);
    let mut output = Array3::from_elem((4, 4, 3), MARKER);
    assert_eq!(lens.remap_table().undistort_image(&input, &mut output), Ok(()));
    assert_eq!(output, input);
}

#[test]
fn zero_table_makes_every_pixel_its_own_source() {
    let size = ImageSize { height: 4, width: 4 };
    let table = Lens::new(size, (2.0, 2.0), vec![0.0, 0.0]).remap_table();
    for row in 0..4usize {
        for col in 0..4usize {
            assert_eq!(
                table.source(row, col),
                Some(SourcePixel { row: row as i64, col: col as i64 })
            );
        }
    }
}

#[test]
fn unit_table_doubles_the_distance_from_the_center() {
    let size = ImageSize { height: 4, width: 4 };
    let table = Lens::new(size, (2.0, 2.0), vec![1.0, 1.0]).remap_table();
    for row in 0..4usize {
        for col in 0..4usize {
            let expected = SourcePixel { row: 2 + 2 * (row as i64 - 2), col: 2 + 2 * (col as i64 - 2) };
            assert_eq!(table.source(row, col), Some(expected));
        }
    }
}

#[test]
fn unit_table_remaps_a_four_by_four_image_by_hand() {
    let size = ImageSize { height: 4, width: 4 };
    let lens = Lens::new(size, (2.0, 2.0), vec![1.0, 1.0]);
    let input = numbered_image(4, 4);
    let mut output = Array3::from_elem((4, 4, 3), MARKER);
    assert_eq!(lens.remap_table().undistort_image(&input, &mut output), Ok(()));
    // Sources by row and by column: 0 <- -2, 1 <- 0, 2 <- 2, 3 <- 4.
    let mut expected = Array3::from_elem((4, 4, 3), MARKER);
    for channel in 0..3 {
        expected[[1, 1, channel]] = input[[0, 0, channel]];
        expected[[1, 2, channel]] = input[[0, 2, channel]];
        expected[[2, 1, channel]] = input[[2, 0, channel]];
        expected[[2, 2, channel]] = input[[2, 2, channel]];
    }
    assert_eq!(output, expected);
    assert_eq!(output[[1, 2, 1]], 19);
    assert_eq!(output[[2, 2, 2]], 60);
}

#[test]
fn center_is_a_fixpoint_of_the_transform() {
    let size = ImageSize { height: 7, width: 9 };
    for table in [vec![0.5], vec![3.0, -1.0], vec![0.25, 0.5, 8.0, 2.0]] {
        let lens = Lens::new(size, (2.5, 6.125), table);
        assert_eq!(lens.distort(2.5, 6.125), (2.5, 6.125));
    }
}

#[test]
fn magnification_is_interpolated_between_neighbouring_samples() {
    // Center in the corner of a 3 by 4 image: the largest radius is 5.
    let lens = Lens::new(ImageSize { height: 3, width: 4 }, (0.0, 0.0), vec![0.0, 1.0, 4.0]);
    assert_eq!(lens.max_radius, 5.0);
    assert_eq!(lens.magnification(0.0), 0.0);
    assert_eq!(lens.magnification(1.25), 0.5);
    assert_eq!(lens.magnification(2.5), 1.0);
    assert_eq!(lens.magnification(3.75), 2.5);
    assert_eq!(lens.distort(0.0, 3.75), (0.0, 13.125));
    assert_eq!(lens.distort(2.5, 0.0), (5.0, 0.0));
}

#[test]
fn magnification_saturates_from_the_largest_radius_on() {
    let lens = Lens::new(ImageSize { height: 3, width: 4 }, (0.0, 0.0), vec![0.0, 1.0, 4.0]);
    assert_eq!(lens.magnification(5.0), 4.0);
    assert_eq!(lens.magnification(5.5), 4.0);
    assert_eq!(lens.magnification(1.0e9), 4.0);
    assert_eq!(lens.distort(0.0, 6.0), (0.0, 30.0));
    assert_eq!(lens.distort(8.0, 0.0), (40.0, 0.0));
}

#[test]
fn magnification_just_inside_the_largest_radius_stays_within_the_table() {
    let lens = Lens::new(ImageSize { height: 3, width: 4 }, (0.0, 0.0), vec![0.0, 1.0, 4.0]);
    let radius = f64::from_bits(5.0f64.to_bits() - 1);
    assert!(radius < 5.0);
    let magnification = lens.magnification(radius);
    assert!(magnification > 3.999_999 && magnification <= 4.0);
}

#[test]
fn table_of_a_single_sample_magnifies_by_it_everywhere() {
    let lens = Lens::new(ImageSize { height: 3, width: 4 }, (0.0, 0.0), vec![0.5]);
    assert_eq!(lens.magnification(0.0), 0.5);
    assert_eq!(lens.magnification(2.0), 0.5);
    assert_eq!(lens.magnification(4.999), 0.5);
    assert_eq!(lens.magnification(7.0), 0.5);
    assert_eq!(lens.distort(0.0, 2.0), (0.0, 3.0));
}

#[test]
fn strong_magnification_pushes_the_border_out_of_sight() {
    let size = ImageSize { height: 5, width: 5 };
    let lens = Lens::new(size, (2.0, 2.0), vec![3.0, 3.0]);
    let input = numbered_image(5, 5);
    let mut output = Array3::from_elem((5, 5, 3), MARKER);
    assert_eq!(lens.remap_table().undistort_image(&input, &mut output), Ok(()));
    for row in 0..5 {
        for col in 0..5 {
            for channel in 0..3 {
                let expected = if (row, col) == (2, 2) { input[[2, 2, channel]] } else { MARKER };
                assert_eq!(output[[row, col, channel]], expected);
            }
        }
    }
}
