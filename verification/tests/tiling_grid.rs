use silica::error::NsArchiveError;
use silica::tiling::{Size, TilingMeta};

#[test]
fn grid_for_300_wide_canvas_at_tile_256() {
    let meta = TilingMeta::compute(Size { width: 300, height: 300 }, 256).unwrap();
    assert_eq!(meta.columns, 2);
    assert_eq!(meta.rows, 2);
    assert_eq!(meta.diff.width, 512 - 300);
    assert_eq!(meta.diff.width, 212);
    assert_eq!(meta.tile_width(0), 256);
    assert_eq!(meta.tile_width(1), 256 - 212);
    assert_eq!(meta.tile_width(1), 44);
}

#[test]
fn exact_division_has_no_overhang() {
    let meta = TilingMeta::compute(Size { width: 512, height: 256 }, 256).unwrap();
    assert_eq!(meta.columns, 2);
    assert_eq!(meta.rows, 1);
    assert_eq!(meta.diff.width, 0);
    assert_eq!(meta.diff.height, 0);
    assert_eq!(meta.tile_width(1), 256);
}

#[test]
fn tile_widths_of_one_row_sum_to_canvas_width() {
    let size = Size { width: 1000, height: 700 };
    let meta = TilingMeta::compute(size, 256).unwrap();
    let mut total: u64 = 0;
    for col in 0..meta.columns {
        total += meta.tile_width(col) as u64;
    }
    assert_eq!(total, size.width as u64);
    let mut total_h: u64 = 0;
    for row in 0..meta.rows {
        total_h += meta.tile_height(row) as u64;
    }
    assert_eq!(total_h, size.height as u64);
}

#[test]
fn zero_tile_size_is_rejected() {
    let r = TilingMeta::compute(Size { width: 10, height: 10 }, 0);
    assert_eq!(r, Err(NsArchiveError::TypeMismatch));
}

#[test]
fn single_pixel_tiles_cover_exactly() {
    let meta = TilingMeta::compute(Size { width: 3, height: 2 }, 1).unwrap();
    assert_eq!(meta.columns, 3);
    assert_eq!(meta.rows, 2);
    assert_eq!(meta.diff, Size { width: 0, height: 0 });
}

#[test]
fn empty_canvas_has_no_tiles() {
    let meta = TilingMeta::compute(Size { width: 0, height: 0 }, 256).unwrap();
    assert_eq!(meta.columns, 0);
    assert_eq!(meta.rows, 0);
    assert_eq!(meta.diff, Size { width: 0, height: 0 });
}
