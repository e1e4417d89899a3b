use raytracer::schedule::{pixel_at, pixel_count};

fn assert_each_pixel_once(width: usize, height: usize) {
    let count = pixel_count(width, height).unwrap();
    assert_eq!(count, width * height);
    let mut seen = vec![false; count];
    for index in 0..count {
        let (row, column) = pixel_at(index, width);
        assert!(row < height);
        assert!(column < width);
        let slot = row * width + column;
        assert!(!seen[slot], "pixel ({}, {}) scheduled twice", row, column);
        seen[slot] = true;
    }
    assert!(seen.iter().all(|s| *s));
}

#[test]
fn every_pixel_scheduled_once_wide() {
    assert_each_pixel_once(640, 320);
}

#[test]
fn every_pixel_scheduled_once_tall() {
    assert_each_pixel_once(3, 7);
}

#[test]
fn single_column_and_single_row() {
    assert_each_pixel_once(1, 5);
    assert_each_pixel_once(5, 1);
}

#[test]
fn empty_image_has_no_work() {
    assert_eq!(pixel_count(0, 10), Some(0));
    assert_eq!(pixel_count(10, 0), Some(0));
}

#[test]
fn pixel_at_is_row_major() {
    assert_eq!(pixel_at(0, 4), (0, 0));
    assert_eq!(pixel_at(3, 4), (0, 3));
    assert_eq!(pixel_at(4, 4), (1, 0));
    assert_eq!(pixel_at(11, 4), (2, 3));
}

#[test]
fn pixel_count_overflow() {
    assert_eq!(pixel_count(usize::MAX, 2), None);
    assert_eq!(pixel_count(usize::MAX, 1), Some(usize::MAX));
}
