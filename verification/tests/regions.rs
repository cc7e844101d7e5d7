use libvisdesk::{compute_region_area, Rect, Region};

fn rect(left: i32, top: i32, right: i32, bottom: i32) -> Rect {
    Rect { left, top, right, bottom }
}

#[test]
fn area_is_width_times_height() {
    assert_eq!(rect(0, 0, 1920, 1080).area(), 2_073_600);
    assert_eq!(rect(-1920, -200, 0, 1000).area(), 2_304_000);
    assert_eq!(rect(5, 5, 5, 9).area(), 0);
    assert_eq!(rect(10, 0, 0, 3).area(), -30);
    assert_eq!(rect(0, 0, i32::MAX, i32::MAX).area(), 4_611_686_014_132_420_609);
}

#[test]
fn intersection_is_the_common_part() {
    let a = rect(0, 0, 10, 10);
    assert_eq!(a.intersect(&rect(5, -5, 15, 5)), Some(rect(5, 0, 10, 5)));
    assert_eq!(a.intersect(&rect(2, 3, 4, 5)), Some(rect(2, 3, 4, 5)));
    assert_eq!(a.intersect(&a), Some(a));
}

#[test]
fn touching_rectangles_share_no_pixel() {
    let a = rect(0, 0, 10, 10);
    assert_eq!(a.intersect(&rect(10, 0, 20, 10)), None);
    assert_eq!(a.intersect(&rect(0, 10, 10, 20)), None);
    assert_eq!(a.intersect(&rect(3, 3, 3, 8)), None);
    assert_eq!(a.intersect(&rect(8, 8, 3, 3)), None);
}

#[test]
fn a_hole_takes_its_pixels_away() {
    let mut region = Region::from_rect(&rect(0, 0, 10, 10));
    region.subtract(&rect(2, 3, 5, 7));
    assert_eq!(compute_region_area(&region), 88);
}

#[test]
fn overlapping_holes_count_once() {
    let mut region = Region::from_rect(&rect(0, 0, 100, 100));
    region.subtract(&rect(0, 0, 50, 50));
    region.subtract(&rect(25, 25, 75, 75));
    region.subtract(&rect(25, 25, 75, 75));
    assert_eq!(compute_region_area(&region), 10_000 - 2_500 - 2_500 + 625);
}

#[test]
fn a_hole_that_reaches_beyond_the_region_empties_it() {
    let mut region = Region::from_rect(&rect(-10, -10, 10, 10));
    region.subtract(&rect(i32::MIN, i32::MIN, i32::MAX, i32::MAX));
    assert_eq!(compute_region_area(&region), 0);
}

#[test]
fn an_empty_or_inverted_hole_changes_nothing() {
    let mut region = Region::from_rect(&rect(0, 0, 10, 10));
    region.subtract(&rect(5, 5, 5, 9));
    region.subtract(&rect(9, 9, 1, 1));
    assert_eq!(compute_region_area(&region), 100);
}

#[test]
fn an_empty_rectangle_is_an_empty_region() {
    let mut region = Region::from_rect(&rect(4, 4, 4, 9));
    assert_eq!(compute_region_area(&region), 0);
    region.subtract(&rect(0, 0, 10, 10));
    assert_eq!(compute_region_area(&region), 0);
}

#[test]
fn many_holes_agree_with_counting_pixels() {
    let bounds = rect(0, 0, 40, 30);
    let mut region = Region::from_rect(&bounds);
    let mut covered = vec![false; 40 * 30];
    let mut seed: u32 = 7;
    for _ in 0..60 {
        let mut next = || {
            seed = seed.wrapping_mul(1_103_515_245).wrapping_add(12_345);
            ((seed >> 16) % 50) as i32 - 5
        };
        let (left, top) = (next(), next());
        let hole = rect(left, top, left + next() / 4, top + next() / 4);
        region.subtract(&hole);
        for y in 0..30 {
            for x in 0..40 {
                if hole.left <= x && x < hole.right && hole.top <= y && y < hole.bottom {
                    covered[(y * 40 + x) as usize] = true;
                }
            }
        }
        let left = covered.iter().filter(|c| !**c).count() as i64;
        assert_eq!(compute_region_area(&region), left);
    }
}
