use waylandkb::blur::{region_needs_update, rounded_region, PANEL_RADIUS};

fn covers(region: &[(i32, i32, i32, i32)], x: i32, y: i32) -> bool {
    region
        .iter()
        .any(|&(rx, ry, w, h)| x >= rx && x < rx + w && y >= ry && y < ry + h)
}

#[test]
fn blur_excludes_corners_but_covers_the_panel_center() {
    let region = rounded_region(360, 200, PANEL_RADIUS);
    assert!(covers(&region, 180, 100));
    assert!(covers(&region, 180, 0));
    assert!(!covers(&region, 0, 0));
    assert!(!covers(&region, 359, 199));
}

#[test]
fn tiny_and_empty_surfaces_never_produce_invalid_rectangles() {
    assert!(rounded_region(0, 0, PANEL_RADIUS).is_empty());
    for (x, y, w, h) in rounded_region(7, 5, PANEL_RADIUS) {
        assert!(x >= 0 && y >= 0 && w > 0 && h > 0 && x + w <= 7 && y + h <= 5);
    }
}

fn float_region(width: i32, height: i32, radius: i32) -> Vec<(i32, i32, i32, i32)> {
    if width <= 0 || height <= 0 {
        return Vec::new();
    }
    let r = radius.clamp(0, width.min(height) / 2);
    let mut rects = Vec::new();
    for y in 0..r {
        let dy = f64::from(r) - (f64::from(y) + 0.5);
        let inset = (f64::from(r) - (f64::from(r * r) - dy * dy).sqrt()).ceil() as i32;
        let w = width - 2 * inset;
        if w > 0 {
            rects.push((inset, y, w, 1));
            rects.push((inset, height - y - 1, w, 1));
        }
    }
    if height > 2 * r {
        rects.push((0, r, width, height - 2 * r));
    }
    rects
}

#[test]
fn integer_scanlines_match_the_circle_geometry() {
    for (width, height, radius) in [(360, 200, 16), (7, 5, 16), (40, 40, 20), (100, 3, 16), (33, 90, 0)] {
        assert_eq!(rounded_region(width, height, radius), float_region(width, height, radius));
    }
}

#[test]
fn corner_scanlines_are_inset_and_the_band_spans_the_width() {
    let region = rounded_region(100, 50, 4);
    assert_eq!(region.last(), Some(&(0, 4, 100, 42)));
    assert!(region[..region.len() - 1].iter().all(|r| r.0 >= 1 && r.3 == 1));
    assert_eq!(rounded_region(10, 10, -3), vec![(0, 0, 10, 10)]);
}

#[test]
fn region_is_remade_only_for_a_new_nonempty_size() {
    assert!(region_needs_update((0, 0), 360, 200));
    assert!(!region_needs_update((360, 200), 360, 200));
    assert!(!region_needs_update((360, 200), 0, 200));
    assert!(!region_needs_update((360, 200), 360, -1));
}
