use perlin_vis::color::{map_cell, map_color, Rgba, Sample, SCALE};

fn rgba(r: i64, g: i64, b: i64) -> Rgba {
    Rgba { r, g, b, a: SCALE }
}

#[test]
fn zero_sample_is_opaque_black() {
    assert_eq!(map_color(&Sample { x: 0, y: 0, z: 0 }), rgba(0, 0, 0));
}

#[test]
fn empty_cell_is_drawn_as_zero_sample() {
    assert_eq!(map_cell(&None), rgba(0, 0, 0));
}

#[test]
fn green_sum_wins_gives_magenta() {
    // (1, -1, 0) shifts to (1, 0, 0.5): sums 0.5, 1.5, 1.0; green wins
    let s = Sample { x: 10000, y: -10000, z: 0 };
    assert_eq!(map_color(&s), rgba(SCALE, 0, SCALE));
    assert_eq!(map_cell(&Some(s)), rgba(SCALE, 0, SCALE));
}

#[test]
fn red_sum_wins() {
    // (-1, 1, 1) shifts to (0, 1, 1): sums 2, 1, 1
    assert_eq!(map_color(&Sample { x: -10000, y: 10000, z: 10000 }), rgba(0, SCALE, SCALE));
}

#[test]
fn blue_sum_wins() {
    // (1, 1, -1) shifts to (1, 1, 0): sums 1, 1, 2
    assert_eq!(map_color(&Sample { x: 10000, y: 10000, z: -10000 }), rgba(SCALE, SCALE, 0));
}

#[test]
fn proximity_levels() {
    // red and green sums tie above blue's by z / 20000 of a unit
    assert_eq!(map_color(&Sample { x: 0, y: 0, z: 100 }), rgba(0, 0, 0));
    assert_eq!(map_color(&Sample { x: 0, y: 0, z: 199 }), rgba(0, 0, 0));
    assert_eq!(map_color(&Sample { x: 0, y: 0, z: 200 }), rgba(0, 0, SCALE / 2));
    assert_eq!(map_color(&Sample { x: 0, y: 0, z: 500 }), rgba(0, 0, SCALE / 2));
    assert_eq!(map_color(&Sample { x: 0, y: 0, z: 999 }), rgba(0, 0, SCALE / 2));
    assert_eq!(map_color(&Sample { x: 0, y: 0, z: 1000 }), rgba(0, 0, SCALE));
}

#[test]
fn tie_goes_to_red_then_green() {
    // green and blue sums tie above red's: green wins, blue scores in full
    assert_eq!(map_color(&Sample { x: 5000, y: 0, z: 0 }), rgba(SCALE, 0, 0));
}

#[test]
fn extreme_components_do_not_overflow() {
    // blue sum is the largest by far; red and green score nothing
    let s = Sample { x: i32::MAX, y: i32::MAX, z: i32::MIN };
    assert_eq!(map_color(&s), rgba(SCALE, SCALE, 0));
}
