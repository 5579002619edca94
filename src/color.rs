//! Mapping of one noise sample to the color of its tile.
//!
//! Samples are held in fixed point: a component `v` stands for the real
//! number `v / SCALE`, nominally in `[-1, 1]`. A component is shifted into
//! `[0, 1]` by `(v + 1) / 2`; to stay exact the computation works on the
//! doubled shifted value `v + SCALE`, which is `2 * SCALE` times the shifted
//! real. Colors come out in the same `1 / SCALE` units.
use vstd::prelude::*;

verus! {

/// Fixed-point scale: a component `v` stands for `v / SCALE`.
pub const SCALE: i64 = 10000;

/// A difference of complementary sums below 0.01, in doubled units.
pub const NEAR: i64 = 200;

/// A difference of complementary sums below 0.05, in doubled units.
pub const CLOSE: i64 = 1000;

/// One three-component noise sample in `1 / SCALE` units.
#[derive(Clone, Copy, Debug, PartialEq, Eq, Structural)]
pub struct Sample {
    pub x: i32,
    pub y: i32,
    pub z: i32,
}

/// An RGBA color, each channel in `1 / SCALE` units (`SCALE` is full intensity).
#[derive(Clone, Copy, Debug, PartialEq, Eq, Structural)]
pub struct Rgba {
    pub r: i64,
    pub g: i64,
    pub b: i64,
    pub a: i64,
}

/// Proximity score of a complementary sum to the largest one, given their
/// difference in doubled units: full, half or none.
pub open spec fn proximity(diff: int) -> int {
    if diff < NEAR {
        SCALE as int
    } else if diff < CLOSE {
        SCALE / 2
    } else {
        0
    }
}

/// Scores `(r, g, b)` of a sample: the channel whose complementary sum is the
/// largest (red first, then green, then blue on ties) scores in full; each
/// other channel scores by the proximity of its sum to the largest.
pub open spec fn scores(s: Sample) -> (int, int, int) {
    let r = s.x + SCALE;
    let g = s.y + SCALE;
    let b = s.z + SCALE;
    let sr = g + b;
    let sg = r + b;
    let sb = r + g;
    let m = if sr >= sg && sr >= sb { sr } else if sg >= sb { sg } else { sb };
    if sr == m {
        (SCALE as int, proximity(m - sg), proximity(m - sb))
    } else if sg == m {
        (proximity(m - sr), SCALE as int, proximity(m - sb))
    } else {
        (proximity(m - sr), proximity(m - sg), SCALE as int)
    }
}

/// The drawn color of a sample: each score taken from full intensity, opaque.
pub open spec fn color_of(s: Sample) -> Rgba {
    let (r, g, b) = scores(s);
    Rgba { r: (SCALE - r) as i64, g: (SCALE - g) as i64, b: (SCALE - b) as i64, a: SCALE }
}

/// The sample drawn for a cell that holds none yet.
pub open spec fn blank() -> Sample {
    Sample { x: 0, y: 0, z: 0 }
}

/// The drawn color of a cell: its sample, or the blank sample where it has none.
pub open spec fn cell_color(c: Option<Sample>) -> Rgba {
    match c {
        Some(s) => color_of(s),
        None => color_of(blank()),
    }
}

fn proximity_score(diff: i64) -> (r: i64)
    ensures
        r == proximity(diff as int),
{
    if diff < NEAR {
        SCALE
    } else if diff < CLOSE {
        SCALE / 2
    } else {
        0
    }
}

/// The color in which a sample is drawn.
pub fn map_color(s: &Sample) -> (c: Rgba)
    ensures
        c == color_of(*s),
{
    let r = s.x as i64 + SCALE;
    let g = s.y as i64 + SCALE;
    let b = s.z as i64 + SCALE;
    let sr = g + b;
    let sg = r + b;
    let sb = r + g;
    let mut m = if sr >= sg { sr } else { sg };
    if sb > m {
        m = sb;
    }
    let (cr, cg, cb) = if sr == m {
        (SCALE, proximity_score(m - sg), proximity_score(m - sb))
    } else if sg == m {
        (proximity_score(m - sr), SCALE, proximity_score(m - sb))
    } else {
        (proximity_score(m - sr), proximity_score(m - sg), SCALE)
    };
    Rgba { r: SCALE - cr, g: SCALE - cg, b: SCALE - cb, a: SCALE }
}

/// The color in which a cell is drawn; an empty cell is drawn as the zero sample.
pub fn map_cell(c: &Option<Sample>) -> (r: Rgba)
    ensures
        r == cell_color(*c),
{
    match c {
        Some(s) => map_color(s),
        None => map_color(&Sample { x: 0, y: 0, z: 0 }),
    }
}

} // verus!
