//! The lookup textures against the generators that define them.
//!
//! The lookup tables follow the generators of `iryoku/smaa` (2013), by Jorge
//! Jimenez, Jose I. Echevarria, Belen Masia, Fernando Navarro and Diego
//! Gutierrez, which are MIT licensed:
//!
//! ```text
//! Copyright (C) 2013 Jorge Jimenez (jorge@iryoku.com)
//! Copyright (C) 2013 Jose I. Echevarria (joseignacioechevarria@gmail.com)
//! Copyright (C) 2013 Belen Masia (bmasia@unizar.es)
//! Copyright (C) 2013 Fernando Navarro (fernandn@microsoft.com)
//! Copyright (C) 2013 Diego Gutierrez (diegog@unizar.es)
//!
//! Permission is hereby granted, free of charge, to any person obtaining a copy
//! of this software and associated documentation files (the "Software"), to deal
//! in the Software without restriction, including without limitation the rights
//! to use, copy, modify, merge, publish, distribute, sublicense, and/or sell
//! copies of the Software, and to permit persons to whom the Software is
//! furnished to do so, subject to the following conditions:
//!
//! The above copyright notice and this permission notice shall be included in
//! all copies or substantial portions of the Software. As clarification, there
//! is no requirement that the copyright notice and permission be included in
//! binary distributions of the Software.
//!
//! THE SOFTWARE IS PROVIDED "AS IS", WITHOUT WARRANTY OF ANY KIND, EXPRESS OR
//! IMPLIED, INCLUDING BUT NOT LIMITED TO THE WARRANTIES OF MERCHANTABILITY,
//! FITNESS FOR A PARTICULAR PURPOSE AND NONINFRINGEMENT. IN NO EVENT SHALL THE
//! AUTHORS OR COPYRIGHT HOLDERS BE LIABLE FOR ANY CLAIM, DAMAGES OR OTHER
//! LIABILITY, WHETHER IN AN ACTION OF CONTRACT, TORT OR OTHERWISE, ARISING FROM,
//! OUT OF OR IN CONNECTION WITH THE SOFTWARE OR THE USE OR OTHER DEALINGS IN THE
//! SOFTWARE.
//! ```


use pocket3d::smaa::{
    bilinear_code, build_area_texture, build_search_texture, delta_left, delta_right, SmaaPass,
    AREA_HEIGHT, AREA_WIDTH, SEARCH_HEIGHT, SEARCH_WIDTH,
};

const ORTHO_SUBSAMPLE_OFFSETS: [f64; 7] = [0.0, -0.25, 0.25, -0.125, 0.125, -0.375, 0.375];
const DIAG_SUBSAMPLE_OFFSETS: [(f64, f64); 5] = [
    (0.0, 0.0),
    (0.25, -0.25),
    (-0.25, 0.25),
    (0.125, -0.125),
    (-0.125, 0.125),
];
const DIAG_PATTERN_EDGES: [(u8, u8); 16] = [
    (0, 0),
    (1, 0),
    (0, 2),
    (1, 2),
    (2, 0),
    (3, 0),
    (2, 2),
    (3, 2),
    (0, 1),
    (1, 1),
    (0, 3),
    (1, 3),
    (2, 1),
    (3, 1),
    (2, 3),
    (3, 3),
];

type Point = (f64, f64);

/// The covered areas on both sides of an edge.
#[derive(Clone, Copy)]
struct Area2 {
    first: f64,
    second: f64,
}

impl Area2 {
    const ZERO: Self = Self {
        first: 0.0,
        second: 0.0,
    };

    fn sum(self, other: Self) -> Self {
        Self {
            first: self.first + other.first,
            second: self.second + other.second,
        }
    }

    fn mean(self, other: Self) -> Self {
        Self {
            first: (self.first + other.first) * 0.5,
            second: (self.second + other.second) * 0.5,
        }
    }

    fn encoded(self) -> (u8, u8) {
        let encode = |value: f64| (value.clamp(0.0, 1.0) * 255.0) as u8;
        (encode(self.first), encode(self.second))
    }
}

fn line_area(p1: Point, p2: Point, x: f64) -> Area2 {
    let (dx, dy) = (p2.0 - p1.0, p2.1 - p1.1);
    let (x1, x2) = (x, x + 1.0);
    let y1 = p1.1 + dy * (x1 - p1.0) / dx;
    let y2 = p1.1 + dy * (x2 - p1.0) / dx;
    let inside = (x1 >= p1.0 && x1 < p2.0) || (x2 > p1.0 && x2 <= p2.0);
    if !inside {
        return Area2::ZERO;
    }

    let same_sign =
        y1.is_sign_positive() == y2.is_sign_positive() || y1.abs() < 1e-4 || y2.abs() < 1e-4;
    if same_sign {
        let area = (y1 + y2) * 0.5;
        return if area < 0.0 {
            Area2 {
                first: area.abs(),
                second: 0.0,
            }
        } else {
            Area2 {
                first: 0.0,
                second: area.abs(),
            }
        };
    }
    let crossing_x = -p1.1 * dx / dy + p1.0;
    let fraction = crossing_x.fract();
    let area1 = if crossing_x > p1.0 {
        y1 * fraction * 0.5
    } else {
        0.0
    };
    let area2 = if crossing_x < p2.0 {
        y2 * (1.0 - fraction) * 0.5
    } else {
        0.0
    };
    let area = if area1.abs() > area2.abs() {
        area1
    } else {
        -area2
    };
    if area < 0.0 {
        Area2 {
            first: area1.abs(),
            second: area2.abs(),
        }
    } else {
        Area2 {
            first: area2.abs(),
            second: area1.abs(),
        }
    }
}

fn smooth_area(distance: f64, area: Area2) -> Area2 {
    let b = Area2 {
        first: (area.first * 2.0).sqrt() * 0.5,
        second: (area.second * 2.0).sqrt() * 0.5,
    };
    let p = (distance / 32.0).clamp(0.0, 1.0);
    Area2 {
        first: b.first + (area.first - b.first) * p,
        second: b.second + (area.second - b.second) * p,
    }
}

/// The areas of an orthogonal pattern, with the distances to both ends of its
/// edge.
fn area_ortho(pattern: usize, left: f64, right: f64, offset: f64) -> Area2 {
    let distance = left + right + 1.0;
    let middle = (distance * 0.5, 0.0);
    let o1 = 0.5 + offset;
    let o2 = -0.5 + offset;
    let rising = |start: f64| line_area((0.0, start), middle, left);
    let falling = |end: f64| line_area(middle, (distance, end), left);
    let across = |start: f64, end: f64| line_area((0.0, start), (distance, end), left);
    let smooth = |end: f64| {
        smooth_area(distance, rising(end)).sum(smooth_area(distance, falling(end)))
    };
    let crossed = |start: f64, end: f64| {
        if offset.abs() > 0.0 {
            across(start, end).mean(rising(start).sum(falling(end)))
        } else {
            across(start, end)
        }
    };
    match pattern {
        1 if left <= right => rising(o2),
        2 if left >= right => falling(o2),
        3 => smooth(o2),
        4 if left <= right => rising(o1),
        6 => crossed(o1, o2),
        7 | 14 => across(o1, o2),
        8 if left >= right => falling(o1),
        9 => crossed(o2, o1),
        11 | 13 => across(o2, o1),
        12 => smooth(o1),
        _ => Area2::ZERO,
    }
}

fn diagonal_inside(p1: Point, p2: Point, p: Point) -> bool {
    if p1 == p2 {
        return true;
    }
    let midpoint = ((p1.0 + p2.0) * 0.5, (p1.1 + p2.1) * 0.5);
    let a = p2.1 - p1.1;
    let b = p1.0 - p2.0;
    a * (p.0 - midpoint.0) + b * (p.1 - midpoint.1) > 0.0
}

fn diagonal_area1(p1: Point, p2: Point, p: Point) -> f64 {
    const SAMPLES: usize = 30;
    let mut covered = 0.0;
    for x in 0..SAMPLES {
        for y in 0..SAMPLES {
            let offset = (
                x as f64 / (SAMPLES - 1) as f64,
                y as f64 / (SAMPLES - 1) as f64,
            );
            if diagonal_inside(p1, p2, (p.0 + offset.0, p.1 + offset.1)) {
                covered += 1.0;
            }
        }
    }
    covered / (SAMPLES * SAMPLES) as f64
}

fn diagonal_line_area(pattern: usize, p1: Point, p2: Point, left: f64, offset: Point) -> Area2 {
    let (edge1, edge2) = DIAG_PATTERN_EDGES[pattern];
    let moved = |p: Point, edge: u8| {
        if edge > 0 {
            (p.0 + offset.0, p.1 + offset.1)
        } else {
            p
        }
    };
    let (p1, p2) = (moved(p1, edge1), moved(p2, edge2));
    Area2 {
        first: 1.0 - diagonal_area1(p1, p2, (1.0 + left, left)),
        second: diagonal_area1(p1, p2, (1.0 + left, 1.0 + left)),
    }
}

/// The areas of a diagonal pattern: of the line or of the mean of both lines
/// that the pattern may continue.
fn area_diag(pattern: usize, left: f64, right: f64, offset: Point) -> Area2 {
    let distance = left + right + 1.0;
    let (origin, lower, upper) = ((0.0, 0.0), (1.0, 0.0), (1.0, 1.0));
    let near = (distance, distance);
    let low = (1.0 + distance, distance);
    let high = (1.0 + distance, 1.0 + distance);
    let (one, other) = match pattern {
        0 | 15 => ((upper, high), (lower, low)),
        1 => ((lower, near), (lower, low)),
        2 => ((origin, low), (lower, low)),
        3 => ((lower, low), (lower, low)),
        4 => ((upper, near), (upper, low)),
        5 => ((upper, near), (lower, low)),
        6 => ((upper, low), (upper, low)),
        7 => ((upper, low), (lower, low)),
        8 => ((origin, high), (lower, high)),
        9 => ((lower, high), (lower, high)),
        10 => ((origin, high), (lower, low)),
        11 => ((lower, high), (lower, low)),
        12 => ((upper, high), (upper, high)),
        13 => ((upper, high), (lower, high)),
        14 => ((upper, high), (upper, low)),
        _ => unreachable!("diagonal pattern out of range"),
    };
    let area = |line: (Point, Point)| diagonal_line_area(pattern, line.0, line.1, left, offset);
    if one == other {
        area(one)
    } else {
        area(one).mean(area(other))
    }
}

fn fnv1a64(bytes: &[u8]) -> u64 {
    bytes.iter().fold(0xcbf29ce484222325, |hash, &byte| {
        (hash ^ u64::from(byte)).wrapping_mul(0x100000001b3)
    })
}

#[test]
fn lookup_tables_match_official_generator_references() {
    let area = build_area_texture(
        |offset, pattern, x, y| {
            area_ortho(
                pattern,
                (x * x) as f64,
                (y * y) as f64,
                ORTHO_SUBSAMPLE_OFFSETS[offset],
            )
            .encoded()
        },
        |offset, pattern, x, y| {
            area_diag(pattern, x as f64, y as f64, DIAG_SUBSAMPLE_OFFSETS[offset]).encoded()
        },
    );
    let search = build_search_texture();
    assert_eq!(area.len(), (AREA_WIDTH * AREA_HEIGHT * 4) as usize);
    assert_eq!(search.len(), (SEARCH_WIDTH * SEARCH_HEIGHT) as usize);
    let area_logical: Vec<u8> = area
        .chunks_exact(4)
        .flat_map(|pixel| [pixel[0], pixel[1]])
        .collect();
    assert_eq!(fnv1a64(&area_logical), 0x247a58bbba65292d);
    assert_eq!(fnv1a64(&search), 0x21c1fcf0aa631065);
    assert_eq!(fnv1a64(&area), 0xf74933c6dbb9a9f5);
}

#[test]
fn search_steps_stop_at_crossing_edges() {
    assert_eq!(bilinear_code([1, 0, 1, 0]), 8);
    assert_eq!(bilinear_code([1, 1, 1, 1]), 32);
    assert_eq!(delta_left([0; 4], [0, 0, 1, 1]), 2);
    assert_eq!(delta_left([0, 1, 0, 0], [0, 0, 1, 1]), 1);
    assert_eq!(delta_left([0; 4], [0, 0, 1, 0]), 0);
    assert_eq!(delta_right([0; 4], [0, 0, 1, 1]), 2);
    assert_eq!(delta_right([0, 0, 0, 1], [0, 0, 1, 1]), 0);
    assert_eq!(delta_right([1, 0, 0, 0], [0, 0, 1, 1]), 1);
}

#[test]
fn codes_tell_edge_patterns_apart() {
    let mut seen = [false; 33];
    for mask in 0..16u8 {
        let code = bilinear_code([mask & 1, mask >> 1 & 1, mask >> 2 & 1, mask >> 3 & 1]);
        assert!(!seen[code]);
        seen[code] = true;
    }
}

#[test]
fn area_texels_are_written_once() {
    let area = build_area_texture(
        |offset, pattern, x, y| ((offset * 16 + pattern) as u8, (x * 16 + y) as u8),
        |_, _, _, _| (0, 0),
    );
    let at = |px: usize, py: usize| (area[(py * 160 + px) * 4], area[(py * 160 + px) * 4 + 1]);
    // The slot of pattern 1 is the fourth of the first row.
    assert_eq!(at(3 * 16 + 2, 5), (1, 2 * 16 + 5));
    // The second offset starts five slots further down.
    assert_eq!(at(7, 80 + 9), (16, 7 * 16 + 9));
    assert!(area.chunks_exact(4).all(|texel| texel[2] == 0 && texel[3] == 0));
}

#[test]
fn passes_hold_targets_of_one_size() {
    assert_eq!(SmaaPass::without_targets().targets_size(), None);
    assert_eq!(SmaaPass::with_targets((32, 24)).targets_size(), Some((32, 24)));
}
