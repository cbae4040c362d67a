//! Lookup textures and targets of the morphological anti-aliasing pass.
//!
//! The lookup tables follow the generators of `iryoku/smaa` (2013), by Jorge
//! Jimenez, Jose I. Echevarria, Belen Masia, Fernando Navarro and Diego
//! Gutierrez, which are MIT licensed:
//!
//! ```text
//! Copyright (C) 2013 Jorge Jimenez (jorge@iryoku.com)
//! Copyright (C) 2013 Jose I. Echevarria (joseignacioechevarria@gmail.com)
//! Copyright (C) 2013 Belen Masia (bmasia@unizar.es)
//! Copyright (C) 2013 Fernando Navarro (fernandn@microsoft.com)
//! Copyright (C) 2013 Diego Gutierrez (diegog@unizar.es)
//!
//! Permission is hereby granted, free of charge, to any person obtaining a copy
//! of this software and associated documentation files (the "Software"), to deal
//! in the Software without restriction, including without limitation the rights
//! to use, copy, modify, merge, publish, distribute, sublicense, and/or sell
//! copies of the Software, and to permit persons to whom the Software is
//! furnished to do so, subject to the following conditions:
//!
//! The above copyright notice and this permission notice shall be included in
//! all copies or substantial portions of the Software. As clarification, there
//! is no requirement that the copyright notice and permission be included in
//! binary distributions of the Software.
//!
//! THE SOFTWARE IS PROVIDED "AS IS", WITHOUT WARRANTY OF ANY KIND, EXPRESS OR
//! IMPLIED, INCLUDING BUT NOT LIMITED TO THE WARRANTIES OF MERCHANTABILITY,
//! FITNESS FOR A PARTICULAR PURPOSE AND NONINFRINGEMENT. IN NO EVENT SHALL THE
//! AUTHORS OR COPYRIGHT HOLDERS BE LIABLE FOR ANY CLAIM, DAMAGES OR OTHER
//! LIABILITY, WHETHER IN AN ACTION OF CONTRACT, TORT OR OTHERWISE, ARISING FROM,
//! OUT OF OR IN CONNECTION WITH THE SOFTWARE OR THE USE OR OTHER DEALINGS IN THE
//! SOFTWARE.
//! ```

use vstd::prelude::*;

verus! {

/// The side of an orthogonal pattern in the area texture.
pub const ORTHO_SUBTEX_SIZE: usize = 16;

/// The number of orthogonal pattern slots per axis.
pub const ORTHO_SLOTS: usize = 5;

/// The side of a diagonal pattern in the area texture.
pub const DIAG_SUBTEX_SIZE: usize = 20;

/// The number of diagonal pattern slots per axis.
pub const DIAG_SLOTS: usize = 4;

pub const AREA_WIDTH: u32 = 160;

pub const AREA_HEIGHT: u32 = 560;

pub const SEARCH_WIDTH: u32 = 64;

pub const SEARCH_HEIGHT: u32 = 16;

/// The size-dependent state of the pass.
#[derive(Clone, Copy, Debug, PartialEq, Eq)]
pub struct SmaaPass {
    /// The size of its targets, if it has any.
    pub targets: Option<(u32, u32)>,
}

impl SmaaPass {
    /// A pass that has no targets yet, or released them.
    pub fn without_targets() -> (pass: Self)
        ensures
            pass.targets is None,
    {
        SmaaPass { targets: None }
    }

    /// A pass with targets of `size`.
    pub fn with_targets(size: (u32, u32)) -> (pass: Self)
        ensures
            pass.targets == Some(size),
    {
        SmaaPass { targets: Some(size) }
    }

    /// The size of the targets.
    pub fn targets_size(&self) -> (size: Option<(u32, u32)>)
        ensures
            size == self.targets,
    {
        self.targets
    }
}

/// The sum of bilinear weights that identifies which of four edges are set.
pub open spec fn weighted(bits: Seq<u8>) -> int {
    bits[0] + 3 * bits[1] + 7 * bits[2] + 21 * bits[3]
}

/// The bilinear fetch of four edges, as a whole number.
pub fn bilinear_code(bits: [u8; 4]) -> (code: usize)
    ensures
        code == weighted(bits@),
{
    bits[0] as usize + 3 * (bits[1] as usize) + 7 * (bits[2] as usize) + 21 * (bits[3] as usize)
}

/// The four edges of a mask.
pub open spec fn edges(mask: int) -> Seq<u8> {
    seq![
        (mask % 2) as u8,
        (mask / 2 % 2) as u8,
        (mask / 4 % 2) as u8,
        (mask / 8 % 2) as u8,
    ]
}

/// Whether `mask` is the mask of edges whose code is `code`.
pub open spec fn has_code(mask: int, code: int) -> bool {
    0 <= mask < 16 && weighted(edges(mask)) == code
}

/// How far a search to the left can go on: edges of the crossing row and of
/// the row that is followed.
pub open spec fn left_distance(left: Seq<u8>, top: Seq<u8>) -> int {
    if top[3] != 1 {
        0
    } else if top[2] == 1 && left[1] != 1 && left[3] != 1 {
        2
    } else {
        1
    }
}

/// How far a search to the left can go on.
pub fn delta_left(left: [u8; 4], top: [u8; 4]) -> (distance: u8)
    ensures
        distance == left_distance(left@, top@),
{
    let mut distance: u8 = 0;
    if top[3] == 1 {
        distance = 1;
    }
    if distance == 1 && top[2] == 1 && left[1] != 1 && left[3] != 1 {
        distance += 1;
    }
    distance
}

/// How far a search to the right can go on.
pub open spec fn right_distance(left: Seq<u8>, top: Seq<u8>) -> int {
    if top[3] != 1 || left[1] == 1 || left[3] == 1 {
        0
    } else if top[2] == 1 && left[0] != 1 && left[2] != 1 {
        2
    } else {
        1
    }
}

/// How far a search to the right can go on.
pub fn delta_right(left: [u8; 4], top: [u8; 4]) -> (distance: u8)
    ensures
        distance == right_distance(left@, top@),
{
    let mut distance: u8 = 0;
    if top[3] == 1 && left[1] != 1 && left[3] != 1 {
        distance = 1;
    }
    if distance == 1 && top[2] == 1 && left[0] != 1 && left[2] != 1 {
        distance += 1;
    }
    distance
}

/// Different masks have different codes: a code names at most one set of edges.
pub proof fn codes_are_distinct(a: int, b: int, code: int)
    requires
        has_code(a, code),
        has_code(b, code),
    ensures
        a == b,
        0 <= code <= 32,
{
    mask_is_sum_of_bits(a);
    mask_is_sum_of_bits(b);
}

proof fn mask_is_sum_of_bits(mask: int)
    requires
        0 <= mask < 16,
    ensures
        mask == edges(mask)[0] + 2 * edges(mask)[1] + 4 * edges(mask)[2] + 8 * edges(mask)[3],
        forall|k: int| 0 <= k < 4 ==> #[trigger] edges(mask)[k] <= 1,
{
    assert(0 <= mask % 2 < 2 && 0 <= mask / 2 % 2 < 2 && 0 <= mask / 4 % 2 < 2 && 0 <= mask / 8 % 2
        < 2);
    assert(edges(mask)[0] == mask % 2);
    assert(edges(mask)[1] == mask / 2 % 2);
    assert(edges(mask)[2] == mask / 4 % 2);
    assert(edges(mask)[3] == mask / 8 % 2);
    assert(mask / 4 == mask / 2 / 2 && mask / 8 == mask / 4 / 2);
    assert(mask / 8 < 2);
}

/// Whether `left` and `top` are the masks of a column and a row.
pub open spec fn have_codes(left: int, top: int, column: int, row: int) -> bool {
    has_code(left, column) && has_code(top, row)
}

/// Whether `value` is what the search texture holds for the codes of a column
/// and a row, for searches to the left or to the right: codes of no edges hold
/// zero.
pub open spec fn is_search_entry(column: int, row: int, leftward: bool, value: u8) -> bool {
    if exists|left: int, top: int| #[trigger] have_codes(left, top, column, row) {
        exists|left: int, top: int| #[trigger]
            have_codes(left, top, column, row) && value == 127 * (if leftward {
                left_distance(edges(left), edges(top))
            } else {
                right_distance(edges(left), edges(top))
            })
    } else {
        value == 0
    }
}

/// Whether `value` is the search texture's value at column `x` and row `y`:
/// the left half holds searches to the left, the right half searches to the
/// right, and rows are stored upside down.
pub open spec fn is_search_value(x: int, y: int, value: u8) -> bool {
    if x < 33 {
        is_search_entry(x, 32 - y, true, value)
    } else {
        is_search_entry(x - 33, 32 - y, false, value)
    }
}

/// The edges whose code is `code`.
fn edges_of_code(code: usize) -> (found: Option<[u8; 4]>)
    ensures
        match found {
            Some(bits) => exists|mask: int| has_code(mask, code as int) && bits@ == edges(mask),
            None => forall|mask: int| !has_code(mask, code as int),
        },
{
    let mut mask: u8 = 0;
    while mask < 16
        invariant
            mask <= 16,
            forall|m: int| 0 <= m < mask ==> !has_code(m, code as int),
        decreases 16 - mask,
    {
        let bits = [mask % 2, mask / 2 % 2, mask / 4 % 2, mask / 8 % 2];
        assert(bits@ =~= edges(mask as int));
        if bilinear_code(bits) == code {
            assert(has_code(mask as int, code as int));
            return Some(bits);
        }
        mask += 1;
    }
    None
}

fn search_value(x: usize, y: usize) -> (value: u8)
    requires
        x < 64,
        y < 16,
    ensures
        is_search_value(x as int, y as int, value),
{
    let column: usize = if x < 33 {
        x
    } else {
        x - 33
    };
    let row: usize = 32 - y;
    let left = match edges_of_code(column) {
        Some(left) => left,
        None => {
            return 0;
        },
    };
    let top = match edges_of_code(row) {
        Some(top) => top,
        None => {
            return 0;
        },
    };
    let ghost l = choose|mask: int| has_code(mask, column as int) && left@ == edges(mask);
    let ghost t = choose|mask: int| has_code(mask, row as int) && top@ == edges(mask);
    let value: u8 = if x < 33 {
        127 * delta_left(left, top)
    } else {
        127 * delta_right(left, top)
    };
    proof {
        assert(have_codes(l, t, column as int, row as int));
    }
    value
}

/// The search texture, one byte per texel in row order.
pub fn build_search_texture() -> (pixels: Vec<u8>)
    ensures
        pixels@.len() == SEARCH_WIDTH * SEARCH_HEIGHT,
        forall|j: int|
            0 <= j < pixels@.len() ==> is_search_value(j % 64, j / 64, #[trigger] pixels@[j]),
{
    let mut pixels: Vec<u8> = Vec::new();
    let mut j: usize = 0;
    while j < 1024
        invariant
            j <= 1024,
            pixels@.len() == j,
            forall|k: int| 0 <= k < j ==> is_search_value(k % 64, k / 64, #[trigger] pixels@[k]),
        decreases 1024 - j,
    {
        pixels.push(search_value(j % 64, j / 64));
        j += 1;
    }
    pixels
}

/// The slot of an orthogonal pattern.
pub open spec fn ortho_slot(pattern: int) -> (int, int) {
    (3 * (pattern % 2) + pattern / 4 % 2, 3 * (pattern / 2 % 2) + pattern / 8 % 2)
}

/// The slot of a diagonal pattern.
pub open spec fn diag_slot(pattern: int) -> (int, int) {
    (pattern % 2 + 2 * (pattern / 4 % 2), 2 * (pattern / 2 % 2) + pattern / 8 % 2)
}

/// What a pixel of the area texture holds.
#[derive(Clone, Copy, Debug, PartialEq, Eq, Structural)]
pub enum AreaTexel {
    /// Nothing.
    Empty,
    /// The areas of an orthogonal pattern for a subsample offset, `x` and `y`
    /// texels away from its ends.
    Ortho { offset: usize, pattern: usize, x: usize, y: usize },
    /// The areas of a diagonal pattern for a subsample offset, `x` and `y`
    /// pixels away from its ends.
    Diag { offset: usize, pattern: usize, x: usize, y: usize },
}

/// Whether the texel at `(px, py)` is the one of `texel`, by the slots of the
/// patterns.
pub open spec fn is_placed_at(texel: AreaTexel, px: int, py: int) -> bool {
    match texel {
        AreaTexel::Empty => false,
        AreaTexel::Ortho { offset, pattern, x, y } => offset < 7 && pattern < 16 && x < 16 && y < 16
            && px == ortho_slot(pattern as int).0 * 16 + x && py == offset * 80 + ortho_slot(
            pattern as int,
        ).1 * 16 + y,
        AreaTexel::Diag { offset, pattern, x, y } => offset < 5 && pattern < 16 && x < 20 && y < 20
            && px == 80 + diag_slot(pattern as int).0 * 20 + x && py == offset * 80 + diag_slot(
            pattern as int,
        ).1 * 20 + y,
    }
}

proof fn slots_stay_in_range(pattern: int)
    requires
        0 <= pattern < 16,
    ensures
        ({
            let ortho = ortho_slot(pattern);
            let diag = diag_slot(pattern);
            &&& pattern % 2 == ortho.0 / 3 && pattern / 4 % 2 == ortho.0 % 3
            &&& pattern / 2 % 2 == ortho.1 / 3 && pattern / 8 % 2 == ortho.1 % 3
            &&& 0 <= ortho.0 < 5 && 0 <= ortho.1 < 5
            &&& pattern % 2 == diag.0 % 2 && pattern / 4 % 2 == diag.0 / 2
            &&& pattern / 2 % 2 == diag.1 / 2 && pattern / 8 % 2 == diag.1 % 2
            &&& 0 <= diag.0 < 4 && 0 <= diag.1 < 4
            &&& pattern == pattern % 2 + 2 * (pattern / 2 % 2) + 4 * (pattern / 4 % 2) + 8 * (
            pattern / 8 % 2)
        }),
{
    mask_is_sum_of_bits(pattern);
    assert(edges(pattern)[0] == pattern % 2);
    assert(edges(pattern)[1] == pattern / 2 % 2);
    assert(edges(pattern)[2] == pattern / 4 % 2);
    assert(edges(pattern)[3] == pattern / 8 % 2);
}

proof fn patterns_from_bits(b0: int, b1: int, b2: int, b3: int)
    requires
        0 <= b0 < 2,
        0 <= b1 < 2,
        0 <= b2 < 2,
        0 <= b3 < 2,
    ensures
        ({
            let pattern = b0 + 2 * b1 + 4 * b2 + 8 * b3;
            &&& 0 <= pattern < 16
            &&& pattern % 2 == b0
            &&& pattern / 2 % 2 == b1
            &&& pattern / 4 % 2 == b2
            &&& pattern / 8 % 2 == b3
        }),
{
}

proof fn ortho_coordinates(offset: int, slot_x: int, slot_y: int, x: int, y: int, px: int, py: int)
    requires
        0 <= offset < 7,
        0 <= slot_x < 5,
        0 <= slot_y < 5,
        0 <= x < 16,
        0 <= y < 16,
        px == slot_x * 16 + x,
        py == offset * 80 + slot_y * 16 + y,
    ensures
        px < 80,
        py < 560,
        px / 16 == slot_x,
        px % 16 == x,
        py / 80 == offset,
        py % 80 / 16 == slot_y,
        py % 80 % 16 == y,
{
}

proof fn diag_coordinates(offset: int, slot_x: int, slot_y: int, x: int, y: int, px: int, py: int)
    requires
        0 <= offset < 5,
        0 <= slot_x < 4,
        0 <= slot_y < 4,
        0 <= x < 20,
        0 <= y < 20,
        px == 80 + slot_x * 20 + x,
        py == offset * 80 + slot_y * 20 + y,
    ensures
        80 <= px < 160,
        py < 400,
        (px - 80) / 20 == slot_x,
        (px - 80) % 20 == x,
        py / 80 == offset,
        py % 80 / 20 == slot_y,
        py % 80 % 20 == y,
{
}

/// The coordinates of a pixel give back what is placed at it.
proof fn placed_coordinates(texel: AreaTexel, px: int, py: int)
    requires
        is_placed_at(texel, px, py),
    ensures
        0 <= px < 160,
        0 <= py < 560,
        match texel {
            AreaTexel::Empty => false,
            AreaTexel::Ortho { offset, pattern, x, y } => {
                &&& px < 80
                &&& px / 16 % 3 < 2
                &&& py % 80 / 16 % 3 < 2
                &&& pattern == px / 16 / 3 + 2 * (py % 80 / 16 / 3) + 4 * (px / 16 % 3) + 8 * (py
                    % 80 / 16 % 3)
                &&& offset == py / 80
                &&& x == px % 16
                &&& y == py % 80 % 16
            },
            AreaTexel::Diag { offset, pattern, x, y } => {
                &&& px >= 80
                &&& py < 400
                &&& pattern == (px - 80) / 20 % 2 + 2 * (py % 80 / 20 / 2) + 4 * ((px - 80) / 20
                    / 2) + 8 * (py % 80 / 20 % 2)
                &&& offset == py / 80
                &&& x == (px - 80) % 20
                &&& y == py % 80 % 20
            },
        },
{
    match texel {
        AreaTexel::Ortho { offset, pattern, x, y } => {
            slots_stay_in_range(pattern as int);
            let slot = ortho_slot(pattern as int);
            ortho_coordinates(offset as int, slot.0, slot.1, x as int, y as int, px, py);
        },
        AreaTexel::Diag { offset, pattern, x, y } => {
            slots_stay_in_range(pattern as int);
            let slot = diag_slot(pattern as int);
            diag_coordinates(offset as int, slot.0, slot.1, x as int, y as int, px, py);
        },
        _ => {},
    }
}

/// No two patterns, offsets or distances share a texel of the area texture.
pub proof fn area_texels_are_distinct(a: AreaTexel, b: AreaTexel, px: int, py: int)
    requires
        is_placed_at(a, px, py),
        is_placed_at(b, px, py),
    ensures
        a == b,
        0 <= px < AREA_WIDTH,
        0 <= py < AREA_HEIGHT,
{
    placed_coordinates(a, px, py);
    placed_coordinates(b, px, py);
}

/// What the pixel at `(px, py)` of the area texture holds.
fn area_texel(px: usize, py: usize) -> (texel: AreaTexel)
    requires
        px < 160,
        py < 560,
    ensures
        texel is Empty ==> forall|other: AreaTexel| !is_placed_at(other, px as int, py as int),
        texel is Empty || is_placed_at(texel, px as int, py as int),
{
    let offset: usize = py / 80;
    if px < 80 {
        let slot_x: usize = px / 16;
        let slot_y: usize = py % 80 / 16;
        if slot_x % 3 < 2 && slot_y % 3 < 2 {
            let pattern: usize = slot_x / 3 + 2 * (slot_y / 3) + 4 * (slot_x % 3) + 8 * (slot_y
                % 3);
            proof {
                patterns_from_bits(
                    slot_x as int / 3,
                    slot_y as int / 3,
                    slot_x as int % 3,
                    slot_y as int % 3,
                );
            }
            return AreaTexel::Ortho { offset, pattern, x: px % 16, y: py % 80 % 16 };
        }
    } else if py < 400 {
        let slot_x: usize = (px - 80) / 20;
        let slot_y: usize = py % 80 / 20;
        let pattern: usize = slot_x % 2 + 2 * (slot_y / 2) + 4 * (slot_x / 2) + 8 * (slot_y % 2);
        proof {
            patterns_from_bits(
                slot_x as int % 2,
                slot_y as int / 2,
                slot_x as int / 2,
                slot_y as int % 2,
            );
        }
        return AreaTexel::Diag { offset, pattern, x: (px - 80) % 20, y: py % 80 % 20 };
    }
    proof {
        assert forall|other: AreaTexel| !is_placed_at(other, px as int, py as int) by {
            if is_placed_at(other, px as int, py as int) {
                placed_coordinates(other, px as int, py as int);
            }
        }
    }
    AreaTexel::Empty
}

/// Whether `pair` is what the pixel of `texel` holds.
pub open spec fn is_area_pair<
    F: Fn(usize, usize, usize, usize) -> (u8, u8),
    G: Fn(usize, usize, usize, usize) -> (u8, u8),
>(ortho: F, diag: G, texel: AreaTexel, pair: (u8, u8)) -> bool {
    match texel {
        AreaTexel::Empty => pair == (0u8, 0u8),
        AreaTexel::Ortho { offset, pattern, x, y } => call_ensures(
            ortho,
            (offset, pattern, x, y),
            pair,
        ),
        AreaTexel::Diag { offset, pattern, x, y } => call_ensures(
            diag,
            (offset, pattern, x, y),
            pair,
        ),
    }
}

/// Whether pixel `j` of the area texture holds its pair and two zeros.
pub open spec fn is_area_pixel<
    F: Fn(usize, usize, usize, usize) -> (u8, u8),
    G: Fn(usize, usize, usize, usize) -> (u8, u8),
>(ortho: F, diag: G, pixels: Seq<u8>, j: int) -> bool {
    let pair = (pixels[4 * j], pixels[4 * j + 1]);
    &&& pixels[4 * j + 2] == 0
    &&& pixels[4 * j + 3] == 0
    &&& if exists|texel: AreaTexel| #[trigger] is_placed_at(texel, j % 160, j / 160) {
        exists|texel: AreaTexel| #[trigger]
            is_placed_at(texel, j % 160, j / 160) && is_area_pair(ortho, diag, texel, pair)
    } else {
        pair == (0u8, 0u8)
    }
}

/// The area texture, four bytes per texel in row order: `ortho` and `diag` give
/// the encoded pair of areas for a subsample offset, a pattern and the two
/// distances.
pub fn build_area_texture<
    F: Fn(usize, usize, usize, usize) -> (u8, u8),
    G: Fn(usize, usize, usize, usize) -> (u8, u8),
>(ortho: F, diag: G) -> (pixels: Vec<u8>)
    requires
        forall|offset: usize, pattern: usize, x: usize, y: usize|
            offset < 7 && pattern < 16 && x < 16 && y < 16 ==> #[trigger] call_requires(
                ortho,
                (offset, pattern, x, y),
            ),
        forall|offset: usize, pattern: usize, x: usize, y: usize|
            offset < 5 && pattern < 16 && x < 20 && y < 20 ==> #[trigger] call_requires(
                diag,
                (offset, pattern, x, y),
            ),
    ensures
        pixels@.len() == AREA_WIDTH * AREA_HEIGHT * 4,
        forall|j: int|
            0 <= j < AREA_WIDTH * AREA_HEIGHT ==> #[trigger] is_area_pixel(ortho, diag, pixels@, j),
{
    let mut pixels: Vec<u8> = Vec::new();
    let mut j: usize = 0;
    while j < 89600
        invariant
            j <= 89600,
            pixels@.len() == 4 * j,
            forall|offset: usize, pattern: usize, x: usize, y: usize|
                offset < 7 && pattern < 16 && x < 16 && y < 16 ==> #[trigger] call_requires(
                    ortho,
                    (offset, pattern, x, y),
                ),
            forall|offset: usize, pattern: usize, x: usize, y: usize|
                offset < 5 && pattern < 16 && x < 20 && y < 20 ==> #[trigger] call_requires(
                    diag,
                    (offset, pattern, x, y),
                ),
            forall|k: int| 0 <= k < j ==> #[trigger] is_area_pixel(ortho, diag, pixels@, k),
        decreases 89600 - j,
    {
        let texel = area_texel(j % 160, j / 160);
        let pair: (u8, u8) = match texel {
            AreaTexel::Empty => (0, 0),
            AreaTexel::Ortho { offset, pattern, x, y } => ortho(offset, pattern, x, y),
            AreaTexel::Diag { offset, pattern, x, y } => diag(offset, pattern, x, y),
        };
        let ghost before = pixels@;
        pixels.push(pair.0);
        pixels.push(pair.1);
        pixels.push(0);
        pixels.push(0);
        proof {
            assert forall|k: int| 0 <= k < j + 1 implies #[trigger] is_area_pixel(
                ortho,
                diag,
                pixels@,
                k,
            ) by {
                if k < j {
                    assert(is_area_pixel(ortho, diag, before, k));
                } else {
                    if !(texel is Empty) {
                        assert(is_placed_at(texel, k % 160, k / 160));
                        assert(is_area_pair(ortho, diag, texel, pair));
                    }
                    assert((pixels@[4 * k], pixels@[4 * k + 1]) == pair);
                }
            }
        }
        j += 1;
    }
    pixels
}

/// The code of four edges is what a sample between them reads, in parts of 32:
/// the weight of each edge is the product of one part and three parts across and
/// one part and seven parts along, and all together make a whole.
pub proof fn edge_weights_make_a_whole(bits: Seq<u8>)
    requires
        bits.len() == 4,
    ensures
        weighted(bits) == (bits[0] + 3 * bits[1]) + 7 * (bits[2] + 3 * bits[3]),
        bits == seq![1u8, 1u8, 1u8, 1u8] ==> weighted(bits) == 32,
        bits == seq![0u8, 0u8, 0u8, 0u8] ==> weighted(bits) == 0,
{
}

/// A search to the left moves by a texel only along an edge, and by a second one
/// only where the edge goes on and nothing crosses it.
pub proof fn searches_to_the_left_follow_the_edge(left: Seq<u8>, top: Seq<u8>)
    ensures
        0 <= left_distance(left, top) <= 2,
        left_distance(left, top) == 0 <==> top[3] != 1,
        left_distance(left, top) == 2 <==> top[3] == 1 && top[2] == 1 && left[1] != 1 && left[3]
            != 1,
{
}

/// A search to the right moves by a texel only along an edge that nothing
/// crosses, and by a second one only where the edge goes on uncrossed.
pub proof fn searches_to_the_right_follow_the_edge(left: Seq<u8>, top: Seq<u8>)
    ensures
        0 <= right_distance(left, top) <= 2,
        right_distance(left, top) == 0 <==> top[3] != 1 || left[1] == 1 || left[3] == 1,
        right_distance(left, top) == 2 <==> top[3] == 1 && left[1] != 1 && left[3] != 1 && top[2]
            == 1 && left[0] != 1 && left[2] != 1,
        right_distance(left, top) <= left_distance(left, top),
{
}

/// A texel of the search texture holds the distance for the two codes of its
/// place, 127 for each texel that the search moves: the left half for searches
/// to the left, the right half for those to the right, the rows from the bottom
/// up.
pub proof fn search_texels_hold_their_distance(
    x: int,
    y: int,
    value: u8,
    left: int,
    top: int,
)
    requires
        0 <= x < 64,
        0 <= y < 16,
        is_search_value(x, y, value),
        0 <= left < 16,
        0 <= top < 16,
        weighted(edges(top)) == 32 - y,
    ensures
        x < 33 && weighted(edges(left)) == x ==> value == 127 * left_distance(
            edges(left),
            edges(top),
        ),
        33 <= x && weighted(edges(left)) == x - 33 ==> value == 127 * right_distance(
            edges(left),
            edges(top),
        ),
{
    let column = if x < 33 {
        x
    } else {
        x - 33
    };
    if weighted(edges(left)) == column {
        assert(have_codes(left, top, column, 32 - y));
        let (l, t) = choose|l: int, t: int| #[trigger]
            have_codes(l, t, column, 32 - y) && value == 127 * (if x < 33 {
                left_distance(edges(l), edges(t))
            } else {
                right_distance(edges(l), edges(t))
            });
        codes_are_distinct(l, left, column);
        codes_are_distinct(t, top, 32 - y);
    }
}

/// The bits of a mask are its edges, the lowest first.
pub proof fn masks_list_their_edges(mask: int)
    requires
        0 <= mask < 16,
    ensures
        edges(mask).len() == 4,
        edges(mask)[0] + 2 * edges(mask)[1] + 4 * edges(mask)[2] + 8 * edges(mask)[3] == mask,
        forall|i: int| 0 <= i < 4 ==> #[trigger] edges(mask)[i] <= 1,
{
}

proof fn bits_of_a_pattern(a: int, b: int, c: int, d: int)
    requires
        0 <= a <= 1 && 0 <= b <= 1 && 0 <= c <= 1 && 0 <= d <= 1,
    ensures
        ({
            let pattern = a + 2 * b + 4 * c + 8 * d;
            &&& 0 <= pattern < 16
            &&& pattern % 2 == a
            &&& pattern / 2 % 2 == b
            &&& pattern / 4 % 2 == c
            &&& pattern / 8 % 2 == d
        }),
{
}

proof fn placed_texels_are_held<
    F: Fn(usize, usize, usize, usize) -> (u8, u8),
    G: Fn(usize, usize, usize, usize) -> (u8, u8),
>(ortho: F, diag: G, pixels: Seq<u8>, own: AreaTexel, px: int, py: int)
    requires
        is_placed_at(own, px, py),
        is_area_pixel(ortho, diag, pixels, 160 * py + px),
    ensures
        ({
            let at = 4 * (160 * py + px);
            &&& is_area_pair(ortho, diag, own, (pixels[at], pixels[at + 1]))
            &&& pixels[at + 2] == 0 && pixels[at + 3] == 0
        }),
{
    area_texels_are_distinct(own, own, px, py);
    let j = 160 * py + px;
    assert(j % 160 == px && j / 160 == py);
    let pair = (pixels[4 * j], pixels[4 * j + 1]);
    let texel = choose|texel: AreaTexel| #[trigger]
        is_placed_at(texel, j % 160, j / 160) && is_area_pair(ortho, diag, texel, pair);
    area_texels_are_distinct(own, texel, px, py);
}

/// A texel of the left half of the area texture holds the areas of an
/// orthogonal pattern: its left and right edges place it across, three cells
/// for a crossing and one for the other side, its top and bottom edges along,
/// and each offset has a block of rows of its own.
pub proof fn orthogonal_texels_hold_their_areas<
    F: Fn(usize, usize, usize, usize) -> (u8, u8),
    G: Fn(usize, usize, usize, usize) -> (u8, u8),
>(
    ortho: F,
    diag: G,
    pixels: Seq<u8>,
    offset: usize,
    edges: Seq<usize>,
    pattern: usize,
    x: usize,
    y: usize,
)
    requires
        offset < 7,
        x < 16,
        y < 16,
        edges.len() == 4,
        edges[0] <= 1 && edges[1] <= 1 && edges[2] <= 1 && edges[3] <= 1,
        pattern == edges[0] + 2 * edges[1] + 4 * edges[2] + 8 * edges[3],
        ({
            let px = 16 * (3 * edges[0] + edges[2]) + x;
            let py = 80 * offset + 16 * (3 * edges[1] + edges[3]) + y;
            is_area_pixel(ortho, diag, pixels, 160 * py + px)
        }),
    ensures
        ({
            let px = 16 * (3 * edges[0] + edges[2]) + x;
            let py = 80 * offset + 16 * (3 * edges[1] + edges[3]) + y;
            let at = 4 * (160 * py + px);
            &&& call_ensures(ortho, (offset, pattern, x, y), (pixels[at], pixels[at + 1]))
            &&& pixels[at + 2] == 0 && pixels[at + 3] == 0
        }),
{
    let px = 16 * (3 * edges[0] + edges[2]) + x;
    let py = 80 * offset + 16 * (3 * edges[1] + edges[3]) + y;
    let own = AreaTexel::Ortho { offset, pattern, x, y };
    bits_of_a_pattern(edges[0] as int, edges[1] as int, edges[2] as int, edges[3] as int);
    assert(is_placed_at(own, px, py));
    placed_texels_are_held(ortho, diag, pixels, own, px, py);
}

/// A texel of the right half of the area texture holds the areas of a diagonal
/// pattern: two of its edges place it across and the other two along, and each
/// offset has a block of rows of its own.
pub proof fn diagonal_texels_hold_their_areas<
    F: Fn(usize, usize, usize, usize) -> (u8, u8),
    G: Fn(usize, usize, usize, usize) -> (u8, u8),
>(
    ortho: F,
    diag: G,
    pixels: Seq<u8>,
    offset: usize,
    edges: Seq<usize>,
    pattern: usize,
    x: usize,
    y: usize,
)
    requires
        offset < 5,
        x < 20,
        y < 20,
        edges.len() == 4,
        edges[0] <= 1 && edges[1] <= 1 && edges[2] <= 1 && edges[3] <= 1,
        pattern == edges[0] + 2 * edges[1] + 4 * edges[2] + 8 * edges[3],
        ({
            let px = 80 + 20 * (edges[0] + 2 * edges[2]) + x;
            let py = 80 * offset + 20 * (2 * edges[1] + edges[3]) + y;
            is_area_pixel(ortho, diag, pixels, 160 * py + px)
        }),
    ensures
        ({
            let px = 80 + 20 * (edges[0] + 2 * edges[2]) + x;
            let py = 80 * offset + 20 * (2 * edges[1] + edges[3]) + y;
            let at = 4 * (160 * py + px);
            &&& call_ensures(diag, (offset, pattern, x, y), (pixels[at], pixels[at + 1]))
            &&& pixels[at + 2] == 0 && pixels[at + 3] == 0
        }),
{
    let px = 80 + 20 * (edges[0] + 2 * edges[2]) + x;
    let py = 80 * offset + 20 * (2 * edges[1] + edges[3]) + y;
    let own = AreaTexel::Diag { offset, pattern, x, y };
    bits_of_a_pattern(edges[0] as int, edges[1] as int, edges[2] as int, edges[3] as int);
    assert(is_placed_at(own, px, py));
    placed_texels_are_held(ortho, diag, pixels, own, px, py);
}

} // verus!
