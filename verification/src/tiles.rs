use std::collections::HashSet;

use vstd::prelude::*;
use vstd::std_specs::hash::group_hash_axioms;
use vstd::wrapping::i32_specs;

use crate::level::CollisionKind;

verus! {

broadcast use group_hash_axioms;

/// The number of columns of a ground tileset atlas.
pub const GROUND_TILE_COLUMNS: usize = 6;

/// The number of rows of a ground tileset atlas.
pub const GROUND_TILE_ROWS: usize = 15;

/// The 64-bit key under which grid cell `(gx, gy)` is stored: the two
/// coordinates' 32-bit patterns side by side.
pub open spec fn cell_key(gx: i32, gy: i32) -> u64 {
    (((gx as u32) as int) * 0x1_0000_0000 + ((gy as u32) as int)) as u64
}

proof fn lemma_cell_key_injective(a: i32, b: i32, c: i32, d: i32)
    requires
        cell_key(a, b) == cell_key(c, d),
    ensures
        a == c && b == d,
{
    let ua = a as u32;
    let ub = b as u32;
    let uc = c as u32;
    let ud = d as u32;
    assert((ua as int) * 0x1_0000_0000 + (ub as int) == (uc as int) * 0x1_0000_0000 + (ud as int));
    assert(ua == uc && ub == ud) by (nonlinear_arith)
        requires
            (ua as int) * 0x1_0000_0000 + (ub as int) == (uc as int) * 0x1_0000_0000 + (ud as int),
            0 <= ub < 0x1_0000_0000,
            0 <= ud < 0x1_0000_0000,
    ;
    assert(a == c) by (bit_vector)
        requires
            a as u32 == c as u32,
    ;
    assert(b == d) by (bit_vector)
        requires
            b as u32 == d as u32,
    ;
}

/// The grid cells covered by solid ground, one tile each.
pub struct SolidCells {
    pub keys: HashSet<u64>,
}

impl SolidCells {
    /// Cell `(gx, gy)` is solid.
    pub open spec fn has(&self, gx: i32, gy: i32) -> bool {
        self.keys@.contains(cell_key(gx, gy))
    }

    /// No cell is solid.
    pub fn new() -> (res: SolidCells)
        ensures
            forall|gx: i32, gy: i32| !res.has(gx, gy),
    {
        SolidCells { keys: HashSet::new() }
    }

    /// Marks cell `(gx, gy)` solid.
    pub fn insert(&mut self, gx: i32, gy: i32)
        ensures
            forall|x: i32, y: i32| final(self).has(x, y) <==> (old(self).has(x, y) || (x == gx && y == gy)),
    {
        let key = ((gx as u32) as u64) * 0x1_0000_0000u64 + ((gy as u32) as u64);
        assert(key == cell_key(gx, gy));
        self.keys.insert(key);
        assert forall|x: i32, y: i32| final(self).has(x, y) implies (old(self).has(x, y) || (x == gx && y == gy)) by {
            if cell_key(x, y) == key {
                lemma_cell_key_injective(x, y, gx, gy);
            }
        }
    }

    /// Whether cell `(gx, gy)` is solid.
    pub fn contains(&self, gx: i32, gy: i32) -> (res: bool)
        ensures
            res == self.has(gx, gy),
    {
        let key = ((gx as u32) as u64) * 0x1_0000_0000u64 + ((gy as u32) as u64);
        assert(key == cell_key(gx, gy));
        self.keys.contains(&key)
    }
}

/// Which sides of cell `(gx, gy)` face no solid cell: 1 above, 2 below,
/// 4 left, 8 right, added up.
pub open spec fn exposure_mask(cells: SolidCells, gx: i32, gy: i32) -> u8 {
    ((if !cells.has(gx, (gy + 1) as i32) { 1int } else { 0 }) + (if !cells.has(gx, (gy - 1) as i32) {
        2int
    } else {
        0
    }) + (if !cells.has((gx - 1) as i32, gy) { 4int } else { 0 }) + (if !cells.has((gx + 1) as i32, gy) {
        8int
    } else {
        0
    })) as u8
}

/// Which sides of cell `(gx, gy)` face no solid cell (see `exposure_mask`).
pub fn tile_exposure_mask(gx: i32, gy: i32, solid_cells: &SolidCells) -> (res: u8)
    requires
        i32::MIN < gx < i32::MAX,
        i32::MIN < gy < i32::MAX,
    ensures
        res == exposure_mask(*solid_cells, gx, gy),
        res < 16,
{
    let mut mask: u8 = 0;
    if !solid_cells.contains(gx, gy + 1) {
        mask = mask + 1;
    }
    if !solid_cells.contains(gx, gy - 1) {
        mask = mask + 2;
    }
    if !solid_cells.contains(gx - 1, gy) {
        mask = mask + 4;
    }
    if !solid_cells.contains(gx + 1, gy) {
        mask = mask + 8;
    }
    mask
}

/// The tiles a ground cell with the given exposure can be drawn with.
pub open spec fn dirt_candidates(mask: u8) -> Seq<usize> {
    if mask == 1 {
        seq![3]
    } else if mask == 2 {
        seq![6]
    } else if mask == 4 {
        seq![13, 14, 16]
    } else if mask == 8 {
        seq![19]
    } else if mask == 5 {
        seq![12, 66, 67, 68, 69]
    } else if mask == 9 {
        seq![0, 1, 18, 20, 72, 73, 74, 75]
    } else if mask == 6 {
        seq![8, 9, 78, 79, 80, 81]
    } else if mask == 10 {
        seq![7, 84, 85, 86, 87]
    } else if mask == 3 {
        seq![3, 6]
    } else if mask == 12 {
        seq![13, 19]
    } else if mask == 7 {
        seq![24, 26, 27, 48, 49, 50, 51]
    } else if mask == 11 {
        seq![25, 27, 54, 55, 56, 57, 62]
    } else if mask == 13 {
        seq![30, 32, 33, 36, 37, 38, 39]
    } else if mask == 14 {
        seq![31, 42, 43, 44, 45]
    } else if mask == 15 {
        seq![60, 61, 63]
    } else {
        seq![4, 5]
    }
}

/// The pseudo-random number that picks among a cell's candidate tiles.
pub open spec fn tile_seed(gx: i32, gy: i32) -> nat {
    let v = i32_specs::wrapping_mul(gx, 73856093) ^ i32_specs::wrapping_mul(gy, 19349663);
    if v < 0 {
        (-(v as int)) as nat
    } else {
        v as nat
    }
}

/// The atlas tile that ground cell `(gx, gy)` with exposure `mask` is drawn
/// with: the full-interior tile when no side is exposed, else the candidate
/// that the cell's seed picks.
pub open spec fn dirt_tile(mask: u8, gx: i32, gy: i32) -> usize {
    if mask == 0 {
        5
    } else {
        dirt_candidates(mask)[(tile_seed(gx, gy) % dirt_candidates(mask).len()) as int]
    }
}

/// The atlas tile that ground cell `(gx, gy)` is drawn with (see
/// `dirt_tile`).
pub fn choose_dirt_tile(mask: u8, gx: i32, gy: i32) -> (res: usize)
    ensures
        res == dirt_tile(mask, gx, gy),
{
    if mask == 0 {
        return 5;
    }
    let candidates: Vec<usize> = if mask == 1 {
        vec![3]
    } else if mask == 2 {
        vec![6]
    } else if mask == 4 {
        vec![13, 14, 16]
    } else if mask == 8 {
        vec![19]
    } else if mask == 5 {
        vec![12, 66, 67, 68, 69]
    } else if mask == 9 {
        vec![0, 1, 18, 20, 72, 73, 74, 75]
    } else if mask == 6 {
        vec![8, 9, 78, 79, 80, 81]
    } else if mask == 10 {
        vec![7, 84, 85, 86, 87]
    } else if mask == 3 {
        vec![3, 6]
    } else if mask == 12 {
        vec![13, 19]
    } else if mask == 7 {
        vec![24, 26, 27, 48, 49, 50, 51]
    } else if mask == 11 {
        vec![25, 27, 54, 55, 56, 57, 62]
    } else if mask == 13 {
        vec![30, 32, 33, 36, 37, 38, 39]
    } else if mask == 14 {
        vec![31, 42, 43, 44, 45]
    } else if mask == 15 {
        vec![60, 61, 63]
    } else {
        vec![4, 5]
    };
    assert(candidates@ =~= dirt_candidates(mask));
    let v: i32 = gx.wrapping_mul(73856093) ^ gy.wrapping_mul(19349663);
    let seed: u32 = if v < 0 {
        (-(v as i64)) as u32
    } else {
        v as u32
    };
    assert(seed == tile_seed(gx, gy));
    let index = (seed as usize) % candidates.len();
    candidates[index]
}

/// Every tile that a ground cell is drawn with lies in the tileset atlas.
pub proof fn lemma_dirt_tile_in_atlas(mask: u8, gx: i32, gy: i32)
    ensures
        dirt_tile(mask, gx, gy) < GROUND_TILE_COLUMNS * GROUND_TILE_ROWS,
{
    if mask != 0 {
        let c = dirt_candidates(mask);
        let i = (tile_seed(gx, gy) % c.len()) as int;
        assert(0 <= i < c.len());
        assert(forall|k: int| 0 <= k < c.len() ==> c[k] < 90);
    }
}


/// A ground cell exposed on one side only is drawn with an edge tile of that
/// side: tile 3 for the top, 6 for the bottom, 19 for the right, and one of
/// 13, 14, 16 for the left.
pub proof fn lemma_single_side_edge_tiles(gx: i32, gy: i32)
    ensures
        dirt_tile(1, gx, gy) == 3,
        dirt_tile(2, gx, gy) == 6,
        dirt_tile(8, gx, gy) == 19,
        dirt_tile(4, gx, gy) == 13 || dirt_tile(4, gx, gy) == 14 || dirt_tile(4, gx, gy) == 16,
{
    let k = (tile_seed(gx, gy) % 3) as int;
    assert(0 <= k < 3);
    assert(dirt_candidates(4)[k] == 13 || dirt_candidates(4)[k] == 14 || dirt_candidates(4)[k] == 16);
}

/// Opposite edges never share a tile: wherever they stand, a cell exposed
/// only on its left and one exposed only on its right are drawn with
/// different tiles, and so are cells exposed only above and only below.
pub proof fn lemma_opposite_edges_differ(ax: i32, ay: i32, bx: i32, b_y: i32)
    ensures
        dirt_tile(4, ax, ay) != dirt_tile(8, bx, b_y),
        dirt_tile(1, ax, ay) != dirt_tile(2, bx, b_y),
{
    lemma_single_side_edge_tiles(ax, ay);
    lemma_single_side_edge_tiles(bx, b_y);
}

/// A cell exposed on two opposite sides is drawn with an edge tile of one of
/// them: exposed above and below (a one-cell-thick ledge), the top-edge or
/// bottom-edge tile of the same cell; exposed left and right (a one-cell-wide
/// pillar), the right-edge tile of the same cell or the left-edge tile 13.
pub proof fn lemma_thin_ledge_uses_an_edge(gx: i32, gy: i32)
    ensures
        dirt_tile(3, gx, gy) == dirt_tile(1, gx, gy) || dirt_tile(3, gx, gy) == dirt_tile(2, gx, gy),
        dirt_tile(12, gx, gy) == dirt_tile(8, gx, gy) || dirt_tile(12, gx, gy) == 13,
{
    lemma_single_side_edge_tiles(gx, gy);
    let k = (tile_seed(gx, gy) % 2) as int;
    assert(0 <= k < 2);
    assert(dirt_candidates(3)[k] == 3 || dirt_candidates(3)[k] == 6);
    assert(dirt_candidates(12)[k] == 13 || dirt_candidates(12)[k] == 19);
}

/// A rectangle of grid cells, bounds included on both ends.
#[derive(Clone, Copy, Debug, PartialEq, Eq, Structural)]
pub struct GridBounds {
    pub min_x: i32,
    pub max_x: i32,
    pub min_y: i32,
    pub max_y: i32,
}

/// The grid cells that a collision rectangle covers, with its kind.
#[derive(Clone, Copy, Debug, PartialEq, Eq, Structural)]
pub struct GridRect {
    pub kind: CollisionKind,
    pub bounds: GridBounds,
}

/// The collision kinds that are drawn as ground.
pub open spec fn solid_kind(kind: CollisionKind) -> bool {
    match kind {
        CollisionKind::SolidGround | CollisionKind::WallSurface | CollisionKind::OneWayPlatform => true,
        _ => false,
    }
}

pub open spec fn cell_in(b: GridBounds, x: i32, y: i32) -> bool {
    b.min_x <= x <= b.max_x && b.min_y <= y <= b.max_y
}

/// Cell `(x, y)` is covered by one of the first `n` rectangles of a solid
/// kind.
pub open spec fn covered(rects: Seq<GridRect>, n: int, x: i32, y: i32) -> bool {
    exists|k: int| 0 <= k < n && solid_kind(rects[k].kind) && #[trigger] cell_in(rects[k].bounds, x, y)
}

/// The cells covered by the rectangles of a solid kind.
pub fn collect_solid_cells(rects: &Vec<GridRect>) -> (res: SolidCells)
    ensures
        forall|x: i32, y: i32| res.has(x, y) <==> covered(rects@, rects@.len() as int, x, y),
{
    let mut cells = SolidCells::new();
    let mut k: usize = 0;
    while k < rects.len()
        invariant
            k <= rects@.len(),
            forall|x: i32, y: i32| cells.has(x, y) <==> covered(rects@, k as int, x, y),
        decreases rects@.len() - k,
    {
        let r = rects[k];
        let b = r.bounds;
        if r.kind == CollisionKind::SolidGround || r.kind == CollisionKind::WallSurface || r.kind
            == CollisionKind::OneWayPlatform {
            let mut gx: i64 = b.min_x as i64;
            while gx <= b.max_x as i64
                invariant
                    k < rects@.len(),
                    r == rects@[k as int],
                    b == r.bounds,
                    solid_kind(r.kind),
                    b.min_x <= gx,
                    gx == b.min_x || gx <= b.max_x as i64 + 1,
                    forall|x: i32, y: i32|
                        cells.has(x, y) <==> (covered(rects@, k as int, x, y) || (b.min_x <= x < gx
                            && b.min_y <= y <= b.max_y)),
                decreases b.max_x as i64 + 1 - gx,
            {
                let mut gy: i64 = b.min_y as i64;
                while gy <= b.max_y as i64
                    invariant
                        k < rects@.len(),
                        r == rects@[k as int],
                        b == r.bounds,
                        solid_kind(r.kind),
                        b.min_x <= gx <= b.max_x,
                        b.min_y <= gy,
                        gy == b.min_y || gy <= b.max_y as i64 + 1,
                        forall|x: i32, y: i32|
                            cells.has(x, y) <==> (covered(rects@, k as int, x, y) || (b.min_x <= x
                                < gx && b.min_y <= y <= b.max_y) || (x == gx && b.min_y <= y < gy)),
                    decreases b.max_y as i64 + 1 - gy,
                {
                    cells.insert(gx as i32, gy as i32);
                    gy = gy + 1;
                }
                gx = gx + 1;
            }
        }
        proof {
            assert forall|x: i32, y: i32| cells.has(x, y) <==> covered(rects@, k + 1, x, y) by {
                if covered(rects@, k + 1, x, y) && !covered(rects@, k as int, x, y) {
                    let j = choose|j: int|
                        0 <= j < k + 1 && solid_kind(rects@[j].kind) && #[trigger] cell_in(
                            rects@[j].bounds,
                            x,
                            y,
                        );
                    assert(j == k);
                }
                if covered(rects@, k as int, x, y) {
                    let j = choose|j: int|
                        0 <= j < k && solid_kind(rects@[j].kind) && #[trigger] cell_in(
                            rects@[j].bounds,
                            x,
                            y,
                        );
                    assert(cell_in(rects@[j].bounds, x, y));
                }
                if solid_kind(r.kind) && cell_in(b, x, y) {
                    assert(cell_in(rects@[k as int].bounds, x, y));
                }
            }
        }
        k = k + 1;
    }
    cells
}


/// The way the spikes of a hazard point.
#[derive(Clone, Copy, Debug, PartialEq, Eq, Structural)]
pub enum HazardDirection {
    Up,
    Down,
    Left,
    Right,
}

/// How many cells `(x, y)` with `lo <= x <= hi` are solid.
pub open spec fn count_row(cells: SolidCells, lo: int, hi: int, y: i32) -> nat
    decreases hi - lo + 1,
{
    if hi < lo {
        0
    } else {
        count_row(cells, lo, hi - 1, y) + if cells.has(hi as i32, y) {
            1nat
        } else {
            0
        }
    }
}

/// How many cells `(x, y)` with `lo <= y <= hi` are solid.
pub open spec fn count_column(cells: SolidCells, x: i32, lo: int, hi: int) -> nat
    decreases hi - lo + 1,
{
    if hi < lo {
        0
    } else {
        count_column(cells, x, lo, hi - 1) + if cells.has(x, hi as i32) {
            1nat
        } else {
            0
        }
    }
}

/// The direction with the highest score; on a tie the one listed last wins,
/// as `Iterator::max_by_key` picks it.
pub open spec fn last_best(
    d0: HazardDirection,
    s0: nat,
    d1: HazardDirection,
    s1: nat,
    d2: HazardDirection,
    s2: nat,
    d3: HazardDirection,
    s3: nat,
) -> HazardDirection {
    let b01 = if s1 >= s0 { s1 } else { s0 };
    let d01 = if s1 >= s0 { d1 } else { d0 };
    let b012 = if s2 >= b01 { s2 } else { b01 };
    let d012 = if s2 >= b01 { d2 } else { d01 };
    if s3 >= b012 { d3 } else { d012 }
}

/// The way a hazard's spikes point, from the solid cells around it: a hazard
/// resting on ground points up, one under a ceiling points down, one on the
/// right side of a wall points right, one on the left side points left. Each
/// way scores the solid cells along the side it rests against; the best score
/// wins, ties going to the way listed last, where up, down, left, right are
/// listed first for a hazard at least as wide as it is tall and left, right,
/// up, down otherwise.
pub open spec fn hazard_direction(b: GridBounds, prefer_horizontal: bool, cells: SolidCells) -> HazardDirection {
    let up = count_row(cells, b.min_x as int, b.max_x as int, (b.min_y - 1) as i32);
    let down = count_row(cells, b.min_x as int, b.max_x as int, (b.max_y + 1) as i32);
    let right = count_column(cells, (b.min_x - 1) as i32, b.min_y as int, b.max_y as int);
    let left = count_column(cells, (b.max_x + 1) as i32, b.min_y as int, b.max_y as int);
    if prefer_horizontal {
        last_best(
            HazardDirection::Up,
            up,
            HazardDirection::Down,
            down,
            HazardDirection::Left,
            left,
            HazardDirection::Right,
            right,
        )
    } else {
        last_best(
            HazardDirection::Left,
            left,
            HazardDirection::Right,
            right,
            HazardDirection::Up,
            up,
            HazardDirection::Down,
            down,
        )
    }
}

proof fn lemma_count_row_bound(cells: SolidCells, lo: int, hi: int, y: i32)
    ensures
        count_row(cells, lo, hi, y) <= if hi < lo { 0 } else { hi - lo + 1 },
    decreases hi - lo + 1,
{
    if hi >= lo {
        lemma_count_row_bound(cells, lo, hi - 1, y);
    }
}

proof fn lemma_count_column_bound(cells: SolidCells, x: i32, lo: int, hi: int)
    ensures
        count_column(cells, x, lo, hi) <= if hi < lo { 0 } else { hi - lo + 1 },
    decreases hi - lo + 1,
{
    if hi >= lo {
        lemma_count_column_bound(cells, x, lo, hi - 1);
    }
}

fn solid_in_row(cells: &SolidCells, lo: i32, hi: i32, y: i32) -> (res: u64)
    ensures
        res == count_row(*cells, lo as int, hi as int, y),
{
    let mut count: u64 = 0;
    let mut x: i64 = lo as i64;
    while x <= hi as i64
        invariant
            lo <= x,
            x == lo || x <= hi as i64 + 1,
            count == count_row(*cells, lo as int, x - 1, y),
            count <= if x - 1 < lo { 0 } else { x - lo },
        decreases hi as i64 + 1 - x,
    {
        proof {
            lemma_count_row_bound(*cells, lo as int, x - 1, y);
        }
        if cells.contains(x as i32, y) {
            count = count + 1;
        }
        x = x + 1;
    }
    count
}

fn solid_in_column(cells: &SolidCells, x: i32, lo: i32, hi: i32) -> (res: u64)
    ensures
        res == count_column(*cells, x, lo as int, hi as int),
{
    let mut count: u64 = 0;
    let mut y: i64 = lo as i64;
    while y <= hi as i64
        invariant
            lo <= y,
            y == lo || y <= hi as i64 + 1,
            count == count_column(*cells, x, lo as int, y - 1),
            count <= if y - 1 < lo { 0 } else { y - lo },
        decreases hi as i64 + 1 - y,
    {
        proof {
            lemma_count_column_bound(*cells, x, lo as int, y - 1);
        }
        if cells.contains(x, y as i32) {
            count = count + 1;
        }
        y = y + 1;
    }
    count
}

/// The way a hazard's spikes point (see `hazard_direction`).
pub fn detect_hazard_direction(bounds: GridBounds, prefer_horizontal: bool, solid_cells: &SolidCells) -> (res:
    HazardDirection)
    requires
        i32::MIN < bounds.min_x,
        bounds.max_x < i32::MAX,
        i32::MIN < bounds.min_y,
        bounds.max_y < i32::MAX,
    ensures
        res == hazard_direction(bounds, prefer_horizontal, *solid_cells),
{
    let up = solid_in_row(solid_cells, bounds.min_x, bounds.max_x, bounds.min_y - 1);
    let down = solid_in_row(solid_cells, bounds.min_x, bounds.max_x, bounds.max_y + 1);
    let right = solid_in_column(solid_cells, bounds.min_x - 1, bounds.min_y, bounds.max_y);
    let left = solid_in_column(solid_cells, bounds.max_x + 1, bounds.min_y, bounds.max_y);
    let (d0, s0, d1, s1, d2, s2, d3, s3) = if prefer_horizontal {
        (
            HazardDirection::Up,
            up,
            HazardDirection::Down,
            down,
            HazardDirection::Left,
            left,
            HazardDirection::Right,
            right,
        )
    } else {
        (
            HazardDirection::Left,
            left,
            HazardDirection::Right,
            right,
            HazardDirection::Up,
            up,
            HazardDirection::Down,
            down,
        )
    };
    let mut best = d0;
    let mut best_score = s0;
    if s1 >= best_score {
        best = d1;
        best_score = s1;
    }
    if s2 >= best_score {
        best = d2;
        best_score = s2;
    }
    if s3 >= best_score {
        best = d3;
    }
    best
}


/// One ground tile to draw: its grid cell and its atlas tile.
#[derive(Clone, Copy, Debug, PartialEq, Eq, Structural)]
pub struct GroundTile {
    pub gx: i32,
    pub gy: i32,
    pub atlas_index: usize,
}

pub open spec fn ground_tile_at(cells: SolidCells, x: i32, y: i32) -> GroundTile {
    GroundTile { gx: x, gy: y, atlas_index: dirt_tile(exposure_mask(cells, x, y), x, y) }
}

/// The tiles of the solid cells `(x, y)` with `lo <= y <= hi`, bottom up.
pub open spec fn column_tiles(cells: SolidCells, x: i32, lo: int, hi: int) -> Seq<GroundTile>
    decreases hi - lo + 1,
{
    if hi < lo {
        seq![]
    } else {
        column_tiles(cells, x, lo, hi - 1) + if cells.has(x, hi as i32) {
            seq![ground_tile_at(cells, x, hi as i32)]
        } else {
            seq![]
        }
    }
}

/// The tiles of the solid cells of `b` in the columns up to `hi_x`, column
/// by column from the left, each column bottom up.
pub open spec fn rect_tiles(cells: SolidCells, b: GridBounds, hi_x: int) -> Seq<GroundTile>
    decreases hi_x - b.min_x + 1,
{
    if hi_x < b.min_x {
        seq![]
    } else {
        rect_tiles(cells, b, hi_x - 1) + column_tiles(cells, hi_x as i32, b.min_y as int, b.max_y as int)
    }
}

/// The ground tiles of a collision rectangle: one per solid cell of it,
/// column by column from the left, each column bottom up.
pub fn ground_tiles(bounds: GridBounds, solid_cells: &SolidCells) -> (res: Vec<GroundTile>)
    requires
        i32::MIN < bounds.min_x,
        bounds.max_x < i32::MAX,
        i32::MIN < bounds.min_y,
        bounds.max_y < i32::MAX,
    ensures
        res@ == rect_tiles(*solid_cells, bounds, bounds.max_x as int),
{
    let mut out: Vec<GroundTile> = Vec::new();
    let mut gx: i64 = bounds.min_x as i64;
    while gx <= bounds.max_x as i64
        invariant
            i32::MIN < bounds.min_x,
            bounds.max_x < i32::MAX,
            i32::MIN < bounds.min_y,
            bounds.max_y < i32::MAX,
            bounds.min_x <= gx,
            gx == bounds.min_x || gx <= bounds.max_x as i64 + 1,
            out@ == rect_tiles(*solid_cells, bounds, gx - 1),
        decreases bounds.max_x as i64 + 1 - gx,
    {
        let ghost before = out@;
        let mut gy: i64 = bounds.min_y as i64;
        while gy <= bounds.max_y as i64
            invariant
                i32::MIN < bounds.min_x,
                bounds.max_x < i32::MAX,
                i32::MIN < bounds.min_y,
                bounds.max_y < i32::MAX,
                bounds.min_x <= gx <= bounds.max_x,
                bounds.min_y <= gy,
                gy == bounds.min_y || gy <= bounds.max_y as i64 + 1,
                out@ == before + column_tiles(*solid_cells, gx as i32, bounds.min_y as int, gy - 1),
            decreases bounds.max_y as i64 + 1 - gy,
        {
            if solid_cells.contains(gx as i32, gy as i32) {
                let mask = tile_exposure_mask(gx as i32, gy as i32, solid_cells);
                let atlas_index = choose_dirt_tile(mask, gx as i32, gy as i32);
                out.push(GroundTile { gx: gx as i32, gy: gy as i32, atlas_index });
            }
            proof {
                assert(out@ =~= before + column_tiles(*solid_cells, gx as i32, bounds.min_y as int, gy as int));
            }
            gy = gy + 1;
        }
        proof {
            if gy == bounds.min_y && gy > bounds.max_y {
                assert(column_tiles(*solid_cells, gx as i32, bounds.min_y as int, bounds.max_y as int) =~= seq![]);
            }
            assert(out@ =~= rect_tiles(*solid_cells, bounds, gx as int));
        }
        gx = gx + 1;
    }
    out
}

} // verus!
