//! How a picture is scaled and cut into tiles.
//!
//! The bigger side of every puzzle is scaled to a fixed number of pixels and
//! cut into a fixed number of square tiles. The smaller side keeps as many
//! whole tiles as fit into it at the picture's own aspect ratio. Every tile is
//! cut out of the picture with half a tile of padding around it, where the
//! tabs of its outline reach.
use vstd::prelude::*;

use crate::connections::{
    grid_from_coins, grid_view, spec_connections, well_connected, all_inner, seeded_draws, PieceConnection,
    PieceConnections,
};
use crate::model::puzzle::{JigsawIndex, JigsawMeta};
use rand::rngs::StdRng;

verus! {

/// Pixels on the bigger side of every puzzle.
pub const BIGGER_SIDE_SIZE_PX: u32 = 1920;

/// Tiles on the bigger side of every puzzle.
pub const TILES_PER_BIGGER_SIDE: u32 = 8;

/// Pixels on a side of a tile.
pub const TILE_SIZE_PX: u32 = 240;

/// Pixels of padding around a tile when it is cut out: half a tile.
pub const TILE_PADDING_PX: u32 = 120;

/// Pixels on a side of a tile cut out with its padding: two tiles.
pub const TILE_WITH_PADDING_SIZE_PX: u32 = 480;

/// The tile size is the bigger side divided into its tiles, and the padding
/// is half a tile on each side.
pub proof fn lemma_tile_constants()
    ensures
        TILE_SIZE_PX == BIGGER_SIDE_SIZE_PX / TILES_PER_BIGGER_SIDE,
        TILE_PADDING_PX == TILE_SIZE_PX / 2,
        TILE_WITH_PADDING_SIZE_PX == TILE_SIZE_PX * 2,
        TILE_WITH_PADDING_SIZE_PX == TILE_SIZE_PX + 2 * TILE_PADDING_PX,
{
}

/// The sides of a picture, bigger first. A square counts as landscape.
pub open spec fn spec_oriented_sides(width: u32, height: u32) -> (u32, u32) {
    if width >= height {
        (width, height)
    } else {
        (height, width)
    }
}

/// The bigger and the smaller side of a picture `width` by `height` pixels.
pub fn oriented_sides(width: u32, height: u32) -> (r: (u32, u32))
    ensures
        r == spec_oriented_sides(width, height),
{
    let is_landscape = width >= height;
    if is_landscape {
        (width, height)
    } else {
        (height, width)
    }
}

/// The size of the puzzle made of a picture `width` by `height` pixels on whose
/// smaller side `tiles_fit_on_smaller` tiles fit: none when not even one does.
pub open spec fn spec_puzzle_dimensions(width: u32, height: u32, tiles_fit_on_smaller: u32) -> Option<(u32, u32)> {
    if tiles_fit_on_smaller == 0 {
        None
    } else if width >= height {
        Some((BIGGER_SIDE_SIZE_PX, (tiles_fit_on_smaller * TILE_SIZE_PX) as u32))
    } else {
        Some(((tiles_fit_on_smaller * TILE_SIZE_PX) as u32, BIGGER_SIDE_SIZE_PX))
    }
}

/// A puzzle on whose smaller side `k` tiles fit keeps all `k` of them: its
/// bigger side is `BIGGER_SIDE_SIZE_PX`, its smaller side exactly `k` tiles,
/// with the picture's orientation, so it has `TILES_PER_BIGGER_SIDE * k`
/// tiles. Only when no tile fits is there no puzzle.
pub proof fn lemma_puzzle_keeps_every_fitting_tile(width: u32, height: u32, k: u32)
    requires
        k * TILE_SIZE_PX <= u32::MAX,
    ensures
        spec_puzzle_dimensions(width, height, k) is None <==> k == 0,
        k > 0 ==> (spec_puzzle_dimensions(width, height, k) matches Some((w, h)) && (if width
            >= height {
            w == BIGGER_SIDE_SIZE_PX && h == k * TILE_SIZE_PX
        } else {
            w == k * TILE_SIZE_PX && h == BIGGER_SIDE_SIZE_PX
        }) && (w / TILE_SIZE_PX) * (h / TILE_SIZE_PX) == TILES_PER_BIGGER_SIDE * k),
{
    if k > 0 {
        let n: int = k as int;
        assert((n * 240) / 240 == n) by (nonlinear_arith);
    }
}

/// The size of the puzzle made of a picture `width` by `height` pixels, where
/// `tiles_fit_on_smaller` is the number of whole tiles that fit on the smaller
/// side when the bigger side is cut into its tiles. None means that the picture
/// is too narrow to be made into a puzzle.
pub fn try_get_puzzle_image_dimensions(width: u32, height: u32, tiles_fit_on_smaller: u32) -> (r:
    Option<(u32, u32)>)
    requires
        tiles_fit_on_smaller * TILE_SIZE_PX <= u32::MAX,
    ensures
        r == spec_puzzle_dimensions(width, height, tiles_fit_on_smaller),
        r is None <==> tiles_fit_on_smaller == 0,
        tiles_fit_on_smaller > 0 && width >= height ==> r == Some(
            (BIGGER_SIDE_SIZE_PX, (tiles_fit_on_smaller * TILE_SIZE_PX) as u32),
        ),
        tiles_fit_on_smaller > 0 && width < height ==> r == Some(
            ((tiles_fit_on_smaller * TILE_SIZE_PX) as u32, BIGGER_SIDE_SIZE_PX),
        ),
        r matches Some((w, h)) ==> w % TILE_SIZE_PX == 0 && h % TILE_SIZE_PX == 0 && w >= TILE_SIZE_PX
            && h >= TILE_SIZE_PX,
        tiles_fit_on_smaller <= TILES_PER_BIGGER_SIDE ==> (r matches Some((w, h)) ==> (w >= h) == (
        width >= height || tiles_fit_on_smaller == TILES_PER_BIGGER_SIDE)),
{
    let is_landscape = width >= height;
    if tiles_fit_on_smaller == 0 {
        return None;
    }
    let new_smaller = tiles_fit_on_smaller * TILE_SIZE_PX;
    let result = if is_landscape {
        (BIGGER_SIDE_SIZE_PX, new_smaller)
    } else {
        (new_smaller, BIGGER_SIDE_SIZE_PX)
    };
    assert(new_smaller % TILE_SIZE_PX == 0) by (nonlinear_arith)
        requires
            new_smaller == tiles_fit_on_smaller * TILE_SIZE_PX,
    ;
    assert(tiles_fit_on_smaller <= TILES_PER_BIGGER_SIDE ==> new_smaller <= BIGGER_SIDE_SIZE_PX)
        by (nonlinear_arith)
        requires
            new_smaller == tiles_fit_on_smaller * TILE_SIZE_PX,
    ;
    Some(result)
}

/// The plan for one tile: its place in the puzzle, the top left corner of the
/// square that is cut out of the padded picture for it, and its sides.
#[derive(Copy, Clone, Debug)]
pub struct TilePlan {
    pub index: JigsawIndex,
    pub crop_x: u32,
    pub crop_y: u32,
    pub connections: PieceConnections,
}

/// The plan for the tile at column `x` and row `y`.
pub open spec fn spec_tile(grid: Seq<Seq<PieceConnections>>, x: int, y: int) -> TilePlan {
    TilePlan {
        index: JigsawIndex { x: x as u32, y: y as u32 },
        crop_x: (x * TILE_SIZE_PX) as u32,
        crop_y: (y * TILE_SIZE_PX) as u32,
        connections: grid[y][x],
    }
}

/// The plans of all tiles of a grid `tiles_x` wide and `tiles_y` high, column by
/// column and top to bottom within a column.
pub open spec fn spec_tile_plan(grid: Seq<Seq<PieceConnections>>, tiles_x: int, tiles_y: int) -> Seq<TilePlan> {
    Seq::new((tiles_x * tiles_y) as nat, |k: int| spec_tile(grid, k / tiles_y, k % tiles_y))
}

/// `grid` has `tiles_y` rows of `tiles_x` pieces each.
pub open spec fn grid_shaped(grid: Seq<Seq<PieceConnections>>, tiles_x: int, tiles_y: int) -> bool {
    &&& grid.len() == tiles_y
    &&& forall|y: int| 0 <= y < tiles_y ==> #[trigger] grid[y].len() == tiles_x
}

proof fn lemma_plan_index(k: int, ty: int, tx: int)
    requires
        ty >= 1,
        tx >= 0,
        0 <= k < tx * ty,
    ensures
        0 <= k / ty < tx,
        0 <= k % ty < ty,
        k == (k / ty) * ty + k % ty,
{
    assert(0 <= k / ty < tx && 0 <= k % ty < ty && k == (k / ty) * ty + k % ty) by (nonlinear_arith)
        requires
            ty >= 1,
            tx >= 0,
            0 <= k < tx * ty,
    ;
}

proof fn lemma_plan_position(x: int, y: int, ty: int)
    requires
        ty >= 1,
        0 <= x,
        0 <= y < ty,
    ensures
        (x * ty + y) / ty == x,
        (x * ty + y) % ty == y,
{
    assert((x * ty + y) / ty == x && (x * ty + y) % ty == y) by (nonlinear_arith)
        requires
            ty >= 1,
            0 <= x,
            0 <= y < ty,
    ;
}

/// `t` lies in a grid `tx` by `ty` and its padded square lies inside the
/// picture padded by half a tile on every side.
pub open spec fn tile_inside(t: TilePlan, tx: int, ty: int) -> bool {
    &&& t.index.x < tx
    &&& t.index.y < ty
    &&& t.crop_x == t.index.x * TILE_SIZE_PX
    &&& t.crop_y == t.index.y * TILE_SIZE_PX
    &&& t.crop_x + TILE_WITH_PADDING_SIZE_PX <= tx * TILE_SIZE_PX + TILE_SIZE_PX
    &&& t.crop_y + TILE_WITH_PADDING_SIZE_PX <= ty * TILE_SIZE_PX + TILE_SIZE_PX
}

/// The place at column `x` and row `y`.
pub open spec fn place(x: int, y: int) -> JigsawIndex {
    JigsawIndex { x: x as u32, y: y as u32 }
}

/// The tiles of a grid cover the puzzle exactly: each place of the grid has
/// a tile, no two tiles share a place, and every tile's square with its
/// padding lies inside the picture padded by half a tile on every side.
pub proof fn lemma_tiles_cover_picture(grid: Seq<Seq<PieceConnections>>, tx: int, ty: int)
    requires
        tx >= 1,
        ty >= 1,
        tx * TILE_SIZE_PX + TILE_SIZE_PX <= u32::MAX,
        ty * TILE_SIZE_PX + TILE_SIZE_PX <= u32::MAX,
    ensures
        spec_tile_plan(grid, tx, ty).len() == tx * ty,
        forall|x: int, y: int|
            0 <= x < tx && 0 <= y < ty ==> 0 <= x * ty + y < tx * ty && (#[trigger] spec_tile_plan(
                grid,
                tx,
                ty,
            )[x * ty + y]).index == place(x, y),
        forall|j: int, k: int|
            0 <= j < k < tx * ty ==> (#[trigger] spec_tile_plan(grid, tx, ty)[j]).index != (
            #[trigger] spec_tile_plan(grid, tx, ty)[k]).index,
        forall|k: int|
            0 <= k < tx * ty ==> tile_inside(#[trigger] spec_tile_plan(grid, tx, ty)[k], tx, ty),
{
    let plan = spec_tile_plan(grid, tx, ty);
    assert(tx * ty >= 0) by (nonlinear_arith)
        requires
            tx >= 1,
            ty >= 1,
    ;
    assert forall|x: int, y: int| 0 <= x < tx && 0 <= y < ty implies 0 <= x * ty + y < tx * ty && (
    #[trigger] plan[x * ty + y]).index == place(x, y) by {
        lemma_plan_position(x, y, ty);
        assert(0 <= x * ty + y < tx * ty) by (nonlinear_arith)
            requires
                0 <= x < tx,
                0 <= y < ty,
        ;
    }
    assert forall|k: int| 0 <= k < tx * ty implies tile_inside(#[trigger] plan[k], tx, ty) by {
        lemma_plan_index(k, ty, tx);
    }
    assert forall|j: int, k: int| 0 <= j < k < tx * ty implies (#[trigger] plan[j]).index != (
    #[trigger] plan[k]).index by {
        lemma_plan_index(j, ty, tx);
        lemma_plan_index(k, ty, tx);
    }
}

/// Every tile carries the piece of its own place: the connections of the
/// tile at column `x` and row `y` are those of row `y`, column `x` of the
/// grid, whatever the shape of the grid.
pub proof fn lemma_tiles_carry_their_piece(grid: Seq<Seq<PieceConnections>>, tx: int, ty: int)
    requires
        1 <= tx <= u32::MAX,
        1 <= ty <= u32::MAX,
    ensures
        forall|k: int|
            0 <= k < tx * ty ==> (#[trigger] spec_tile_plan(grid, tx, ty)[k]).connections
                == grid[spec_tile_plan(grid, tx, ty)[k].index.y as int][spec_tile_plan(
                grid,
                tx,
                ty,
            )[k].index.x as int],
{
    assert forall|k: int| 0 <= k < tx * ty implies (#[trigger] spec_tile_plan(grid, tx, ty)[k]).connections
        == grid[spec_tile_plan(grid, tx, ty)[k].index.y as int][spec_tile_plan(
        grid,
        tx,
        ty,
    )[k].index.x as int] by {
        lemma_plan_index(k, ty, tx);
    }
}

/// Plans the tiles of a puzzle `new_width` by `new_height` pixels whose pieces
/// have the sides in `connections` (row `y`, column `x` for the piece at
/// `(x, y)`). Tiles come column by column, each column from top to bottom.
pub fn tile_plan(new_width: u32, new_height: u32, connections: &Vec<Vec<PieceConnections>>) -> (plan:
    Vec<TilePlan>)
    requires
        new_width % TILE_SIZE_PX == 0,
        new_height % TILE_SIZE_PX == 0,
        new_width + TILE_PADDING_PX <= u32::MAX,
        new_height + TILE_PADDING_PX <= u32::MAX,
        (new_width / TILE_SIZE_PX) * (new_height / TILE_SIZE_PX) <= usize::MAX,
        grid_shaped(
            grid_view(connections@),
            (new_width / TILE_SIZE_PX) as int,
            (new_height / TILE_SIZE_PX) as int,
        ),
    ensures
        plan@ == spec_tile_plan(
            grid_view(connections@),
            (new_width / TILE_SIZE_PX) as int,
            (new_height / TILE_SIZE_PX) as int,
        ),
        forall|k: int|
            0 <= k < plan@.len() ==> (#[trigger] plan@[k]).connections == connections@[plan@[k].index.y as int]@[plan@[k].index.x as int],
{
    let ghost grid = grid_view(connections@);
    let ghost tx = (new_width / TILE_SIZE_PX) as int;
    let ghost ty = (new_height / TILE_SIZE_PX) as int;
    let mut plan: Vec<TilePlan> = Vec::new();
    if new_height == 0 {
        assert(plan@ =~= spec_tile_plan(grid, tx, ty));
        return plan;
    }
    assert(new_height >= TILE_SIZE_PX);
    assert(((TILE_PADDING_PX - TILE_PADDING_PX) / TILE_SIZE_PX as int) * ty == 0);
    let mut corner_x: u32 = TILE_PADDING_PX;
    while corner_x < new_width + TILE_PADDING_PX
        invariant
            new_width % TILE_SIZE_PX == 0,
            new_height % TILE_SIZE_PX == 0,
            new_height >= TILE_SIZE_PX,
            new_width + TILE_PADDING_PX <= u32::MAX,
            new_height + TILE_PADDING_PX <= u32::MAX,
            tx == new_width / TILE_SIZE_PX,
            ty == new_height / TILE_SIZE_PX,
            tx * ty <= usize::MAX,
            grid == grid_view(connections@),
            grid_shaped(grid, tx, ty),
            corner_x >= TILE_PADDING_PX,
            (corner_x - TILE_PADDING_PX) % TILE_SIZE_PX as int == 0,
            corner_x <= new_width + TILE_PADDING_PX,
            plan@.len() == ((corner_x - TILE_PADDING_PX) / TILE_SIZE_PX as int) * ty,
            forall|k: int|
                0 <= k < plan@.len() ==> #[trigger] plan@[k] == spec_tile(grid, k / ty, k % ty),
        decreases new_width + TILE_PADDING_PX - corner_x,
    {
        let ghost x = (corner_x - TILE_PADDING_PX) / TILE_SIZE_PX as int;
        let mut corner_y: u32 = TILE_PADDING_PX;
        while corner_y < new_height + TILE_PADDING_PX
            invariant
                new_width % TILE_SIZE_PX == 0,
                new_height % TILE_SIZE_PX == 0,
                new_height >= TILE_SIZE_PX,
                new_width + TILE_PADDING_PX <= u32::MAX,
                new_height + TILE_PADDING_PX <= u32::MAX,
                tx == new_width / TILE_SIZE_PX,
                ty == new_height / TILE_SIZE_PX,
                tx * ty <= usize::MAX,
                grid == grid_view(connections@),
                grid_shaped(grid, tx, ty),
                corner_x >= TILE_PADDING_PX,
                corner_x < new_width + TILE_PADDING_PX,
                x == (corner_x - TILE_PADDING_PX) / TILE_SIZE_PX as int,
                (corner_x - TILE_PADDING_PX) % TILE_SIZE_PX as int == 0,
                corner_y >= TILE_PADDING_PX,
                (corner_y - TILE_PADDING_PX) % TILE_SIZE_PX as int == 0,
                corner_y <= new_height + TILE_PADDING_PX,
                plan@.len() == x * ty + (corner_y - TILE_PADDING_PX) / TILE_SIZE_PX as int,
                forall|k: int|
                    0 <= k < plan@.len() ==> #[trigger] plan@[k] == spec_tile(grid, k / ty, k % ty),
            decreases new_height + TILE_PADDING_PX - corner_y,
        {
            let ghost y = (corner_y - TILE_PADDING_PX) / TILE_SIZE_PX as int;
            assert(0 <= x < tx && 0 <= y < ty) by (nonlinear_arith)
                requires
                    x == (corner_x - TILE_PADDING_PX) / TILE_SIZE_PX as int,
                    y == (corner_y - TILE_PADDING_PX) / TILE_SIZE_PX as int,
                    corner_x >= TILE_PADDING_PX,
                    corner_y >= TILE_PADDING_PX,
                    corner_x < new_width + TILE_PADDING_PX,
                    corner_y < new_height + TILE_PADDING_PX,
                    tx == new_width / TILE_SIZE_PX,
                    ty == new_height / TILE_SIZE_PX,
                    new_width % TILE_SIZE_PX == 0,
                    new_height % TILE_SIZE_PX == 0,
            ;
            let index = JigsawIndex::new(
                (corner_x - TILE_PADDING_PX) / TILE_SIZE_PX,
                (corner_y - TILE_PADDING_PX) / TILE_SIZE_PX,
            );
            let xi = index.x as usize;
            let yi = index.y as usize;
            assert(connections@[yi as int]@ == grid[yi as int]);
            let connection = connections[yi][xi];
            assert(x * TILE_SIZE_PX == corner_x - TILE_PADDING_PX && y * TILE_SIZE_PX == corner_y
                - TILE_PADDING_PX) by (nonlinear_arith)
                requires
                    x == (corner_x - TILE_PADDING_PX) / TILE_SIZE_PX as int,
                    y == (corner_y - TILE_PADDING_PX) / TILE_SIZE_PX as int,
                    (corner_x - TILE_PADDING_PX) % TILE_SIZE_PX as int == 0,
                    (corner_y - TILE_PADDING_PX) % TILE_SIZE_PX as int == 0,
            ;
            proof {
                lemma_plan_position(x, y, ty);
                assert(x * ty + y < tx * ty) by (nonlinear_arith)
                    requires
                        0 <= x < tx,
                        0 <= y < ty,
                ;
            }
            plan.push(
                TilePlan {
                    index,
                    crop_x: corner_x - TILE_PADDING_PX,
                    crop_y: corner_y - TILE_PADDING_PX,
                    connections: connection,
                },
            );
            corner_y = corner_y + TILE_SIZE_PX;
        }
        assert(plan@.len() == x * ty + ty);
        assert(x * ty + ty == (x + 1) * ty) by (nonlinear_arith);
        corner_x = corner_x + TILE_SIZE_PX;
    }
    assert(plan@.len() == tx * ty);
    assert(plan@ =~= spec_tile_plan(grid, tx, ty));
    proof {
        if tx >= 1 {
            lemma_tiles_carry_their_piece(grid, tx, ty);
            assert forall|k: int| 0 <= k < plan@.len() implies (#[trigger] plan@[k]).connections
                == connections@[plan@[k].index.y as int]@[plan@[k].index.x as int] by {
                lemma_plan_index(k, ty, tx);
                assert(connections@[plan@[k].index.y as int]@ == grid[plan@[k].index.y as int]);
            }
        }
    }
    plan
}

/// `tiles` are the plans of a grid `tx` by `ty` whose inner edges got the
/// knobs and sockets `vertical` and `horizontal`: the pieces fit together.
pub open spec fn cut_from_draws(
    tiles: Seq<TilePlan>,
    tx: int,
    ty: int,
    vertical: Seq<PieceConnection>,
    horizontal: Seq<PieceConnection>,
) -> bool {
    let grid = spec_connections(tx, ty, vertical, horizontal);
    &&& all_inner(vertical)
    &&& all_inner(horizontal)
    &&& well_connected(grid, tx, ty)
    &&& tiles == spec_tile_plan(grid, tx, ty)
}

/// Everything that the cutting of a picture into a puzzle decides: the size of
/// the puzzle, the plan of every tile and the puzzle's sizes as players see them.
pub struct PuzzlePlan {
    pub width: u32,
    pub height: u32,
    pub tiles: Vec<TilePlan>,
    pub meta: JigsawMeta,
}

/// Plans the puzzle made of a picture `width` by `height` pixels, on whose
/// smaller side `tiles_fit_on_smaller` tiles fit, with piece connections drawn
/// from a generator seeded with `seed` (or by the operating system). None
/// means that the picture is too narrow to be made into a puzzle.
pub fn plan_puzzle(width: u32, height: u32, tiles_fit_on_smaller: u32, seed: Option<u64>) -> (r:
    Option<PuzzlePlan>)
    requires
        tiles_fit_on_smaller * TILE_SIZE_PX <= u32::MAX - TILE_PADDING_PX,
    ensures
        r is Some <==> tiles_fit_on_smaller > 0,
        r matches Some(p) ==> {
            &&& spec_puzzle_dimensions(width, height, tiles_fit_on_smaller) == Some((p.width, p.height))
            &&& p.meta.tile_size_px == TILE_SIZE_PX
            &&& p.meta.image_dimensions_px == (p.width, p.height)
            &&& exists|vertical: Seq<PieceConnection>, horizontal: Seq<PieceConnection>|
                #[trigger] cut_from_draws(
                    p.tiles@,
                    (p.width / TILE_SIZE_PX) as int,
                    (p.height / TILE_SIZE_PX) as int,
                    vertical,
                    horizontal,
                )
            &&& exists|r0: StdRng|
                p.tiles@ == spec_tile_plan(
                    #[trigger] grid_from_coins(
                        r0,
                        (p.width / TILE_SIZE_PX) as int,
                        (p.height / TILE_SIZE_PX) as int,
                    ),
                    (p.width / TILE_SIZE_PX) as int,
                    (p.height / TILE_SIZE_PX) as int,
                )
        },
        r matches Some(p) ==> (seed matches Some(s) ==> cut_from_draws(
            p.tiles@,
            (p.width / TILE_SIZE_PX) as int,
            (p.height / TILE_SIZE_PX) as int,
            seeded_draws(s, 0, ((p.height / TILE_SIZE_PX) - 1) * (p.width / TILE_SIZE_PX)),
            seeded_draws(
                s,
                ((p.height / TILE_SIZE_PX) - 1) * (p.width / TILE_SIZE_PX),
                ((p.width / TILE_SIZE_PX) - 1) * (p.height / TILE_SIZE_PX),
            ),
        )),
{
    let dims = try_get_puzzle_image_dimensions(width, height, tiles_fit_on_smaller);
    match dims {
        None => None,
        Some((new_width, new_height)) => {
            assert(new_width / TILE_SIZE_PX <= 8 || new_height / TILE_SIZE_PX <= 8);
            assert((new_width / TILE_SIZE_PX) * (new_height / TILE_SIZE_PX) <= usize::MAX) by (nonlinear_arith)
                requires
                    new_width <= u32::MAX,
                    new_height <= u32::MAX,
                    new_width / TILE_SIZE_PX <= 8 || new_height / TILE_SIZE_PX <= 8,
            ;
            let connections = PieceConnections::generate_connections_for_size(
                new_width,
                new_height,
                TILE_SIZE_PX,
                seed,
            );
            let tiles = tile_plan(new_width, new_height, &connections);
            let plan = PuzzlePlan {
                width: new_width,
                height: new_height,
                tiles,
                meta: JigsawMeta::new(TILE_SIZE_PX, (new_width, new_height)),
            };
            proof {
                let tx = (new_width / TILE_SIZE_PX) as int;
                let ty = (new_height / TILE_SIZE_PX) as int;
                let (v, h) = choose|v: Seq<PieceConnection>, h: Seq<PieceConnection>|
                    all_inner(v) && all_inner(h) && grid_view(connections@) == spec_connections(
                        tx,
                        ty,
                        v,
                        h,
                    );
                let r0 = choose|r0: StdRng|
                    #[trigger] grid_from_coins(r0, tx, ty) == grid_view(connections@);
                assert(plan.tiles@ == spec_tile_plan(grid_from_coins(r0, tx, ty), tx, ty));
                assert(cut_from_draws(
                    plan.tiles@,
                    (plan.width / TILE_SIZE_PX) as int,
                    (plan.height / TILE_SIZE_PX) as int,
                    v,
                    h,
                ));
            }
            Some(plan)
        },
    }
}

} // verus!
