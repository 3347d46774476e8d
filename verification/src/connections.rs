//! The way neighbouring pieces of a puzzle interlock.
//!
//! Every inner edge of the tile grid gets a random direction: one of the two
//! pieces that share it reaches into the other. Border edges stay flat.
use rand::rngs::StdRng;
use vstd::prelude::*;

verus! {

#[verifier::external_type_specification]
#[verifier::external_body]
pub struct ExStdRng(StdRng);

/// How one side of a piece meets the neighbouring piece.
#[derive(Copy, Clone, Debug, PartialEq, Eq, Structural)]
pub enum PieceConnection {
    /// This piece reaches into its neighbour (a knob).
    ConnectedToNeighbor,
    /// The neighbour reaches into this piece (a socket).
    NeighborConnected,
    /// The side lies on the border of the picture and is flat.
    Nothing,
}

/// The connection that the neighbour sees on the shared side.
pub open spec fn opposite_of(c: PieceConnection) -> PieceConnection {
    match c {
        PieceConnection::ConnectedToNeighbor => PieceConnection::NeighborConnected,
        PieceConnection::NeighborConnected => PieceConnection::ConnectedToNeighbor,
        PieceConnection::Nothing => PieceConnection::Nothing,
    }
}

/// The `k`-th fair coin, counted from 0, that `rand::Rng::gen_ratio(1, 2)`
/// draws from the generator `rng` in its present state.
pub uninterp spec fn coin_at(rng: StdRng, k: nat) -> bool;

/// The `k`-th fair coin, counted from 0, that `rand::Rng::gen_ratio(1, 2)`
/// draws from a generator made by `rand::SeedableRng::seed_from_u64(seed)`.
pub uninterp spec fn seeded_coin(seed: u64, k: nat) -> bool;

/// A fresh random generator seeded with `seed`:
/// `rand::SeedableRng::seed_from_u64`. `StdRng` is a deterministic
/// generator, so its coins are those of the seed.
#[verifier::external_body]
fn seeded_rng(seed: u64) -> (r: StdRng)
    ensures
        forall|k: nat| #[trigger] coin_at(r, k) == seeded_coin(seed, k),
{
    <StdRng as rand::SeedableRng>::seed_from_u64(seed)
}

/// A fresh random generator seeded by the operating system:
/// `rand::SeedableRng::from_entropy`. Nothing is claimed of it.
#[verifier::external_body]
fn entropy_rng() -> StdRng {
    <StdRng as rand::SeedableRng>::from_entropy()
}

/// One fair coin drawn from `rng` with `rand::Rng::gen_ratio(1, 2)`, which
/// samples the same Bernoulli distribution as `gen_bool(0.5)`: the next coin
/// of the generator, which then stands at the coin after it.
#[verifier::external_body]
fn coin_flip(rng: &mut StdRng) -> (r: bool)
    ensures
        r == coin_at(*old(rng), 0),
        forall|k: nat| #[trigger] coin_at(*final(rng), k) == coin_at(*old(rng), k + 1),
{
    rand::Rng::gen_ratio(rng, 1, 2)
}

/// The inner connection that a coin decides: a knob for heads, a socket for
/// tails.
pub open spec fn coin_connection(heads: bool) -> PieceConnection {
    if heads {
        PieceConnection::ConnectedToNeighbor
    } else {
        PieceConnection::NeighborConnected
    }
}

/// The connections drawn from the coins `start`, `start + 1`, ... of the
/// generator `rng`, `n` of them.
pub open spec fn drawn(rng: StdRng, start: int, n: int) -> Seq<PieceConnection> {
    Seq::new(n as nat, |i: int| coin_connection(coin_at(rng, (start + i) as nat)))
}

/// The connections drawn from the coins `start`, `start + 1`, ... of a
/// generator seeded with `seed`, `n` of them.
pub open spec fn seeded_draws(seed: u64, start: int, n: int) -> Seq<PieceConnection> {
    Seq::new(n as nat, |i: int| coin_connection(seeded_coin(seed, (start + i) as nat)))
}

impl PieceConnection {
    /// The connection of the neighbour on the same side: a knob faces a socket.
    pub fn opposite(self) -> (r: PieceConnection)
        ensures
            r == opposite_of(self),
    {
        match self {
            PieceConnection::ConnectedToNeighbor => PieceConnection::NeighborConnected,
            PieceConnection::NeighborConnected => PieceConnection::ConnectedToNeighbor,
            _ => PieceConnection::Nothing,
        }
    }

    /// The inner connection that a fair coin decides: a knob when it shows
    /// heads, a socket otherwise.
    pub fn from_coin(heads: bool) -> (r: PieceConnection)
        ensures
            r == coin_connection(heads),
    {
        match heads {
            true => PieceConnection::ConnectedToNeighbor,
            false => PieceConnection::NeighborConnected,
        }
    }

    /// A random inner connection: a knob or a socket, never a flat side, as
    /// the generator's next coin decides.
    pub fn random(rng: &mut StdRng) -> (r: PieceConnection)
        ensures
            r != PieceConnection::Nothing,
            r == coin_connection(coin_at(*old(rng), 0)),
            forall|k: nat| #[trigger] coin_at(*final(rng), k) == coin_at(*old(rng), k + 1),
    {
        let heads = coin_flip(rng);
        Self::from_coin(heads)
    }
}

/// The four sides of one piece.
#[derive(Copy, Clone, Debug, PartialEq, Eq, Structural)]
pub struct PieceConnections {
    pub top: PieceConnection,
    pub right: PieceConnection,
    pub bottom: PieceConnection,
    pub left: PieceConnection,
}

/// The piece at column `x` and row `y` of a grid `w` tiles wide and `h` tiles
/// high, given the connections drawn for the horizontal edges (`vertical`,
/// row by row: the edge under the piece at `(x, y)` is `vertical[y * w + x]`)
/// and for the vertical edges (`horizontal`, column by column: the edge right
/// of the piece at `(x, y)` is `horizontal[x * h + y]`).
pub open spec fn spec_piece(
    w: int,
    h: int,
    vertical: Seq<PieceConnection>,
    horizontal: Seq<PieceConnection>,
    x: int,
    y: int,
) -> PieceConnections {
    PieceConnections {
        top: if y > 0 {
            opposite_of(vertical[(y - 1) * w + x])
        } else {
            PieceConnection::Nothing
        },
        right: if x + 1 < w {
            horizontal[x * h + y]
        } else {
            PieceConnection::Nothing
        },
        bottom: if y + 1 < h {
            vertical[y * w + x]
        } else {
            PieceConnection::Nothing
        },
        left: if x > 0 {
            opposite_of(horizontal[(x - 1) * h + y])
        } else {
            PieceConnection::Nothing
        },
    }
}

/// The whole grid, row by row, built from the drawn edge connections.
pub open spec fn spec_connections(
    w: int,
    h: int,
    vertical: Seq<PieceConnection>,
    horizontal: Seq<PieceConnection>,
) -> Seq<Seq<PieceConnections>> {
    Seq::new(h as nat, |y: int| Seq::new(w as nat, |x: int| spec_piece(w, h, vertical, horizontal, x, y)))
}

/// The grid of `w` by `h` pieces whose inner edges take the coins of the
/// generator `rng` one after another: first the edges under the pieces, row
/// by row, then the edges right of the pieces, column by column.
pub open spec fn grid_from_coins(rng: StdRng, w: int, h: int) -> Seq<Seq<PieceConnections>> {
    spec_connections(w, h, drawn(rng, 0, (h - 1) * w), drawn(rng, (h - 1) * w, (w - 1) * h))
}

/// The rows of a matrix as sequences.
pub open spec fn grid_view(m: Seq<Vec<PieceConnections>>) -> Seq<Seq<PieceConnections>> {
    m.map_values(|row: Vec<PieceConnections>| row@)
}

/// `g` is a grid of `w` by `h` pieces that fit together: every inner edge is a
/// knob on one side and a socket on the other, and every border edge is flat.
pub open spec fn well_connected(g: Seq<Seq<PieceConnections>>, w: int, h: int) -> bool {
    &&& g.len() == h
    &&& forall|y: int| 0 <= y < h ==> #[trigger] g[y].len() == w
    &&& forall|x: int, y: int|
        0 <= x < w && 0 <= y && y + 1 < h ==> #[trigger] g[y + 1][x].top == opposite_of(
            g[y][x].bottom,
        ) && g[y][x].bottom != PieceConnection::Nothing
    &&& forall|x: int, y: int|
        0 <= y < h && 0 <= x && x + 1 < w ==> #[trigger] g[y][x + 1].left == opposite_of(
            g[y][x].right,
        ) && g[y][x].right != PieceConnection::Nothing
    &&& forall|x: int| 0 <= x < w ==> #[trigger] g[0][x].top == PieceConnection::Nothing
    &&& forall|x: int| 0 <= x < w ==> #[trigger] g[h - 1][x].bottom == PieceConnection::Nothing
    &&& forall|y: int| 0 <= y < h ==> #[trigger] g[y][0].left == PieceConnection::Nothing
    &&& forall|y: int| 0 <= y < h ==> #[trigger] g[y][w - 1].right == PieceConnection::Nothing
}

/// Every drawn connection is a knob or a socket.
pub open spec fn all_inner(s: Seq<PieceConnection>) -> bool {
    forall|i: int| 0 <= i < s.len() ==> #[trigger] s[i] != PieceConnection::Nothing
}

/// A knob faces a socket and back: `opposite` undoes itself, and it changes
/// every connection except a flat side.
pub proof fn lemma_opposite_involution(c: PieceConnection)
    ensures
        opposite_of(opposite_of(c)) == c,
        c != PieceConnection::Nothing ==> opposite_of(c) != c,
        (opposite_of(c) == PieceConnection::Nothing) == (c == PieceConnection::Nothing),
{
}

proof fn lemma_row_index_bound(a: int, b: int, w: int, n: int)
    requires
        0 <= a < n,
        0 <= b < w,
    ensures
        0 <= a * w + b < n * w,
        a * w + b + w == (a + 1) * w + b,
{
    assert(a * w + b < n * w) by (nonlinear_arith)
        requires
            0 <= a < n,
            0 <= b < w,
    ;
    assert(0 <= a * w) by (nonlinear_arith)
        requires
            0 <= a,
            0 <= b < w,
    ;
    assert(a * w + w == (a + 1) * w) by (nonlinear_arith);
}

proof fn lemma_row_major_injective(a1: int, b1: int, a2: int, b2: int, w: int)
    requires
        0 <= a1,
        0 <= a2,
        0 <= b1 < w,
        0 <= b2 < w,
        a1 * w + b1 == a2 * w + b2,
    ensures
        a1 == a2,
        b1 == b2,
{
    if a1 < a2 {
        assert(a1 * w + b1 < a2 * w + b2) by (nonlinear_arith)
            requires
                0 <= a1 < a2,
                0 <= b1 < w,
                0 <= b2,
        ;
    } else if a2 < a1 {
        assert(a2 * w + b2 < a1 * w + b1) by (nonlinear_arith)
            requires
                0 <= a2 < a1,
                0 <= b2 < w,
                0 <= b1,
        ;
    }
}

/// The coin, counted from the generator's present state, that decides the
/// edge under the piece at `(x, y)` of a grid `w` pieces wide.
pub open spec fn bottom_coin(w: int, x: int, y: int) -> int {
    y * w + x
}

/// The coin that decides the edge right of the piece at `(x, y)` of a grid `w`
/// by `h` pieces: it comes after the coins of all edges under pieces.
pub open spec fn right_coin(w: int, h: int, x: int, y: int) -> int {
    (h - 1) * w + x * h + y
}

/// Every inner edge of a grid built from a generator's coins takes a coin of
/// its own: the edge under the piece at `(x, y)` shows coin `bottom_coin`, the
/// edge right of it coin `right_coin`, and no two inner edges share a coin.
/// So the knobs and sockets of the pieces are as varied as the coins.
pub proof fn lemma_every_inner_edge_has_its_own_coin(rng: StdRng, w: int, h: int)
    requires
        w >= 1,
        h >= 1,
    ensures
        forall|x: int, y: int|
            0 <= x < w && 0 <= y && y + 1 < h ==> (#[trigger] grid_from_coins(rng, w, h)[y][x]).bottom
                == coin_connection(coin_at(rng, bottom_coin(w, x, y) as nat)) && 0 <= bottom_coin(w, x, y)
                < (h - 1) * w,
        forall|x: int, y: int|
            0 <= y < h && 0 <= x && x + 1 < w ==> (#[trigger] grid_from_coins(rng, w, h)[y][x]).right
                == coin_connection(coin_at(rng, right_coin(w, h, x, y) as nat)) && (h - 1) * w
                <= right_coin(w, h, x, y) < (h - 1) * w + (w - 1) * h,
        forall|x1: int, y1: int, x2: int, y2: int|
            0 <= x1 < w && 0 <= x2 < w && 0 <= y1 && 0 <= y2 && #[trigger] bottom_coin(w, x1, y1)
                == #[trigger] bottom_coin(w, x2, y2) ==> x1 == x2 && y1 == y2,
        forall|x1: int, y1: int, x2: int, y2: int|
            0 <= x1 && 0 <= x2 && 0 <= y1 < h && 0 <= y2 < h && #[trigger] right_coin(w, h, x1, y1)
                == #[trigger] right_coin(w, h, x2, y2) ==> x1 == x2 && y1 == y2,
{
    let g = grid_from_coins(rng, w, h);
    assert forall|x: int, y: int| 0 <= x < w && 0 <= y && y + 1 < h implies (#[trigger] g[y][x]).bottom
        == coin_connection(coin_at(rng, bottom_coin(w, x, y) as nat)) && 0 <= bottom_coin(w, x, y) < (h
        - 1) * w by {
        lemma_row_index_bound(y, x, w, h - 1);
    }
    assert forall|x: int, y: int| 0 <= y < h && 0 <= x && x + 1 < w implies (#[trigger] g[y][x]).right
        == coin_connection(coin_at(rng, right_coin(w, h, x, y) as nat)) && (h - 1) * w <= right_coin(
        w,
        h,
        x,
        y,
    ) < (h - 1) * w + (w - 1) * h by {
        lemma_row_index_bound(x, y, h, w - 1);
        assert(0 <= (h - 1) * w) by (nonlinear_arith)
            requires
                h >= 1,
                w >= 1,
        ;
    }
    assert forall|x1: int, y1: int, x2: int, y2: int|
        0 <= x1 < w && 0 <= x2 < w && 0 <= y1 && 0 <= y2 && #[trigger] bottom_coin(w, x1, y1)
            == #[trigger] bottom_coin(w, x2, y2) implies x1 == x2 && y1 == y2 by {
        lemma_row_major_injective(y1, x1, y2, x2, w);
    }
    assert forall|x1: int, y1: int, x2: int, y2: int|
        0 <= x1 && 0 <= x2 && 0 <= y1 < h && 0 <= y2 < h && #[trigger] right_coin(w, h, x1, y1)
            == #[trigger] right_coin(w, h, x2, y2) implies x1 == x2 && y1 == y2 by {
        lemma_row_major_injective(x1, y1, x2, y2, h);
    }
}

/// Whatever knobs and sockets are drawn for the inner edges, the grid built
/// from them fits together and has flat borders.
pub proof fn lemma_draws_are_well_connected(
    w: int,
    h: int,
    vertical: Seq<PieceConnection>,
    horizontal: Seq<PieceConnection>,
)
    requires
        w >= 1,
        h >= 1,
        vertical.len() == (h - 1) * w,
        horizontal.len() == (w - 1) * h,
        all_inner(vertical),
        all_inner(horizontal),
    ensures
        well_connected(spec_connections(w, h, vertical, horizontal), w, h),
{
    let g = spec_connections(w, h, vertical, horizontal);
    assert forall|x: int, y: int| 0 <= x < w && 0 <= y && y + 1 < h implies #[trigger] g[y
        + 1][x].top == opposite_of(g[y][x].bottom) && g[y][x].bottom
        != PieceConnection::Nothing by {
        lemma_row_index_bound(y, x, w, h - 1);
        lemma_opposite_involution(vertical[y * w + x]);
    }
    assert forall|x: int, y: int| 0 <= y < h && 0 <= x && x + 1 < w implies #[trigger] g[y][x
        + 1].left == opposite_of(g[y][x].right) && g[y][x].right
        != PieceConnection::Nothing by {
        lemma_row_index_bound(x, y, h, w - 1);
    }
}

impl PieceConnections {
    /// A piece with four flat sides.
    pub fn empty() -> (r: PieceConnections)
        ensures
            r.top == PieceConnection::Nothing,
            r.right == PieceConnection::Nothing,
            r.bottom == PieceConnection::Nothing,
            r.left == PieceConnection::Nothing,
    {
        PieceConnections {
            top: PieceConnection::Nothing,
            right: PieceConnection::Nothing,
            bottom: PieceConnection::Nothing,
            left: PieceConnection::Nothing,
        }
    }

    /// Builds the grid of `width` by `height` pieces from the connections drawn
    /// for its inner edges, in the order described at `spec_piece`.
    pub fn connections_from_draws(
        width: usize,
        height: usize,
        vertical: &Vec<PieceConnection>,
        horizontal: &Vec<PieceConnection>,
    ) -> (matrix: Vec<Vec<PieceConnections>>)
        requires
            width >= 1,
            height >= 1,
            vertical.len() == (height - 1) * width,
            horizontal.len() == (width - 1) * height,
        ensures
            grid_view(matrix@) == spec_connections(
                width as int,
                height as int,
                vertical@,
                horizontal@,
            ),
    {
        let ghost w = width as int;
        let ghost h = height as int;
        let mut matrix: Vec<Vec<PieceConnections>> = Vec::new();
        let mut y: usize = 0;
        while y < height
            invariant
                y <= height,
                w == width,
                h == height,
                width >= 1,
                height >= 1,
                vertical.len() == (h - 1) * w,
                horizontal.len() == (w - 1) * h,
                matrix@.len() == y,
                forall|j: int|
                    0 <= j < y ==> #[trigger] matrix@[j]@ == Seq::new(
                        w as nat,
                        |x: int| spec_piece(w, h, vertical@, horizontal@, x, j),
                    ),
            decreases height - y,
        {
            let mut row: Vec<PieceConnections> = Vec::new();
            let mut x: usize = 0;
            while x < width
                invariant
                    x <= width,
                    y < height,
                    w == width,
                    h == height,
                    width >= 1,
                    height >= 1,
                    vertical.len() == (h - 1) * w,
                    horizontal.len() == (w - 1) * h,
                    row@.len() == x,
                    forall|i: int|
                        0 <= i < x ==> #[trigger] row@[i] == spec_piece(
                            w,
                            h,
                            vertical@,
                            horizontal@,
                            i,
                            y as int,
                        ),
                decreases width - x,
            {
                let top = if y > 0 {
                    proof {
                        lemma_row_index_bound(y - 1, x as int, w, h - 1);
                    }
                    vertical[(y - 1) * width + x].opposite()
                } else {
                    PieceConnection::Nothing
                };
                let right = if x + 1 < width {
                    proof {
                        lemma_row_index_bound(x as int, y as int, h, w - 1);
                    }
                    horizontal[x * height + y]
                } else {
                    PieceConnection::Nothing
                };
                let bottom = if y + 1 < height {
                    proof {
                        lemma_row_index_bound(y as int, x as int, w, h - 1);
                    }
                    vertical[y * width + x]
                } else {
                    PieceConnection::Nothing
                };
                let left = if x > 0 {
                    proof {
                        lemma_row_index_bound(x - 1, y as int, h, w - 1);
                    }
                    horizontal[(x - 1) * height + y].opposite()
                } else {
                    PieceConnection::Nothing
                };
                row.push(PieceConnections { top, right, bottom, left });
                x = x + 1;
            }
            assert(row@ =~= Seq::new(
                w as nat,
                |i: int| spec_piece(w, h, vertical@, horizontal@, i, y as int),
            ));
            matrix.push(row);
            y = y + 1;
        }
        assert(grid_view(matrix@) =~= spec_connections(w, h, vertical@, horizontal@));
        matrix
    }

    /// Generates the connections of every piece of a picture `width_px` by
    /// `height_px` pixels cut into square tiles of `tile_size_px` pixels, drawn
    /// from a generator seeded with `seed`, or by the operating system when
    /// there is none. Row `y`, column `x` of the result is the piece at `(x, y)`.
    /// With a seed the grid is a function of the seed, the sizes and the
    /// coins of the seeded generator: equal seeds give equal grids.
    pub fn generate_connections_for_size(
        width_px: u32,
        height_px: u32,
        tile_size_px: u32,
        seed: Option<u64>,
    ) -> (matrix: Vec<Vec<PieceConnections>>)
        requires
            tile_size_px > 0,
            width_px / tile_size_px >= 1,
            height_px / tile_size_px >= 1,
            (width_px / tile_size_px) * (height_px / tile_size_px) <= usize::MAX,
        ensures
            well_connected(
                grid_view(matrix@),
                (width_px / tile_size_px) as int,
                (height_px / tile_size_px) as int,
            ),
            exists|vertical: Seq<PieceConnection>, horizontal: Seq<PieceConnection>|
                all_inner(vertical) && all_inner(horizontal) && grid_view(matrix@)
                    == spec_connections(
                    (width_px / tile_size_px) as int,
                    (height_px / tile_size_px) as int,
                    vertical,
                    horizontal,
                ),
            exists|r0: StdRng|
                #[trigger] grid_from_coins(
                    r0,
                    (width_px / tile_size_px) as int,
                    (height_px / tile_size_px) as int,
                ) == grid_view(matrix@),
            seed matches Some(s) ==> grid_view(matrix@) == spec_connections(
                (width_px / tile_size_px) as int,
                (height_px / tile_size_px) as int,
                seeded_draws(s, 0, ((height_px / tile_size_px) - 1) * (width_px / tile_size_px)),
                seeded_draws(
                    s,
                    ((height_px / tile_size_px) - 1) * (width_px / tile_size_px),
                    ((width_px / tile_size_px) - 1) * (height_px / tile_size_px),
                ),
            ),
    {
        let mut rng = match seed {
            Some(seed) => seeded_rng(seed),
            None => entropy_rng(),
        };
        let ghost rng0 = rng;
        let width = (width_px / tile_size_px) as usize;
        let height = (height_px / tile_size_px) as usize;
        proof {
            assert(width * height <= usize::MAX);
            assert((height - 1) * width <= usize::MAX) by (nonlinear_arith)
                requires
                    height >= 1,
                    width >= 1,
                    width * height <= usize::MAX,
            ;
            assert((width - 1) * height <= usize::MAX) by (nonlinear_arith)
                requires
                    height >= 1,
                    width >= 1,
                    width * height <= usize::MAX,
            ;
        }

        let mut vertical: Vec<PieceConnection> = Vec::new();
        let mut y: usize = 0;
        while y < height - 1
            invariant
                y <= height - 1,
                height >= 1,
                width >= 1,
                (height - 1) * width <= usize::MAX,
                vertical@.len() == y * width,
                all_inner(vertical@),
                vertical@ == drawn(rng0, 0, vertical@.len() as int),
                forall|k: nat| #[trigger] coin_at(rng, k) == coin_at(rng0, (vertical@.len() + k) as nat),
            decreases height - 1 - y,
        {
            let mut x: usize = 0;
            proof {
                lemma_row_index_bound(y as int, 0, width as int, height - 1);
            }
            while x < width
                invariant
                    x <= width,
                    y < height - 1,
                    (height - 1) * width <= usize::MAX,
                    vertical@.len() == y * width + x,
                    all_inner(vertical@),
                    vertical@ == drawn(rng0, 0, vertical@.len() as int),
                    forall|k: nat| #[trigger] coin_at(rng, k) == coin_at(rng0, (vertical@.len() + k) as nat),
                decreases width - x,
            {
                proof {
                    lemma_row_index_bound(y as int, x as int, width as int, height - 1);
                }
                let ghost before = vertical@;
                let ghost rng_before = rng;
                let c = PieceConnection::random(&mut rng);
                vertical.push(c);
                proof {
                    assert(coin_at(rng_before, 0) == coin_at(rng0, before.len() as nat));
                    assert(vertical@ =~= drawn(rng0, 0, vertical@.len() as int));
                    assert forall|k: nat| #[trigger] coin_at(rng, k) == coin_at(rng0, (vertical@.len() + k) as nat) by {
                        assert(coin_at(rng_before, k + 1) == coin_at(rng0, (before.len() + (k + 1)) as nat));
                    }
                }
                x = x + 1;
            }
            proof {
                lemma_row_index_bound(y as int, 0, width as int, height - 1);
            }
            y = y + 1;
        }

        let mut horizontal: Vec<PieceConnection> = Vec::new();
        let mut x: usize = 0;
        while x < width - 1
            invariant
                x <= width - 1,
                height >= 1,
                width >= 1,
                (width - 1) * height <= usize::MAX,
                horizontal@.len() == x * height,
                all_inner(horizontal@),
                vertical@ == drawn(rng0, 0, vertical@.len() as int),
                vertical@.len() == (height - 1) * width,
                horizontal@ == drawn(rng0, vertical@.len() as int, horizontal@.len() as int),
                forall|k: nat| #[trigger] coin_at(rng, k) == coin_at(rng0, (vertical@.len() + horizontal@.len() + k) as nat),
            decreases width - 1 - x,
        {
            let mut y: usize = 0;
            proof {
                lemma_row_index_bound(x as int, 0, height as int, width - 1);
            }
            while y < height
                invariant
                    y <= height,
                    x < width - 1,
                    (width - 1) * height <= usize::MAX,
                    horizontal@.len() == x * height + y,
                    all_inner(horizontal@),
                    horizontal@ == drawn(rng0, vertical@.len() as int, horizontal@.len() as int),
                    forall|k: nat| #[trigger] coin_at(rng, k) == coin_at(rng0, (vertical@.len() + horizontal@.len() + k) as nat),
                decreases height - y,
            {
                proof {
                    lemma_row_index_bound(x as int, y as int, height as int, width - 1);
                }
                let ghost before = horizontal@;
                let ghost rng_before = rng;
                let c = PieceConnection::random(&mut rng);
                horizontal.push(c);
                proof {
                    assert(coin_at(rng_before, 0) == coin_at(rng0, (vertical@.len() + before.len()) as nat));
                    assert(horizontal@ =~= drawn(rng0, vertical@.len() as int, horizontal@.len() as int));
                    assert forall|k: nat| #[trigger] coin_at(rng, k) == coin_at(rng0, (vertical@.len() + horizontal@.len() + k) as nat) by {
                        assert(coin_at(rng_before, k + 1) == coin_at(rng0, (vertical@.len() + before.len() + (k + 1)) as nat));
                    }
                }
                y = y + 1;
            }
            proof {
                lemma_row_index_bound(x as int, 0, height as int, width - 1);
            }
            x = x + 1;
        }

        let matrix = Self::connections_from_draws(width, height, &vertical, &horizontal);
        proof {
            lemma_draws_are_well_connected(width as int, height as int, vertical@, horizontal@);
            assert(grid_from_coins(rng0, width as int, height as int) == grid_view(matrix@));
            if let Some(s) = seed {
                assert(vertical@ =~= seeded_draws(s, 0, vertical@.len() as int));
                assert(horizontal@ =~= seeded_draws(s, vertical@.len() as int, horizontal@.len() as int));
            }
        }
        matrix
    }
}

} // verus!
