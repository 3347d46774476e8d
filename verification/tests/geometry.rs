use jigsaw::connections::{PieceConnection, PieceConnections};
use jigsaw::layout::{
    oriented_sides, plan_puzzle, tile_plan, try_get_puzzle_image_dimensions, TILE_PADDING_PX,
    TILE_SIZE_PX, TILE_WITH_PADDING_SIZE_PX,
};
use jigsaw::model::puzzle::JigsawIndex;
use jigsaw::outline::{OutlineCommand, OutlineCoord, OutlinePoint, CONNECTION_FORTIETHS};

use PieceConnection::{ConnectedToNeighbor as Knob, NeighborConnected as Socket, Nothing};

fn value(c: OutlineCoord) -> i32 {
    (if c.far_edge { 40 } else { 0 }) + c.fortieths
}

fn end_point(cmd: &OutlineCommand) -> (i32, i32) {
    let p = match cmd {
        OutlineCommand::MoveTo(p) | OutlineCommand::LineTo(p) => *p,
        OutlineCommand::CubicTo(_, _, p) => *p,
    };
    (value(p.x), value(p.y))
}

fn points(cmds: &[OutlineCommand]) -> Vec<(i32, i32)> {
    let mut out = Vec::new();
    for cmd in cmds {
        match cmd {
            OutlineCommand::MoveTo(p) | OutlineCommand::LineTo(p) => out.push(*p),
            OutlineCommand::CubicTo(a, b, c) => {
                out.push(*a);
                out.push(*b);
                out.push(*c);
            }
        }
    }
    out.into_iter().map(|p: OutlinePoint| (value(p.x), value(p.y))).collect()
}

fn piece(top: PieceConnection, right: PieceConnection, bottom: PieceConnection, left: PieceConnection) -> PieceConnections {
    PieceConnections { top, right, bottom, left }
}

#[test]
fn opposite_connections() {
    assert_eq!(Knob.opposite(), Socket);
    assert_eq!(Socket.opposite(), Knob);
    assert_eq!(Nothing.opposite(), Nothing);
    for c in [Knob, Socket, Nothing] {
        assert_eq!(c.opposite().opposite(), c);
    }
}

#[test]
fn empty_piece_is_flat() {
    assert_eq!(PieceConnections::empty(), piece(Nothing, Nothing, Nothing, Nothing));
}

#[test]
fn random_connection_is_never_flat() {
    let mut rng = <rand::rngs::StdRng as rand::SeedableRng>::seed_from_u64(3);
    let mut seen = [false, false];
    for _ in 0..200 {
        match PieceConnection::random(&mut rng) {
            Knob => seen[0] = true,
            Socket => seen[1] = true,
            Nothing => panic!("an inner side is never flat"),
        }
    }
    assert_eq!(seen, [true, true]);
}

#[test]
fn grid_from_draws() {
    // two columns, two rows: one inner horizontal edge per column, one inner
    // vertical edge per row
    let vertical = vec![Knob, Socket];
    let horizontal = vec![Socket, Knob];
    let m = PieceConnections::connections_from_draws(2, 2, &vertical, &horizontal);
    assert_eq!(m[0][0], piece(Nothing, Socket, Knob, Nothing));
    assert_eq!(m[0][1], piece(Nothing, Nothing, Socket, Knob));
    assert_eq!(m[1][0], piece(Socket, Knob, Nothing, Nothing));
    assert_eq!(m[1][1], piece(Knob, Nothing, Nothing, Socket));
}

fn assert_well_connected(m: &Vec<Vec<PieceConnections>>, w: usize, h: usize) {
    assert_eq!(m.len(), h);
    for y in 0..h {
        assert_eq!(m[y].len(), w);
        for x in 0..w {
            let p = m[y][x];
            if y == 0 { assert_eq!(p.top, Nothing) } else { assert_eq!(p.top, m[y - 1][x].bottom.opposite()) }
            if x == 0 { assert_eq!(p.left, Nothing) } else { assert_eq!(p.left, m[y][x - 1].right.opposite()) }
            if y + 1 == h { assert_eq!(p.bottom, Nothing) } else { assert_ne!(p.bottom, Nothing) }
            if x + 1 == w { assert_eq!(p.right, Nothing) } else { assert_ne!(p.right, Nothing) }
        }
    }
}

#[test]
fn generated_grid_fits_together() {
    let m = PieceConnections::generate_connections_for_size(1920, 1440, 240, Some(42));
    assert_well_connected(&m, 8, 6);
    let again = PieceConnections::generate_connections_for_size(1920, 1440, 240, Some(42));
    assert_eq!(m, again);
    let single = PieceConnections::generate_connections_for_size(240, 240, 240, None);
    assert_well_connected(&single, 1, 1);
    let odd = PieceConnections::generate_connections_for_size(1000, 250, 240, None);
    assert_well_connected(&odd, 4, 1);
}

#[test]
fn flat_piece_outline_is_the_tile_square() {
    let path = PieceConnections::empty().piece_outline();
    assert_eq!(path.len(), 5);
    let pts = points(&path);
    assert_eq!(pts, vec![(0, 0), (40, 0), (40, 40), (0, 40), (0, 0)]);
    assert!(matches!(path[0], OutlineCommand::MoveTo(_)));
}

#[test]
fn tab_outline_points() {
    let path = piece(Knob, Nothing, Nothing, Nothing).piece_outline();
    assert_eq!(CONNECTION_FORTIETHS, 5);
    // move, three cubic segments for the top tab, three straight sides
    assert_eq!(path.len(), 7);
    let top: Vec<(i32, i32)> = points(&path[1..4]);
    assert_eq!(
        top,
        vec![(8, 0), (20, 5), (15, -5), (10, -15), (30, -15), (25, -5), (20, 5), (32, 0), (40, 0)]
    );
    let socket = piece(Socket, Nothing, Nothing, Nothing).piece_outline();
    let top: Vec<(i32, i32)> = points(&socket[1..4]);
    assert_eq!(
        top,
        vec![(8, 0), (20, -5), (15, 5), (10, 15), (30, 15), (25, 5), (20, -5), (32, 0), (40, 0)]
    );
}

#[test]
fn outlines_are_closed_and_stay_in_the_padding() {
    for top in [Knob, Socket, Nothing] {
        for right in [Knob, Socket, Nothing] {
            for bottom in [Knob, Socket, Nothing] {
                for left in [Knob, Socket, Nothing] {
                    let path = piece(top, right, bottom, left).piece_outline();
                    assert_eq!(end_point(path.last().unwrap()), (0, 0));
                    for (x, y) in points(&path) {
                        assert!(-20 <= x && x <= 60 && -20 <= y && y <= 60);
                    }
                }
            }
        }
    }
}

#[test]
fn neighbouring_outlines_share_their_side() {
    // the bottom side of an upper piece, read backwards, is the top side of
    // the piece below, one tile lower
    for c in [Knob, Socket] {
        let upper = piece(Nothing, Nothing, c, Nothing).piece_outline();
        let lower = piece(c.opposite(), Nothing, Nothing, Nothing).piece_outline();
        let mut bottom: Vec<(i32, i32)> = points(&upper[2..6]);
        bottom.reverse();
        let top: Vec<(i32, i32)> = points(&lower[0..4]);
        let shifted: Vec<(i32, i32)> = top.iter().map(|&(x, y)| (x, y + 40)).collect();
        assert_eq!(bottom, shifted);
    }
}

#[test]
fn puzzle_dimensions() {
    assert_eq!(oriented_sides(4000, 3000), (4000, 3000));
    assert_eq!(oriented_sides(3000, 4000), (4000, 3000));
    assert_eq!(try_get_puzzle_image_dimensions(4000, 3000, 6), Some((1920, 1440)));
    assert_eq!(try_get_puzzle_image_dimensions(3000, 4000, 6), Some((1440, 1920)));
    assert_eq!(try_get_puzzle_image_dimensions(1000, 1000, 8), Some((1920, 1920)));
    assert_eq!(try_get_puzzle_image_dimensions(4000, 100, 0), None);
    assert_eq!(TILE_SIZE_PX, 240);
    assert_eq!(TILE_PADDING_PX, 120);
    assert_eq!(TILE_WITH_PADDING_SIZE_PX, 480);
}

#[test]
fn tiles_come_column_by_column() {
    let m = PieceConnections::generate_connections_for_size(720, 480, 240, Some(1));
    let plan = tile_plan(720, 480, &m);
    assert_eq!(plan.len(), 6);
    let places: Vec<(u32, u32, u32, u32)> =
        plan.iter().map(|t| (t.index.x, t.index.y, t.crop_x, t.crop_y)).collect();
    assert_eq!(
        places,
        vec![(0, 0, 0, 0), (0, 1, 0, 240), (1, 0, 240, 0), (1, 1, 240, 240), (2, 0, 480, 0), (2, 1, 480, 240)]
    );
    for t in &plan {
        assert_eq!(t.connections, m[t.index.y as usize][t.index.x as usize]);
    }
}

#[test]
fn puzzle_plan() {
    let plan = plan_puzzle(4000, 3000, 6, Some(9)).expect("six tiles fit");
    assert_eq!((plan.width, plan.height), (1920, 1440));
    assert_eq!(plan.meta.tile_size_px, 240);
    assert_eq!(plan.meta.image_dimensions_px, (1920, 1440));
    assert_eq!(plan.tiles.len(), 48);
    assert_eq!(plan.tiles[0].index, JigsawIndex::new(0, 0));
    assert_eq!(plan.tiles[47].index, JigsawIndex::new(7, 5));
    assert!(plan_puzzle(4000, 100, 0, Some(9)).is_none());
}

#[test]
fn side_by_side_outlines_share_their_side() {
    // the right side of a left piece, read backwards, is the left side of
    // the piece to its right, one tile further right
    for c in [Knob, Socket, Nothing] {
        let left = piece(Nothing, c, Nothing, Nothing).piece_outline();
        let right = piece(Nothing, Nothing, Nothing, c.opposite()).piece_outline();
        let right_side_len = if c == Nothing { 1 } else { 3 };
        let mut side: Vec<(i32, i32)> = points(&left[1..2 + right_side_len]);
        side.reverse();
        let left_side_start = right.len() - if c == Nothing { 1 } else { 3 };
        let traced: Vec<(i32, i32)> = points(&right[left_side_start - 1..]);
        let shifted: Vec<(i32, i32)> = traced.iter().map(|&(x, y)| (x + 40, y)).collect();
        assert_eq!(side, shifted);
    }
}

#[test]
fn a_coin_decides_knob_or_socket() {
    assert_eq!(PieceConnection::from_coin(true), Knob);
    assert_eq!(PieceConnection::from_coin(false), Socket);
}

fn tab(vertical: bool, far: bool, flip: bool, reverse: bool) -> Vec<(i32, i32)> {
    let mut path = Vec::new();
    if vertical {
        PieceConnections::append_vertical_connection_to_mask(&mut path, 5, far, flip, reverse);
    } else {
        PieceConnections::append_horizontal_connection_to_mask(&mut path, 5, far, flip, reverse);
    }
    assert_eq!(path.len(), 3);
    points(&path)
}

#[test]
fn tabs_mirror_transpose_and_retrace() {
    for far in [false, true] {
        let edge = if far { 40 } else { 0 };
        for reverse in [false, true] {
            for flip in [false, true] {
                let h = tab(false, far, flip, reverse);
                let v = tab(true, far, flip, reverse);
                // the vertical tab is the horizontal one transposed
                let swapped: Vec<(i32, i32)> = h.iter().map(|&(x, y)| (y, x)).collect();
                assert_eq!(v, swapped);
                // flip mirrors the tab across its side
                let mirrored = tab(false, far, !flip, reverse);
                for (p, q) in h.iter().zip(mirrored.iter()) {
                    assert_eq!(p.0, q.0);
                    assert_eq!(p.1 - edge, -(q.1 - edge));
                }
            }
            // a tab drawn backwards retraces the forward tab of opposite flip
            let mut backwards = vec![(40, edge)];
            backwards.extend(tab(false, far, true, true));
            let mut forwards = vec![(0, edge)];
            forwards.extend(tab(false, far, false, false));
            forwards.reverse();
            assert_eq!(backwards, forwards);
        }
    }
}
