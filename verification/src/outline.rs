//! The outline of a puzzle piece.
//!
//! A piece is a square tile whose sides are either straight (a border side) or
//! carry a tab: a knob that reaches into the neighbour or a socket that
//! receives the neighbour's knob. The outline is a closed path of straight and
//! cubic Bézier segments. Coordinates are exact: each one is a number of
//! fortieths of a tile, counted from the near edge of the tile (its left or top
//! edge) or from its far edge (its right or bottom edge). A renderer turns the
//! outline into pixels once it knows the size and position of the tile.
use vstd::prelude::*;

use crate::connections::{opposite_of, PieceConnection, PieceConnections};

verus! {

/// Fortieths in one tile side.
pub const FORTIETHS_PER_TILE: i32 = 40;

/// How far a tab reaches beyond its side, in fortieths of a tile (an eighth of
/// a tile).
pub const CONNECTION_FORTIETHS: i32 = 5;

/// The largest reach of a tab, in fortieths of a tile, whose points all fit
/// in an `i32`: a third of `i32::MAX`.
pub const MAX_TAB_FORTIETHS: i32 = 715_827_882;

/// One coordinate of an outline point: `fortieths` fortieths of a tile from
/// the near edge of the tile, or from its far edge when `far_edge` is set.
#[derive(Copy, Clone, Debug, PartialEq, Eq, Structural)]
pub struct OutlineCoord {
    pub far_edge: bool,
    pub fortieths: i32,
}

/// A point of an outline.
#[derive(Copy, Clone, Debug, PartialEq, Eq, Structural)]
pub struct OutlinePoint {
    pub x: OutlineCoord,
    pub y: OutlineCoord,
}

/// One step of an outline path.
#[derive(Copy, Clone, Debug, PartialEq, Eq, Structural)]
pub enum OutlineCommand {
    /// Starts the path at a point.
    MoveTo(OutlinePoint),
    /// A straight segment to a point.
    LineTo(OutlinePoint),
    /// A cubic Bézier segment with two control points and an end point.
    CubicTo(OutlinePoint, OutlinePoint, OutlinePoint),
}

/// The distance of a coordinate from the near edge, in fortieths of a tile.
pub open spec fn coord_value(c: OutlineCoord) -> int {
    (if c.far_edge {
        FORTIETHS_PER_TILE as int
    } else {
        0
    }) + c.fortieths
}

/// The position of a point, in fortieths of a tile from the tile's top left corner.
pub open spec fn point_value(p: OutlinePoint) -> (int, int) {
    (coord_value(p.x), coord_value(p.y))
}

pub open spec fn coord(far_edge: bool, fortieths: int) -> OutlineCoord {
    OutlineCoord { far_edge, fortieths: fortieths as i32 }
}

/// The point of a side that lies `along` fortieths along the side and `across`
/// fortieths across it, from the near edge or from the far edge of the tile.
/// Horizontal sides run along x, vertical sides along y.
pub open spec fn side_point(vertical: bool, along: int, across: int, across_far: bool) -> OutlinePoint {
    if vertical {
        OutlinePoint { x: coord(across_far, across), y: coord(false, along) }
    } else {
        OutlinePoint { x: coord(false, along), y: coord(across_far, across) }
    }
}

/// How far along the side the `i`-th point of a tab lies, when the side is
/// drawn in its forward direction (left to right, or top to bottom). `c` is
/// how far the tab reaches beyond the side.
pub open spec fn tab_along(c: int, i: int) -> int {
    if i == 0 {
        8
    } else if i == 1 {
        20
    } else if i == 2 {
        20 - c
    } else if i == 3 {
        20 - 2 * c
    } else if i == 4 {
        20 + 2 * c
    } else if i == 5 {
        20 + c
    } else if i == 6 {
        20
    } else if i == 7 {
        32
    } else {
        40
    }
}

/// How far across the side the `i`-th point of a tab lies, before the tab is
/// turned outward or inward.
pub open spec fn tab_across(c: int, i: int) -> int {
    if i == 1 || i == 6 {
        -c
    } else if i == 2 || i == 5 {
        c
    } else if i == 3 || i == 4 {
        3 * c
    } else {
        0
    }
}

/// The direction of a tab across its side: -1 when the tab points toward the
/// near edge, 1 otherwise. A side drawn backwards turns its tab around.
pub open spec fn tab_sign(flip: bool, reverse: bool) -> int {
    if flip != reverse {
        -1
    } else {
        1
    }
}

/// The `i`-th point (of nine) of a tab.
pub open spec fn tab_point(
    c: int,
    vertical: bool,
    across_far: bool,
    flip: bool,
    reverse: bool,
    i: int,
) -> OutlinePoint {
    let along = if reverse {
        FORTIETHS_PER_TILE - tab_along(c, i)
    } else {
        tab_along(c, i)
    };
    side_point(vertical, along, tab_sign(flip, reverse) * tab_across(c, i), across_far)
}

/// A side with a tab: three cubic segments through the nine tab points.
pub open spec fn spec_tab(
    c: int,
    vertical: bool,
    across_far: bool,
    flip: bool,
    reverse: bool,
) -> Seq<OutlineCommand> {
    let p = |i: int| tab_point(c, vertical, across_far, flip, reverse, i);
    seq![
        OutlineCommand::CubicTo(p(0), p(1), p(2)),
        OutlineCommand::CubicTo(p(3), p(4), p(5)),
        OutlineCommand::CubicTo(p(6), p(7), p(8)),
    ]
}

/// The top side, drawn from the top left corner to the top right corner.
pub open spec fn top_side(conn: PieceConnection, c: int) -> Seq<OutlineCommand> {
    if conn != PieceConnection::Nothing {
        spec_tab(c, false, false, conn == PieceConnection::ConnectedToNeighbor, false)
    } else {
        seq![OutlineCommand::LineTo(OutlinePoint { x: coord(true, 0), y: coord(false, 0) })]
    }
}

/// The right side, drawn from the top right corner to the bottom right corner.
pub open spec fn right_side(conn: PieceConnection, c: int) -> Seq<OutlineCommand> {
    if conn != PieceConnection::Nothing {
        spec_tab(c, true, true, conn == PieceConnection::ConnectedToNeighbor, false)
    } else {
        seq![OutlineCommand::LineTo(OutlinePoint { x: coord(true, 0), y: coord(true, 0) })]
    }
}

/// The bottom side, drawn from the bottom right corner to the bottom left corner.
pub open spec fn bottom_side(conn: PieceConnection, c: int) -> Seq<OutlineCommand> {
    if conn != PieceConnection::Nothing {
        spec_tab(c, false, true, conn == PieceConnection::ConnectedToNeighbor, true)
    } else {
        seq![OutlineCommand::LineTo(OutlinePoint { x: coord(false, 0), y: coord(true, 0) })]
    }
}

/// The left side, drawn from the bottom left corner back to the top left corner.
pub open spec fn left_side(conn: PieceConnection, c: int) -> Seq<OutlineCommand> {
    if conn != PieceConnection::Nothing {
        spec_tab(c, true, false, conn == PieceConnection::ConnectedToNeighbor, true)
    } else {
        seq![OutlineCommand::LineTo(OutlinePoint { x: coord(false, 0), y: coord(false, 0) })]
    }
}

/// The top left corner of the tile, where every outline starts.
pub open spec fn origin() -> OutlinePoint {
    OutlinePoint { x: coord(false, 0), y: coord(false, 0) }
}

/// The outline of a piece with tabs reaching `c` fortieths beyond its sides:
/// clockwise from the top left corner.
pub open spec fn spec_piece_outline(p: PieceConnections, c: int) -> Seq<OutlineCommand> {
    seq![OutlineCommand::MoveTo(origin())] + top_side(p.top, c) + right_side(p.right, c)
        + bottom_side(p.bottom, c) + left_side(p.left, c)
}

/// The points that a path step passes through: its control points and its end point.
pub open spec fn command_points(cmd: OutlineCommand) -> Seq<OutlinePoint> {
    match cmd {
        OutlineCommand::MoveTo(p) => seq![p],
        OutlineCommand::LineTo(p) => seq![p],
        OutlineCommand::CubicTo(a, b, p) => seq![a, b, p],
    }
}

/// Where a path step ends.
pub open spec fn command_end(cmd: OutlineCommand) -> OutlinePoint {
    match cmd {
        OutlineCommand::MoveTo(p) => p,
        OutlineCommand::LineTo(p) => p,
        OutlineCommand::CubicTo(_, _, p) => p,
    }
}

/// The positions of all points of a path, in order.
pub open spec fn path_values(cmds: Seq<OutlineCommand>) -> Seq<(int, int)>
    decreases cmds.len(),
{
    if cmds.len() == 0 {
        seq![]
    } else {
        command_points(cmds[0]).map_values(|p: OutlinePoint| point_value(p)) + path_values(
            cmds.drop_first(),
        )
    }
}

/// The positions that a side passes through, from its start corner on.
pub open spec fn side_trace(start: (int, int), side: Seq<OutlineCommand>) -> Seq<(int, int)> {
    seq![start] + path_values(side)
}

/// A trace moved by `dx`, `dy` fortieths.
pub open spec fn shifted(trace: Seq<(int, int)>, dx: int, dy: int) -> Seq<(int, int)> {
    trace.map_values(|v: (int, int)| (v.0 + dx, v.1 + dy))
}

/// Every point of the path lies within `lo` and `hi` fortieths of the tile's
/// top left corner, on both axes.
pub open spec fn path_within(cmds: Seq<OutlineCommand>, lo: int, hi: int) -> bool {
    forall|i: int|
        0 <= i < path_values(cmds).len() ==> lo <= (#[trigger] path_values(cmds)[i]).0 <= hi && lo
            <= path_values(cmds)[i].1 <= hi
}

proof fn lemma_tab_values(c: int, vertical: bool, across_far: bool, flip: bool, reverse: bool)
    requires
        -MAX_TAB_FORTIETHS <= c <= MAX_TAB_FORTIETHS,
    ensures
        path_values(spec_tab(c, vertical, across_far, flip, reverse)) == Seq::new(
            9,
            |i: int| point_value(tab_point(c, vertical, across_far, flip, reverse, i)),
        ),
{
    let t = spec_tab(c, vertical, across_far, flip, reverse);
    reveal_with_fuel(path_values, 4);
    assert(t.drop_first().drop_first().drop_first() =~= Seq::<OutlineCommand>::empty());
    assert(path_values(t) =~= Seq::new(
        9,
        |i: int| point_value(tab_point(c, vertical, across_far, flip, reverse, i)),
    ));
}

proof fn lemma_line_values(p: OutlinePoint)
    ensures
        path_values(seq![OutlineCommand::LineTo(p)]) == seq![point_value(p)],
{
    reveal_with_fuel(path_values, 2);
    assert(seq![OutlineCommand::LineTo(p)].drop_first() =~= Seq::<OutlineCommand>::empty());
    assert(path_values(seq![OutlineCommand::LineTo(p)]) =~= seq![point_value(p)]);
}

/// Two pieces on top of each other fit: when the lower piece's top side has the
/// connection opposite to the upper piece's bottom side, the upper piece's
/// bottom side, moved one tile up and read backwards, is exactly the lower
/// piece's top side.
pub proof fn lemma_vertical_neighbours_fit(upper: PieceConnection, lower: PieceConnection, c: int)
    requires
        lower == opposite_of(upper),
        -MAX_TAB_FORTIETHS <= c <= MAX_TAB_FORTIETHS,
    ensures
        shifted(side_trace((40, 40), bottom_side(upper, c)), 0, -40).reverse() == side_trace(
            (0, 0),
            top_side(lower, c),
        ),
{
    let b = bottom_side(upper, c);
    let t = top_side(lower, c);
    if upper == PieceConnection::Nothing {
        lemma_line_values(OutlinePoint { x: coord(false, 0), y: coord(true, 0) });
        lemma_line_values(OutlinePoint { x: coord(true, 0), y: coord(false, 0) });
    } else {
        lemma_tab_values(c, false, true, upper == PieceConnection::ConnectedToNeighbor, true);
        lemma_tab_values(c, false, false, lower == PieceConnection::ConnectedToNeighbor, false);
    }
    assert(shifted(side_trace((40, 40), b), 0, -40).reverse() =~= side_trace((0, 0), t));
}

/// Two pieces side by side fit: when the right piece's left side has the
/// connection opposite to the left piece's right side, the left piece's right
/// side, moved one tile left and read backwards, is exactly the right piece's
/// left side.
pub proof fn lemma_horizontal_neighbours_fit(
    left_piece: PieceConnection,
    right_piece: PieceConnection,
    c: int,
)
    requires
        right_piece == opposite_of(left_piece),
        -MAX_TAB_FORTIETHS <= c <= MAX_TAB_FORTIETHS,
    ensures
        shifted(side_trace((40, 0), right_side(left_piece, c)), -40, 0).reverse() == side_trace(
            (0, 40),
            left_side(right_piece, c),
        ),
{
    let r = right_side(left_piece, c);
    let l = left_side(right_piece, c);
    if left_piece == PieceConnection::Nothing {
        lemma_line_values(OutlinePoint { x: coord(true, 0), y: coord(true, 0) });
        lemma_line_values(OutlinePoint { x: coord(false, 0), y: coord(false, 0) });
    } else {
        lemma_tab_values(c, true, true, left_piece == PieceConnection::ConnectedToNeighbor, false);
        lemma_tab_values(c, true, false, right_piece == PieceConnection::ConnectedToNeighbor, true);
    }
    assert(shifted(side_trace((40, 0), r), -40, 0).reverse() =~= side_trace((0, 40), l));
}

/// A tab drawn backwards retraces the tab drawn forwards with the opposite
/// `flip`: starting from the far end of the side, it passes through the
/// same points in the opposite order and ends where the forward tab starts.
/// This is how one piece draws the side it shares with its neighbour.
pub proof fn lemma_reverse_tab_retraces(c: int, vertical: bool, across_far: bool, flip: bool)
    requires
        -MAX_TAB_FORTIETHS <= c <= MAX_TAB_FORTIETHS,
    ensures
        side_trace(
            point_value(side_point(vertical, 40, 0, across_far)),
            spec_tab(c, vertical, across_far, flip, true),
        ) == side_trace(
            point_value(side_point(vertical, 0, 0, across_far)),
            spec_tab(c, vertical, across_far, !flip, false),
        ).reverse(),
{
    lemma_tab_values(c, vertical, across_far, flip, true);
    lemma_tab_values(c, vertical, across_far, !flip, false);
    assert(side_trace(
        point_value(side_point(vertical, 40, 0, across_far)),
        spec_tab(c, vertical, across_far, flip, true),
    ) =~= side_trace(
        point_value(side_point(vertical, 0, 0, across_far)),
        spec_tab(c, vertical, across_far, !flip, false),
    ).reverse());
}

/// The distance of a point's coordinate across a side from that side, which
/// lies on the near or on the far edge of the tile.
pub open spec fn across_side(p: OutlinePoint, vertical: bool, across_far: bool) -> int {
    (if vertical {
        point_value(p).0
    } else {
        point_value(p).1
    }) - (if across_far {
        40int
    } else {
        0int
    })
}

/// A point's coordinate along a side.
pub open spec fn along_side(p: OutlinePoint, vertical: bool) -> int {
    if vertical {
        point_value(p).1
    } else {
        point_value(p).0
    }
}

/// `flip` mirrors a tab across its side: every point keeps its place along
/// the side, and its distance from the side changes sign.
pub proof fn lemma_flip_mirrors_tab(c: int, vertical: bool, across_far: bool, reverse: bool)
    requires
        -MAX_TAB_FORTIETHS <= c <= MAX_TAB_FORTIETHS,
    ensures
        forall|i: int|
            0 <= i < 9 ==> along_side(#[trigger] tab_point(c, vertical, across_far, true, reverse, i), vertical)
                == along_side(tab_point(c, vertical, across_far, false, reverse, i), vertical)
                && across_side(tab_point(c, vertical, across_far, true, reverse, i), vertical, across_far)
                == -across_side(tab_point(c, vertical, across_far, false, reverse, i), vertical, across_far),
{
}

/// A point with its two coordinates swapped.
pub open spec fn transposed(p: OutlinePoint) -> OutlinePoint {
    OutlinePoint { x: p.y, y: p.x }
}

/// A tab on a vertical side is the tab on a horizontal side mirrored across
/// the diagonal: every point has its coordinates swapped.
pub proof fn lemma_vertical_tab_is_transposed(
    c: int,
    across_far: bool,
    flip: bool,
    reverse: bool,
)
    ensures
        forall|i: int|
            0 <= i < 9 ==> #[trigger] tab_point(c, true, across_far, flip, reverse, i) == transposed(
                tab_point(c, false, across_far, flip, reverse, i),
            ),
{
}

/// The outline is one closed loop: it starts at the top left corner, each
/// side starts at the corner where the previous one ended (top right, bottom
/// right, bottom left), and the last side ends back at the top left corner.
pub proof fn lemma_outline_closed(p: PieceConnections, c: int)
    requires
        -MAX_TAB_FORTIETHS <= c <= MAX_TAB_FORTIETHS,
    ensures
        spec_piece_outline(p, c)[0] == OutlineCommand::MoveTo(origin()),
        point_value(command_end(top_side(p.top, c).last())) == (40int, 0int),
        point_value(command_end(right_side(p.right, c).last())) == (40int, 40int),
        point_value(command_end(bottom_side(p.bottom, c).last())) == (0int, 40int),
        point_value(command_end(left_side(p.left, c).last())) == (0int, 0int),
        spec_piece_outline(p, c).last() == left_side(p.left, c).last(),
{
}

/// For tabs that reach at most an eighth of a tile beyond a side (the size
/// that pieces are cut with), the whole outline stays within three eighths of a
/// tile around the tile, so inside a canvas padded by half a tile on every side.
pub proof fn lemma_outline_within_padding(p: PieceConnections, c: int)
    requires
        0 <= c <= CONNECTION_FORTIETHS,
    ensures
        path_within(spec_piece_outline(p, c), -3 * c, 40 + 3 * c),
        path_within(spec_piece_outline(p, c), -20, 60),
{
    let lo = -3 * c;
    let hi = 40 + 3 * c;
    let m = seq![OutlineCommand::MoveTo(origin())];
    reveal_with_fuel(path_values, 2);
    assert(m.drop_first() =~= Seq::<OutlineCommand>::empty());
    assert(path_values(m) =~= seq![(0int, 0int)]);
    lemma_side_within(top_side(p.top, c), p.top, c, false, false, false);
    lemma_side_within(right_side(p.right, c), p.right, c, true, true, false);
    lemma_side_within(bottom_side(p.bottom, c), p.bottom, c, false, true, true);
    lemma_side_within(left_side(p.left, c), p.left, c, true, false, true);
    let s1 = m + top_side(p.top, c);
    lemma_within_concat(m, top_side(p.top, c), lo, hi);
    let s2 = s1 + right_side(p.right, c);
    lemma_within_concat(s1, right_side(p.right, c), lo, hi);
    let s3 = s2 + bottom_side(p.bottom, c);
    lemma_within_concat(s2, bottom_side(p.bottom, c), lo, hi);
    lemma_within_concat(s3, left_side(p.left, c), lo, hi);
}

proof fn lemma_path_values_concat(a: Seq<OutlineCommand>, b: Seq<OutlineCommand>)
    ensures
        path_values(a + b) == path_values(a) + path_values(b),
    decreases a.len(),
{
    if a.len() == 0 {
        assert(a + b =~= b);
        assert(path_values(a) =~= Seq::<(int, int)>::empty());
        assert(path_values(a + b) =~= path_values(a) + path_values(b));
    } else {
        lemma_path_values_concat(a.drop_first(), b);
        assert((a + b).drop_first() =~= a.drop_first() + b);
        assert((a + b)[0] == a[0]);
        assert(path_values(a + b) =~= path_values(a) + path_values(b));
    }
}

proof fn lemma_within_concat(a: Seq<OutlineCommand>, b: Seq<OutlineCommand>, lo: int, hi: int)
    requires
        path_within(a, lo, hi),
        path_within(b, lo, hi),
    ensures
        path_within(a + b, lo, hi),
{
    lemma_path_values_concat(a, b);
    let va = path_values(a);
    let vb = path_values(b);
    assert forall|i: int| 0 <= i < path_values(a + b).len() implies lo <= (
    #[trigger] path_values(a + b)[i]).0 <= hi && lo <= path_values(a + b)[i].1 <= hi by {
        if i < va.len() {
            assert(path_values(a + b)[i] == va[i]);
        } else {
            assert(path_values(a + b)[i] == vb[i - va.len()]);
        }
    }
}

proof fn lemma_side_within(
    side: Seq<OutlineCommand>,
    conn: PieceConnection,
    c: int,
    vertical: bool,
    across_far: bool,
    reverse: bool,
)
    requires
        0 <= c <= CONNECTION_FORTIETHS,
        conn != PieceConnection::Nothing ==> side == spec_tab(
            c,
            vertical,
            across_far,
            conn == PieceConnection::ConnectedToNeighbor,
            reverse,
        ),
        conn == PieceConnection::Nothing ==> side.len() == 1 && (side[0] matches OutlineCommand::LineTo(q) && 0 <= point_value(q).0 <= 40 && 0 <= point_value(q).1 <= 40),
    ensures
        path_within(side, -3 * c, 40 + 3 * c),
{
    if conn != PieceConnection::Nothing {
        let flip = conn == PieceConnection::ConnectedToNeighbor;
        lemma_tab_values(c, vertical, across_far, flip, reverse);
        assert forall|i: int| 0 <= i < 9 implies -3 * c <= (#[trigger] point_value(
            tab_point(c, vertical, across_far, flip, reverse, i),
        )).0 <= 40 + 3 * c && -3 * c <= point_value(
            tab_point(c, vertical, across_far, flip, reverse, i),
        ).1 <= 40 + 3 * c by {
            assert(-3 * c <= tab_sign(flip, reverse) * tab_across(c, i) <= 3 * c);
        }
    } else {
        let q = command_end(side[0]);
        assert(side =~= seq![OutlineCommand::LineTo(q)]);
        lemma_line_values(q);
    }
}

/// The `i`-th point of a tab, computed.
fn make_tab_point(
    connection: i32,
    vertical: bool,
    across_far_edge: bool,
    flip: bool,
    reverse: bool,
    i: usize,
) -> (p: OutlinePoint)
    requires
        -MAX_TAB_FORTIETHS <= connection <= MAX_TAB_FORTIETHS,
        i < 9,
    ensures
        p == tab_point(connection as int, vertical, across_far_edge, flip, reverse, i as int),
{
    let c = connection;
    let along: i32 = if i == 0 {
        8
    } else if i == 1 {
        20
    } else if i == 2 {
        20 - c
    } else if i == 3 {
        20 - 2 * c
    } else if i == 4 {
        20 + 2 * c
    } else if i == 5 {
        20 + c
    } else if i == 6 {
        20
    } else if i == 7 {
        32
    } else {
        40
    };
    let across: i32 = if i == 1 || i == 6 {
        -c
    } else if i == 2 || i == 5 {
        c
    } else if i == 3 || i == 4 {
        3 * c
    } else {
        0
    };
    let along = if reverse {
        FORTIETHS_PER_TILE - along
    } else {
        along
    };
    let flip_in = flip;
    let flip = match reverse {
        true => !flip,
        false => flip,
    };
    let across = match flip {
        true => -across,
        false => across,
    };
    let ghost expected = tab_point(connection as int, vertical, across_far_edge, flip_in, reverse, i as int);
    let p = if vertical {
        OutlinePoint {
            x: OutlineCoord { far_edge: across_far_edge, fortieths: across },
            y: OutlineCoord { far_edge: false, fortieths: along },
        }
    } else {
        OutlinePoint {
            x: OutlineCoord { far_edge: false, fortieths: along },
            y: OutlineCoord { far_edge: across_far_edge, fortieths: across },
        }
    };
    assert(p.x == expected.x);
    assert(p.y == expected.y);
    p
}

fn append_tab(
    path: &mut Vec<OutlineCommand>,
    connection: i32,
    vertical: bool,
    across_far_edge: bool,
    flip: bool,
    reverse: bool,
)
    requires
        -MAX_TAB_FORTIETHS <= connection <= MAX_TAB_FORTIETHS,
    ensures
        final(path)@ == old(path)@ + spec_tab(
            connection as int,
            vertical,
            across_far_edge,
            flip,
            reverse,
        ),
{
    let p0 = make_tab_point(connection, vertical, across_far_edge, flip, reverse, 0);
    let p1 = make_tab_point(connection, vertical, across_far_edge, flip, reverse, 1);
    let p2 = make_tab_point(connection, vertical, across_far_edge, flip, reverse, 2);
    let p3 = make_tab_point(connection, vertical, across_far_edge, flip, reverse, 3);
    let p4 = make_tab_point(connection, vertical, across_far_edge, flip, reverse, 4);
    let p5 = make_tab_point(connection, vertical, across_far_edge, flip, reverse, 5);
    let p6 = make_tab_point(connection, vertical, across_far_edge, flip, reverse, 6);
    let p7 = make_tab_point(connection, vertical, across_far_edge, flip, reverse, 7);
    let p8 = make_tab_point(connection, vertical, across_far_edge, flip, reverse, 8);
    path.push(OutlineCommand::CubicTo(p0, p1, p2));
    path.push(OutlineCommand::CubicTo(p3, p4, p5));
    path.push(OutlineCommand::CubicTo(p6, p7, p8));
    assert(final(path)@ =~= old(path)@ + spec_tab(
        connection as int,
        vertical,
        across_far_edge,
        flip,
        reverse,
    ));
}

impl PieceConnections {
    /// Appends a tab on a horizontal side (top or bottom) to `path`. The side
    /// lies on the far (bottom) edge when `across_far_edge` is set; `flip`
    /// turns the tab toward the near edge and `reverse` draws the side from
    /// right to left.
    pub fn append_horizontal_connection_to_mask(
        path: &mut Vec<OutlineCommand>,
        connection: i32,
        across_far_edge: bool,
        flip: bool,
        reverse: bool,
    )
        requires
            -MAX_TAB_FORTIETHS <= connection <= MAX_TAB_FORTIETHS,
        ensures
            final(path)@ == old(path)@ + spec_tab(
                connection as int,
                false,
                across_far_edge,
                flip,
                reverse,
            ),
    {
        append_tab(path, connection, false, across_far_edge, flip, reverse);
    }

    /// Appends a tab on a vertical side (right or left) to `path`. The side
    /// lies on the far (right) edge when `across_far_edge` is set; `flip`
    /// turns the tab toward the near edge and `reverse` draws the side from
    /// bottom to top.
    pub fn append_vertical_connection_to_mask(
        path: &mut Vec<OutlineCommand>,
        connection: i32,
        across_far_edge: bool,
        flip: bool,
        reverse: bool,
    )
        requires
            -MAX_TAB_FORTIETHS <= connection <= MAX_TAB_FORTIETHS,
        ensures
            final(path)@ == old(path)@ + spec_tab(
                connection as int,
                true,
                across_far_edge,
                flip,
                reverse,
            ),
    {
        append_tab(path, connection, true, across_far_edge, flip, reverse);
    }

    /// The outline of this piece, clockwise from the top left corner, with tabs
    /// that reach an eighth of a tile beyond their sides.
    pub fn piece_outline(&self) -> (path: Vec<OutlineCommand>)
        ensures
            path@ == spec_piece_outline(*self, CONNECTION_FORTIETHS as int),
    {
        let c = CONNECTION_FORTIETHS;
        let mut path: Vec<OutlineCommand> = Vec::new();
        path.push(
            OutlineCommand::MoveTo(
                OutlinePoint {
                    x: OutlineCoord { far_edge: false, fortieths: 0 },
                    y: OutlineCoord { far_edge: false, fortieths: 0 },
                },
            ),
        );
        // top side
        if self.top != PieceConnection::Nothing {
            Self::append_horizontal_connection_to_mask(
                &mut path,
                c,
                false,
                self.top == PieceConnection::ConnectedToNeighbor,
                false,
            );
        } else {
            path.push(
                OutlineCommand::LineTo(
                    OutlinePoint {
                        x: OutlineCoord { far_edge: true, fortieths: 0 },
                        y: OutlineCoord { far_edge: false, fortieths: 0 },
                    },
                ),
            );
        }
        let ghost after_top = path@;
        assert(after_top =~= seq![OutlineCommand::MoveTo(origin())] + top_side(self.top, c as int));
        // right side
        if self.right != PieceConnection::Nothing {
            Self::append_vertical_connection_to_mask(
                &mut path,
                c,
                true,
                self.right == PieceConnection::ConnectedToNeighbor,
                false,
            );
        } else {
            path.push(
                OutlineCommand::LineTo(
                    OutlinePoint {
                        x: OutlineCoord { far_edge: true, fortieths: 0 },
                        y: OutlineCoord { far_edge: true, fortieths: 0 },
                    },
                ),
            );
        }
        assert(path@ =~= after_top + right_side(self.right, c as int));
        let ghost after_right = path@;
        // bottom side
        if self.bottom != PieceConnection::Nothing {
            Self::append_horizontal_connection_to_mask(
                &mut path,
                c,
                true,
                self.bottom == PieceConnection::ConnectedToNeighbor,
                true,
            );
        } else {
            path.push(
                OutlineCommand::LineTo(
                    OutlinePoint {
                        x: OutlineCoord { far_edge: false, fortieths: 0 },
                        y: OutlineCoord { far_edge: true, fortieths: 0 },
                    },
                ),
            );
        }
        assert(path@ =~= after_right + bottom_side(self.bottom, c as int));
        let ghost after_bottom = path@;
        // left side
        if self.left != PieceConnection::Nothing {
            Self::append_vertical_connection_to_mask(
                &mut path,
                c,
                false,
                self.left == PieceConnection::ConnectedToNeighbor,
                true,
            );
        } else {
            path.push(
                OutlineCommand::LineTo(
                    OutlinePoint {
                        x: OutlineCoord { far_edge: false, fortieths: 0 },
                        y: OutlineCoord { far_edge: false, fortieths: 0 },
                    },
                ),
            );
        }
        assert(path@ =~= after_bottom + left_side(self.left, c as int));
        path
    }
}

} // verus!
