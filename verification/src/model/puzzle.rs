//! Puzzles and their tiles.
use vstd::prelude::*;

verus! {

/// The place of a tile in the solved picture: column `x`, row `y`.
#[derive(Copy, Clone, Debug, PartialEq, Eq, Structural)]
pub struct JigsawIndex {
    pub x: u32,
    pub y: u32,
}

impl JigsawIndex {
    pub fn new(x: u32, y: u32) -> (r: JigsawIndex)
        ensures
            r.x == x,
            r.y == y,
    {
        JigsawIndex { x, y }
    }
}

/// The state of one tile: where it belongs and whether a player has put it there.
#[derive(Copy, Clone, Debug, PartialEq, Eq, Structural)]
pub struct JigsawTile {
    pub index: JigsawIndex,
    pub in_place: bool,
}

impl vstd::std_specs::convert::FromSpecImpl<JigsawIndex> for JigsawTile {
    open spec fn obeys_from_spec() -> bool {
        true
    }

    open spec fn from_spec(v: JigsawIndex) -> JigsawTile {
        JigsawTile { index: v, in_place: false }
    }
}

impl From<JigsawIndex> for JigsawTile {
    /// A new tile that belongs at `value` and has not been placed yet.
    fn from(value: JigsawIndex) -> (r: JigsawTile) {
        JigsawTile { index: value, in_place: false }
    }
}

/// What players may see of a tile: its place once it has been found, nothing before.
#[derive(Copy, Clone, Debug, PartialEq, Eq, Structural)]
pub struct PublicJigsawTile(pub Option<JigsawIndex>);

impl vstd::std_specs::convert::FromSpecImpl<JigsawTile> for PublicJigsawTile {
    open spec fn obeys_from_spec() -> bool {
        true
    }

    open spec fn from_spec(v: JigsawTile) -> PublicJigsawTile {
        PublicJigsawTile(
            if v.in_place {
                Some(v.index)
            } else {
                None
            },
        )
    }
}

impl From<JigsawTile> for PublicJigsawTile {
    /// Hides the place of a tile that has not been placed yet.
    fn from(value: JigsawTile) -> (r: PublicJigsawTile) {
        if value.in_place {
            PublicJigsawTile(Some(value.index))
        } else {
            PublicJigsawTile(None)
        }
    }
}

/// The size of the tiles of a puzzle and of its whole picture, in pixels.
#[derive(Copy, Clone, Debug)]
pub struct JigsawMeta {
    pub tile_size_px: u32,
    pub image_dimensions_px: (u32, u32),
}

impl JigsawMeta {
    pub fn new(tile_size_px: u32, image_dimensions_px: (u32, u32)) -> (r: JigsawMeta)
        ensures
            r.tile_size_px == tile_size_px,
            r.image_dimensions_px == image_dimensions_px,
    {
        JigsawMeta { tile_size_px, image_dimensions_px }
    }
}

} // verus!

verus! {

/// The tiles of a puzzle keyed by tile id, as built from `(tile id, place)`
/// pairs: a later pair for the same id replaces an earlier one, and no tile
/// is in place yet.
pub open spec fn spec_new_tile_map(tiles: Seq<(u128, JigsawIndex)>) -> Map<u128, JigsawTile>
    decreases tiles.len(),
{
    if tiles.len() == 0 {
        Map::empty()
    } else {
        spec_new_tile_map(tiles.drop_last()).insert(
            tiles.last().0,
            JigsawTile { index: tiles.last().1, in_place: false },
        )
    }
}

/// A puzzle: its id, the state of each of its tiles by tile id, and its sizes.
#[derive(Debug)]
pub struct JigsawPuzzle {
    pub uuid: u128,
    pub tile_map: std::collections::HashMap<u128, JigsawTile>,
    pub meta: JigsawMeta,
}

impl JigsawPuzzle {
    pub fn new(uuid: u128, tile_map: std::collections::HashMap<u128, JigsawTile>, meta: JigsawMeta) -> (r:
        JigsawPuzzle)
        ensures
            r.uuid == uuid,
            r.tile_map@ == tile_map@,
            r.meta == meta,
    {
        JigsawPuzzle { uuid, tile_map, meta }
    }

    /// A new puzzle with id `uuid` whose tiles have the given ids and places;
    /// none of them is in place yet.
    pub fn from_indexed_tiles(uuid: u128, tiles: &Vec<(u128, JigsawIndex)>, meta: JigsawMeta) -> (r:
        JigsawPuzzle)
        ensures
            r.uuid == uuid,
            r.tile_map@ == spec_new_tile_map(tiles@),
            r.meta == meta,
    {
        broadcast use vstd::std_specs::hash::group_hash_axioms;

        let mut tile_map: std::collections::HashMap<u128, JigsawTile> =
            std::collections::HashMap::new();
        let mut i: usize = 0;
        while i < tiles.len()
            invariant
                i <= tiles.len(),
                tile_map@ == spec_new_tile_map(tiles@.subrange(0, i as int)),
            decreases tiles.len() - i,
        {
            let (id, index) = tiles[i];
            tile_map.insert(id, JigsawTile::from(index));
            assert(tiles@.subrange(0, i + 1).drop_last() =~= tiles@.subrange(0, i as int));
            i = i + 1;
        }
        assert(tiles@.subrange(0, tiles.len() as int) =~= tiles@);
        JigsawPuzzle::new(uuid, tile_map, meta)
    }
}

} // verus!
