//! Where the generator keeps what it makes of a picture.
//!
//! Every puzzle gets a directory named by its id under the storage root. It
//! holds the resized picture as "source.webp", a preview as "preview.jpeg",
//! and every tile as its id followed by ".webp". The backend serves the
//! storage root under "/assets".
use vstd::prelude::*;

use crate::bot::preview_segments;
use crate::ids::{lemma_hyphenated_injective, spec_hyphenated, uuid_to_string};
use crate::model::request::GeneratePuzzleRequest;
use crate::paths::{join_path, spec_join};

verus! {

/// The directory of the puzzle `puzzle_id` under the storage root `root`.
pub open spec fn spec_puzzle_dir(root: Seq<char>, puzzle_id: u128) -> Seq<char> {
    spec_join(root, spec_hyphenated(puzzle_id))
}

/// The file of the resized picture of a puzzle.
pub open spec fn spec_source_path(root: Seq<char>, puzzle_id: u128) -> Seq<char> {
    spec_join(spec_puzzle_dir(root, puzzle_id), "source.webp"@)
}

/// The file of the preview picture of a puzzle.
pub open spec fn spec_preview_path(root: Seq<char>, puzzle_id: u128) -> Seq<char> {
    spec_join(spec_puzzle_dir(root, puzzle_id), "preview.jpeg"@)
}

/// The file of a tile of a puzzle.
pub open spec fn spec_tile_path(root: Seq<char>, puzzle_id: u128, tile_id: u128) -> Seq<char> {
    spec_join(spec_puzzle_dir(root, puzzle_id), spec_hyphenated(tile_id) + ".webp"@)
}

/// The preview picture that the bot links for a puzzle is the one that the
/// generator stores: below "assets", which the backend serves from the
/// storage root, the segments of the link name the preview file.
pub proof fn lemma_preview_link_names_stored_file(root: Seq<char>, puzzle_id: u128)
    ensures
        preview_segments(puzzle_id)[0] == "assets"@,
        spec_join(spec_join(root, preview_segments(puzzle_id)[1]), preview_segments(puzzle_id)[2])
            == spec_preview_path(root, puzzle_id),
{
}

proof fn lemma_join_cancels(base: Seq<char>, x: Seq<char>, y: Seq<char>)
    requires
        x.len() > 0,
        y.len() > 0,
        x[0] != '/',
        y[0] != '/',
        spec_join(base, x) == spec_join(base, y),
    ensures
        x == y,
{
    let jx = spec_join(base, x);
    let jy = spec_join(base, y);
    let n: int = if base.len() > 0 && base.last() != '/' {
        base.len() + 1int
    } else {
        base.len() as int
    };
    assert(jx.subrange(n, jx.len() as int) =~= x);
    assert(jy.subrange(n, jy.len() as int) =~= y);
}

/// Every puzzle has a directory of its own, and within it every tile has a
/// file of its own: different ids give different paths.
pub proof fn lemma_paths_name_one_id(root: Seq<char>, p1: u128, p2: u128, t1: u128, t2: u128)
    ensures
        spec_puzzle_dir(root, p1) == spec_puzzle_dir(root, p2) ==> p1 == p2,
        spec_tile_path(root, p1, t1) == spec_tile_path(root, p1, t2) ==> t1 == t2,
{
    if spec_puzzle_dir(root, p1) == spec_puzzle_dir(root, p2) {
        lemma_hyphenated_starts_with_digit(p1);
        lemma_hyphenated_starts_with_digit(p2);
        lemma_join_cancels(root, spec_hyphenated(p1), spec_hyphenated(p2));
        lemma_hyphenated_injective(p1, p2);
    }
    if spec_tile_path(root, p1, t1) == spec_tile_path(root, p1, t2) {
        let n1 = spec_hyphenated(t1) + ".webp"@;
        let n2 = spec_hyphenated(t2) + ".webp"@;
        assert(n1[0] == spec_hyphenated(t1)[0]);
        assert(n2[0] == spec_hyphenated(t2)[0]);
        lemma_hyphenated_starts_with_digit(t1);
        lemma_hyphenated_starts_with_digit(t2);
        lemma_join_cancels(spec_puzzle_dir(root, p1), n1, n2);
        assert(n1.subrange(0, 36) =~= spec_hyphenated(t1));
        assert(n2.subrange(0, 36) =~= spec_hyphenated(t2));
        lemma_hyphenated_injective(t1, t2);
    }
}

proof fn lemma_hyphenated_starts_with_digit(id: u128)
    ensures
        spec_hyphenated(id).len() == 36,
        spec_hyphenated(id)[0] != '/',
{
    vstd::arithmetic::power::lemma_pow_positive(16, 31);
    let n = crate::ids::uuid_nibble(id, 0);
    assert(0 <= n < 16);
    assert(spec_hyphenated(id)[0] == crate::ids::hex_char(n));
    assert(crate::ids::hex_char(n) as int == if n < 10 {
        48 + n
    } else {
        87 + n
    });
}

/// Stores the pictures of puzzles as files under a root directory.
pub struct JigsawFsImageStorage {
    path: String,
}

/// The files that the pictures of a puzzle go to.
pub struct ImageStorePlan {
    /// The directory of the puzzle, which is created first.
    pub dir: String,
    pub source_path: String,
    pub preview_path: String,
    /// The file of each tile, in the order of the tiles.
    pub tile_paths: Vec<String>,
}

impl JigsawFsImageStorage {
    pub fn new(path: String) -> (r: JigsawFsImageStorage)
        ensures
            r.root() == path@,
    {
        JigsawFsImageStorage { path }
    }

    /// The storage root.
    pub closed spec fn root(&self) -> Seq<char> {
        self.path@
    }

    /// The directory of a puzzle.
    pub fn puzzle_dir(&self, puzzle_id: u128) -> (r: String)
        ensures
            r@ == spec_puzzle_dir(self.root(), puzzle_id),
    {
        let id = uuid_to_string(puzzle_id);
        join_path(self.path.as_str(), id.as_str())
    }

    /// The file of the resized picture of a puzzle.
    pub fn source_path(&self, puzzle_id: u128) -> (r: String)
        ensures
            r@ == spec_source_path(self.root(), puzzle_id),
    {
        let dir = self.puzzle_dir(puzzle_id);
        join_path(dir.as_str(), "source.webp")
    }

    /// The file of the preview picture of a puzzle.
    pub fn preview_path(&self, puzzle_id: u128) -> (r: String)
        ensures
            r@ == spec_preview_path(self.root(), puzzle_id),
    {
        let dir = self.puzzle_dir(puzzle_id);
        join_path(dir.as_str(), "preview.jpeg")
    }

    /// The file of a tile of a puzzle.
    pub fn tile_path(&self, puzzle_id: u128, tile_id: u128) -> (r: String)
        ensures
            r@ == spec_tile_path(self.root(), puzzle_id, tile_id),
    {
        let dir = self.puzzle_dir(puzzle_id);
        let mut name = uuid_to_string(tile_id);
        name.append(".webp");
        join_path(dir.as_str(), name.as_str())
    }

    /// The files that the pictures of the puzzle `puzzle_id` with the tiles
    /// `tile_ids` go to.
    pub fn store_plan(&self, puzzle_id: u128, tile_ids: &Vec<u128>) -> (r: ImageStorePlan)
        ensures
            r.dir@ == spec_puzzle_dir(self.root(), puzzle_id),
            r.source_path@ == spec_source_path(self.root(), puzzle_id),
            r.preview_path@ == spec_preview_path(self.root(), puzzle_id),
            r.tile_paths.len() == tile_ids.len(),
            forall|i: int|
                0 <= i < tile_ids.len() ==> #[trigger] r.tile_paths[i]@ == spec_tile_path(
                    self.root(),
                    puzzle_id,
                    tile_ids[i],
                ),
    {
        let mut tile_paths: Vec<String> = Vec::new();
        let mut i: usize = 0;
        while i < tile_ids.len()
            invariant
                i <= tile_ids.len(),
                tile_paths.len() == i,
                forall|j: int|
                    0 <= j < i ==> #[trigger] tile_paths[j]@ == spec_tile_path(
                        self.root(),
                        puzzle_id,
                        tile_ids[j],
                    ),
            decreases tile_ids.len() - i,
        {
            tile_paths.push(self.tile_path(puzzle_id, tile_ids[i]));
            i = i + 1;
        }
        ImageStorePlan {
            dir: self.puzzle_dir(puzzle_id),
            source_path: self.source_path(puzzle_id),
            preview_path: self.preview_path(puzzle_id),
            tile_paths,
        }
    }
}

/// The settings of the generator. URLs are held as their text.
pub struct Config {
    pub redis_url: String,
    pub complete_storage_path: String,
    pub request_storage_path: String,
}

impl Config {
    /// The picture of a request, in the request storage.
    pub fn image_path(&self, request: &GeneratePuzzleRequest) -> (r: String)
        ensures
            r@ == spec_join(self.request_storage_path@, request.image_path@),
    {
        join_path(self.request_storage_path.as_str(), request.image_path.as_str())
    }
}

} // verus!
