//! The background tiler: on a resize it walks the integer grid that covers
//! the new visible area, centered at the origin, and reports a tile for
//! every grid cell not already covered. Stale tiles are never removed.

use vstd::prelude::*;

verus! {

/// One background tile, keyed by its integer grid coordinates.
#[derive(Clone, Copy, PartialEq, Eq, Structural, Debug)]
pub struct TileCoord {
    pub x: i32,
    pub y: i32,
}

/// Half the number of tile columns (or rows) that cover `p` pixels: the
/// ceiling of `(p / 64) + 1/2`, written over integers.
pub open spec fn spec_tile_half_extent(p: int) -> int {
    (p + 95) / 64
}

/// The tile at grid cell `(i, j)`.
pub open spec fn tile_at(i: int, j: int) -> TileCoord {
    TileCoord { x: i as i32, y: j as i32 }
}

/// `c` lies in the grid of half extents `tw`, `th`.
pub open spec fn in_grid(c: TileCoord, tw: int, th: int) -> bool {
    -tw <= c.x < tw && -th <= c.y < th
}

/// `c`'s cell comes at or after cell `(i, j)` in column-major walking
/// order (x first, then y).
pub open spec fn at_or_after(c: TileCoord, i: int, j: int) -> bool {
    i < c.x || (i == c.x && j <= c.y)
}

/// The tiles reported from cell `(i, j)` onward: every remaining grid cell
/// whose coordinate is not in `existing`, in walking order.
pub open spec fn tiles_from(
    tw: int,
    th: int,
    i: int,
    j: int,
    existing: Seq<TileCoord>,
) -> Seq<TileCoord>
    decreases tw - i, th - j,
{
    if th <= 0 || i >= tw {
        Seq::empty()
    } else if j >= th {
        tiles_from(tw, th, i + 1, -th, existing)
    } else if existing.contains(tile_at(i, j)) {
        tiles_from(tw, th, i, j + 1, existing)
    } else {
        seq![tile_at(i, j)] + tiles_from(tw, th, i, j + 1, existing)
    }
}

/// All tiles a resize to half extents `tw`, `th` reports.
pub open spec fn new_tiles_spec(tw: int, th: int, existing: Seq<TileCoord>) -> Seq<TileCoord> {
    tiles_from(tw, th, -tw, -th, existing)
}

/// Membership in a one-element prefix concatenation.
proof fn lemma_cons_contains<A>(head: A, tail: Seq<A>, c: A)
    ensures
        (seq![head] + tail).contains(c) <==> (c == head || tail.contains(c)),
{
    let s = seq![head] + tail;
    if c == head {
        assert(s[0] == c);
        assert(s.contains(c));
    }
    if tail.contains(c) {
        let k = choose|k: int| 0 <= k < tail.len() && tail[k] == c;
        assert(s[k + 1] == c);
        assert(s.contains(c));
    }
    if s.contains(c) {
        let k = choose|k: int| 0 <= k < s.len() && s[k] == c;
        if k == 0 {
            assert(c == head);
        } else {
            assert(tail[k - 1] == c);
            assert(tail.contains(c));
        }
    }
}

/// A one-element prefix concatenation has no duplicates when the tail has
/// none and does not hold the head.
proof fn lemma_cons_no_dup<A>(head: A, tail: Seq<A>)
    requires
        tail.no_duplicates(),
        !tail.contains(head),
    ensures
        (seq![head] + tail).no_duplicates(),
{
    let s = seq![head] + tail;
    assert forall|p: int, q: int| 0 <= p < q < s.len() implies s[p] != s[q] by {
        if p == 0 {
            assert(tail[q - 1] == s[q]);
            assert(tail.contains(tail[q - 1]));
        } else {
            assert(s[p] == tail[p - 1] && s[q] == tail[q - 1]);
        }
    }
}

/// What `tiles_from` holds: exactly the grid cells at or after `(i, j)`
/// whose coordinates are not already covered.
pub proof fn lemma_tiles_from_contains(
    tw: int,
    th: int,
    i: int,
    j: int,
    existing: Seq<TileCoord>,
    c: TileCoord,
)
    requires
        0 < tw <= 0x800_0000,
        0 < th <= 0x800_0000,
        -tw <= i <= tw,
        -th <= j <= th,
    ensures
        tiles_from(tw, th, i, j, existing).contains(c) <==> (!existing.contains(c) && in_grid(
            c,
            tw,
            th,
        ) && at_or_after(c, i, j)),
    decreases tw - i, th - j,
{
    if i >= tw {
        assert(!tiles_from(tw, th, i, j, existing).contains(c));
    } else if j >= th {
        lemma_tiles_from_contains(tw, th, i + 1, -th, existing, c);
    } else if existing.contains(tile_at(i, j)) {
        lemma_tiles_from_contains(tw, th, i, j + 1, existing, c);
    } else {
        lemma_tiles_from_contains(tw, th, i, j + 1, existing, c);
        lemma_cons_contains(tile_at(i, j), tiles_from(tw, th, i, j + 1, existing), c);
    }
}

/// `tiles_from` never reports the same coordinate twice.
pub proof fn lemma_tiles_from_no_dup(tw: int, th: int, i: int, j: int, existing: Seq<TileCoord>)
    requires
        0 < tw <= 0x800_0000,
        0 < th <= 0x800_0000,
        -tw <= i <= tw,
        -th <= j <= th,
    ensures
        tiles_from(tw, th, i, j, existing).no_duplicates(),
    decreases tw - i, th - j,
{
    if i >= tw {
        assert(tiles_from(tw, th, i, j, existing) =~= Seq::empty());
    } else if j >= th {
        lemma_tiles_from_no_dup(tw, th, i + 1, -th, existing);
    } else if existing.contains(tile_at(i, j)) {
        lemma_tiles_from_no_dup(tw, th, i, j + 1, existing);
    } else {
        let head = tile_at(i, j);
        let tail = tiles_from(tw, th, i, j + 1, existing);
        lemma_tiles_from_no_dup(tw, th, i, j + 1, existing);
        lemma_tiles_from_contains(tw, th, i, j + 1, existing, head);
        assert(!at_or_after(head, i, j + 1));
        lemma_cons_no_dup(head, tail);
    }
}

/// The tile coordinates reported for a given window size are pairwise
/// distinct, whatever was already covered.
pub proof fn lemma_new_tiles_unique(tw: int, th: int, existing: Seq<TileCoord>)
    requires
        0 < tw <= 0x800_0000,
        0 < th <= 0x800_0000,
    ensures
        new_tiles_spec(tw, th, existing).no_duplicates(),
{
    lemma_tiles_from_no_dup(tw, th, -tw, -th, existing);
}

/// The tiles reported are exactly the grid cells of the new area whose
/// coordinates are not already covered.
pub proof fn lemma_new_tiles_exactly_missing(
    tw: int,
    th: int,
    existing: Seq<TileCoord>,
    c: TileCoord,
)
    requires
        0 < tw <= 0x800_0000,
        0 < th <= 0x800_0000,
    ensures
        new_tiles_spec(tw, th, existing).contains(c) <==> (!existing.contains(c) && in_grid(
            c,
            tw,
            th,
        )),
{
    lemma_tiles_from_contains(tw, th, -tw, -th, existing, c);
    if in_grid(c, tw, th) {
        assert(at_or_after(c, -tw, -th));
    }
}

/// Half the number of tile columns (or rows) needed to cover `pixels`.
pub fn tile_half_extent(pixels: u32) -> (r: i32)
    ensures
        r == spec_tile_half_extent(pixels as int),
        1 <= r <= 0x800_0000,
{
    (((pixels as u64) + 95) / 64) as i32
}

/// Whether a coordinate pair is already covered.
fn contains_coord(existing: &Vec<TileCoord>, x: i32, y: i32) -> (b: bool)
    ensures
        b == existing@.contains((TileCoord { x, y })),
{
    let mut k: usize = 0;
    while k < existing.len()
        invariant
            0 <= k <= existing@.len(),
            forall|m: int| 0 <= m < k ==> existing@[m] != (TileCoord { x, y }),
        decreases existing@.len() - k,
    {
        if existing[k].x == x && existing[k].y == y {
            return true;
        }
        k = k + 1;
    }
    false
}

/// Compute the tiles a resize to `width` by `height` pixels must add: one
/// for every grid cell of the covering grid, centered at the origin, whose
/// coordinate is not in `existing`. The result is exactly `new_tiles_spec`
/// of the two half extents, so it is deterministic in its inputs.
pub fn new_tiles(width: u32, height: u32, existing: &Vec<TileCoord>) -> (r: Vec<TileCoord>)
    ensures
        r@ == new_tiles_spec(
            spec_tile_half_extent(width as int),
            spec_tile_half_extent(height as int),
            existing@,
        ),
{
    let tw = tile_half_extent(width);
    let th = tile_half_extent(height);
    let ghost full = new_tiles_spec(tw as int, th as int, existing@);
    let mut r: Vec<TileCoord> = Vec::new();
    let mut i: i32 = -tw;
    while i < tw
        invariant
            1 <= tw <= 0x800_0000,
            1 <= th <= 0x800_0000,
            -tw <= i <= tw,
            r@ + tiles_from(tw as int, th as int, i as int, -th as int, existing@) == full,
        decreases tw - i,
    {
        let mut j: i32 = -th;
        while j < th
            invariant
                1 <= tw <= 0x800_0000,
                1 <= th <= 0x800_0000,
                -tw <= i < tw,
                -th <= j <= th,
                r@ + tiles_from(tw as int, th as int, i as int, j as int, existing@) == full,
            decreases th - j,
        {
            if !contains_coord(existing, i, j) {
                proof {
                    let tail = tiles_from(tw as int, th as int, i as int, j + 1, existing@);
                    assert((r@ + (seq![tile_at(i as int, j as int)] + tail)) =~= (r@.push(
                        tile_at(i as int, j as int),
                    ) + tail));
                }
                r.push(TileCoord { x: i, y: j });
            }
            j = j + 1;
        }
        i = i + 1;
    }
    proof {
        assert(r@ + Seq::<TileCoord>::empty() =~= r@);
    }
    r
}

} // verus!
