//! The tiles that a tiled layer keeps on display while the view changes.
//!
//! A tile that is needed stays, or is fetched and faded in; a tile that is no
//! longer needed stays only while a needed tile that covers the same ground
//! is not yet fully shown, so that the map never shows a hole.

use vstd::prelude::*;
use ordered_hash_map::OrderedHashMap;

verus! {

#[verifier::external_type_specification]
#[verifier::external_body]
#[verifier::reject_recursive_types(K)]
#[verifier::reject_recursive_types(V)]
#[verifier::reject_recursive_types(S)]
pub struct ExOrderedHashMap<K, V, S>(OrderedHashMap<K, V, S>);

#[verifier::external_type_specification]
#[verifier::external_body]
pub struct ExDefaultHashBuilder(ordered_hash_map::ordered_map::DefaultHashBuilder);

/// The position of a tile: its column, row and zoom level, and the column at which it is
/// drawn where the world repeats.
#[derive(Debug, Clone, Copy, PartialEq, Eq, Hash)]
pub struct TileIndex {
    pub x: i32,
    pub y: i32,
    pub z: u32,
    pub display_x: i32,
}

/// A tile on display.
#[derive(Debug, Clone, Copy, PartialEq, Eq)]
pub struct DisplayedTile {
    pub index: TileIndex,
    /// The renderer's handle of the tile's packed drawing.
    pub bundle: u64,
    pub style_id: u32,
    /// The opacity, as the bit pattern of an `f32` from 0 to 1.
    pub opacity: u32,
    /// When the tile was first shown, in milliseconds of the renderer's clock.
    pub displayed_at: u64,
}

/// The displayed tiles that a map holds, by tile and style, in their order.
pub uninterp spec fn tile_entries(m: OrderedHashMap<(TileIndex, u32), DisplayedTile>) -> Seq<
    ((TileIndex, u32), DisplayedTile),
>;

/// Whether no key occurs twice among the entries of a map.
pub open spec fn unique_keys(s: Seq<((TileIndex, u32), DisplayedTile)>) -> bool {
    forall|i: int, j: int| 0 <= i < j < s.len() ==> s[i].0 != s[j].0
}

/// The position of the entry with key `k`, or -1 where there is none.
pub open spec fn key_pos(s: Seq<((TileIndex, u32), DisplayedTile)>, k: (TileIndex, u32)) -> int
    decreases s.len(),
{
    if s.len() == 0 {
        -1
    } else if s[0].0 == k {
        0
    } else {
        let r = key_pos(s.drop_first(), k);
        if r < 0 {
            -1
        } else {
            r + 1
        }
    }
}

/// The entries after inserting `v` under `k`: an entry with that key is taken out and the new
/// one goes last.
pub open spec fn inserted(
    s: Seq<((TileIndex, u32), DisplayedTile)>,
    k: (TileIndex, u32),
    v: DisplayedTile,
) -> Seq<((TileIndex, u32), DisplayedTile)> {
    let i = key_pos(s, k);
    if i >= 0 {
        s.remove(i).push((k, v))
    } else {
        s.push((k, v))
    }
}

/// Calls `OrderedHashMap::new`: the map holds no entry.
#[verifier::external_body]
fn new_tile_map() -> (m: OrderedHashMap<(TileIndex, u32), DisplayedTile>)
    ensures
        tile_entries(m) == Seq::<((TileIndex, u32), DisplayedTile)>::empty(),
{
    OrderedHashMap::new()
}

/// Calls `OrderedHashMap::remove`: the entry with the key, where there is one, is taken out
/// and its value returned; the others keep their order.
#[verifier::external_body]
fn remove_tile(
    m: &mut OrderedHashMap<(TileIndex, u32), DisplayedTile>,
    k: &(TileIndex, u32),
) -> (r: Option<DisplayedTile>)
    ensures
        ({
            let s = tile_entries(*old(m));
            let i = key_pos(s, *k);
            if i >= 0 {
                r == Some(s[i].1) && tile_entries(*final(m)) == s.remove(i)
            } else {
                r is None && tile_entries(*final(m)) == s
            }
        }),
        unique_keys(tile_entries(*final(m))),
{
    m.remove(k)
}

/// Calls `OrderedHashMap::insert`: an entry with the key is taken out, and the new entry goes
/// last; the replaced value is returned.
#[verifier::external_body]
fn insert_tile(
    m: &mut OrderedHashMap<(TileIndex, u32), DisplayedTile>,
    k: (TileIndex, u32),
    v: DisplayedTile,
) -> (r: Option<DisplayedTile>)
    ensures
        tile_entries(*final(m)) == inserted(tile_entries(*old(m)), k, v),
        key_pos(tile_entries(*old(m)), k) >= 0 ==> r == Some(
            tile_entries(*old(m))[key_pos(tile_entries(*old(m)), k)].1,
        ),
        key_pos(tile_entries(*old(m)), k) < 0 ==> r is None,
        unique_keys(tile_entries(*final(m))),
{
    m.insert(k, v)
}

/// Calls `OrderedHashMap::pop_front_entry`: the first entry is taken out and returned.
#[verifier::external_body]
fn pop_first_tile(m: &mut OrderedHashMap<(TileIndex, u32), DisplayedTile>) -> (r: Option<
    ((TileIndex, u32), DisplayedTile),
>)
    ensures
        tile_entries(*old(m)).len() > 0 ==> r == Some(tile_entries(*old(m))[0]) && tile_entries(
            *final(m),
        ) == tile_entries(*old(m)).drop_first(),
        tile_entries(*old(m)).len() == 0 ==> r is None && tile_entries(*final(m)) == tile_entries(
            *old(m),
        ),
        unique_keys(tile_entries(*final(m))),
{
    m.pop_front_entry()
}

/// Calls `OrderedHashMap::clone`: a map with the same entries in the same order.
#[verifier::external_body]
fn copy_tiles(m: &OrderedHashMap<(TileIndex, u32), DisplayedTile>) -> (r: OrderedHashMap<
    (TileIndex, u32),
    DisplayedTile,
>)
    ensures
        tile_entries(r) == tile_entries(*m),
{
    m.clone()
}

/// Calls `OrderedHashMap::values`: the values of the map, in its order.
#[verifier::external_body]
fn tile_values(m: &OrderedHashMap<(TileIndex, u32), DisplayedTile>) -> (r: Vec<DisplayedTile>)
    ensures
        r@ == tile_entries(*m).map_values(|e: ((TileIndex, u32), DisplayedTile)| e.1),
{
    m.values().copied().collect()
}

/// Calls `OrderedHashMap::keys`: the keys of the map, in its order.
#[verifier::external_body]
fn tile_keys(m: &OrderedHashMap<(TileIndex, u32), DisplayedTile>) -> (r: Vec<(TileIndex, u32)>)
    ensures
        r@ == tile_entries(*m).map_values(|e: ((TileIndex, u32), DisplayedTile)| e.0),
{
    m.keys().copied().collect()
}

/// The bit pattern of the `f32` value 1.0: a tile that is fully shown.
pub open spec fn opaque_bits() -> u32 {
    0x3f80_0000
}

/// The opacity of a newly shown tile: 0 where tiles fade in, else fully shown.
pub open spec fn start_opacity(fade_in_ms: u64) -> u32 {
    if fade_in_ms > 1 {
        0
    } else {
        opaque_bits()
    }
}

/// The key of a needed tile.
pub open spec fn needed_key(needed: Seq<TileIndex>, style_id: u32, p: int) -> (TileIndex, u32) {
    (needed[p], style_id)
}

/// The displayed entries that are left after the first `n` needed tiles have been taken out.
pub open spec fn remaining(
    d0: Seq<((TileIndex, u32), DisplayedTile)>,
    needed: Seq<TileIndex>,
    style_id: u32,
    n: nat,
) -> Seq<((TileIndex, u32), DisplayedTile)>
    decreases n,
{
    if n == 0 {
        d0
    } else {
        let d = remaining(d0, needed, style_id, (n - 1) as nat);
        let i = key_pos(d, needed_key(needed, style_id, n - 1));
        if i >= 0 {
            d.remove(i)
        } else {
            d
        }
    }
}

/// What is gathered from the first `n` needed tiles: the tiles to show, in order; the
/// positions of the needed tiles whose ground is to stay covered by the tiles shown so far;
/// and whether the map must be drawn again.
pub open spec fn gathered(
    d0: Seq<((TileIndex, u32), DisplayedTile)>,
    needed: Seq<TileIndex>,
    style_id: u32,
    opaque: Seq<bool>,
    faded: Seq<u32>,
    fetched: Seq<Option<u64>>,
    fade_in_ms: u64,
    now: u64,
    n: nat,
) -> (Seq<DisplayedTile>, Seq<usize>, bool)
    decreases n,
{
    if n == 0 {
        (Seq::empty(), Seq::empty(), false)
    } else {
        let p = n - 1;
        let (ts, ss, redraw) = gathered(d0, needed, style_id, opaque, faded, fetched, fade_in_ms, now, p as nat);
        let d = remaining(d0, needed, style_id, p as nat);
        let k = needed_key(needed, style_id, p);
        let i = key_pos(d, k);
        if i >= 0 {
            let t = d[i].1;
            let q = key_pos(d0, k);
            if opaque[q] {
                (ts.push(t), ss, redraw)
            } else {
                (ts.push(DisplayedTile { opacity: faded[q], ..t }), ss.push(p as usize), true)
            }
        } else {
            match fetched[p] {
                None => (ts, ss.push(p as usize), redraw),
                Some(bundle) => (
                    ts.push(
                        DisplayedTile {
                            index: needed[p],
                            bundle,
                            style_id,
                            opacity: start_opacity(fade_in_ms),
                            displayed_at: now,
                        },
                    ),
                    ss.push(p as usize),
                    true,
                ),
            }
        }
    }
}

/// Routes the entries `es`, in order, into the map `m` where their tile overlaps (`row` is
/// indexed by the position of a tile among the tiles displayed at the start) and into `rest`
/// where it does not.
pub open spec fn route(
    d0: Seq<((TileIndex, u32), DisplayedTile)>,
    row: Seq<bool>,
    m: Seq<((TileIndex, u32), DisplayedTile)>,
    rest: Seq<((TileIndex, u32), DisplayedTile)>,
    es: Seq<((TileIndex, u32), DisplayedTile)>,
) -> (Seq<((TileIndex, u32), DisplayedTile)>, Seq<((TileIndex, u32), DisplayedTile)>)
    decreases es.len(),
{
    if es.len() == 0 {
        (m, rest)
    } else {
        let e = es[0];
        if row[key_pos(d0, e.0)] {
            route(d0, row, inserted(m, e.0, e.1), rest, es.drop_first())
        } else {
            route(d0, row, m, inserted(rest, e.0, e.1), es.drop_first())
        }
    }
}

/// The tiles kept to cover the ground of the needed tiles at positions `ss`, in order: for
/// each, the tiles still displayed whose box intersects its box, in display order.
pub open spec fn covering(
    d0: Seq<((TileIndex, u32), DisplayedTile)>,
    overlaps: Seq<Seq<bool>>,
    m: Seq<((TileIndex, u32), DisplayedTile)>,
    d: Seq<((TileIndex, u32), DisplayedTile)>,
    ss: Seq<usize>,
) -> Seq<((TileIndex, u32), DisplayedTile)>
    decreases ss.len(),
{
    if ss.len() == 0 {
        m
    } else {
        let (m2, rest) = route(d0, overlaps[ss[0] as int], m, Seq::empty(), d);
        covering(d0, overlaps, m2, rest, ss.drop_first())
    }
}

/// The entries after inserting the tiles `ts`, in order, each under its tile and style.
pub open spec fn insert_all(
    m: Seq<((TileIndex, u32), DisplayedTile)>,
    ts: Seq<DisplayedTile>,
) -> Seq<((TileIndex, u32), DisplayedTile)>
    decreases ts.len(),
{
    if ts.len() == 0 {
        m
    } else {
        insert_all(inserted(m, (ts[0].index, ts[0].style_id), ts[0]), ts.drop_first())
    }
}

/// The displayed tiles and whether the map must be drawn again, after an update for the
/// needed tiles `needed` in style `style_id`: the tiles that cover the ground of needed
/// tiles not yet fully shown, then the needed tiles that are shown, each once.
pub open spec fn updated(
    d0: Seq<((TileIndex, u32), DisplayedTile)>,
    needed: Seq<TileIndex>,
    style_id: u32,
    opaque: Seq<bool>,
    faded: Seq<u32>,
    fetched: Seq<Option<u64>>,
    overlaps: Seq<Seq<bool>>,
    fade_in_ms: u64,
    now: u64,
) -> (Seq<((TileIndex, u32), DisplayedTile)>, bool) {
    let n = needed.len();
    let (ts, ss, redraw) = gathered(d0, needed, style_id, opaque, faded, fetched, fade_in_ms, now, n);
    let kept = covering(d0, overlaps, Seq::empty(), remaining(d0, needed, style_id, n), ss);
    (insert_all(kept, ts), redraw)
}

/// The first entry with key `k` is at `key_pos`, and no entry has the key where it is -1.
pub proof fn lemma_key_pos(s: Seq<((TileIndex, u32), DisplayedTile)>, k: (TileIndex, u32))
    ensures
        key_pos(s, k) < s.len(),
        key_pos(s, k) >= 0 ==> s[key_pos(s, k)].0 == k && forall|j: int| 0 <= j < key_pos(s, k) ==> s[j].0 != k,
        key_pos(s, k) < 0 ==> key_pos(s, k) == -1 && forall|j: int| 0 <= j < s.len() ==> s[j].0 != k,
    decreases s.len(),
{
    if s.len() > 0 {
        lemma_key_pos(s.drop_first(), k);
        assert forall|j: int| 1 <= j < s.len() implies s[j] == s.drop_first()[j - 1] by {}
    }
}

/// An entry's key has a position.
pub proof fn lemma_key_pos_of_entry(s: Seq<((TileIndex, u32), DisplayedTile)>, j: int)
    requires
        0 <= j < s.len(),
    ensures
        key_pos(s, s[j].0) >= 0,
{
    lemma_key_pos(s, s[j].0);
}

/// Every key of `s` is a key of `d0`.
pub open spec fn keys_within(
    s: Seq<((TileIndex, u32), DisplayedTile)>,
    d0: Seq<((TileIndex, u32), DisplayedTile)>,
) -> bool {
    forall|j: int| 0 <= j < s.len() ==> key_pos(d0, #[trigger] s[j].0) >= 0
}

/// Taking an entry out keeps the keys within.
pub proof fn lemma_remove_within(
    s: Seq<((TileIndex, u32), DisplayedTile)>,
    i: int,
    d0: Seq<((TileIndex, u32), DisplayedTile)>,
)
    requires
        keys_within(s, d0),
        0 <= i < s.len(),
    ensures
        keys_within(s.remove(i), d0),
{
    assert forall|j: int| 0 <= j < s.remove(i).len() implies key_pos(d0, #[trigger] s.remove(i)[j].0) >= 0 by {
        if j < i {
            assert(s.remove(i)[j] == s[j]);
        } else {
            assert(s.remove(i)[j] == s[j + 1]);
        }
    }
}

/// Inserting an entry whose key is within keeps the keys within.
pub proof fn lemma_inserted_within(
    s: Seq<((TileIndex, u32), DisplayedTile)>,
    k: (TileIndex, u32),
    v: DisplayedTile,
    d0: Seq<((TileIndex, u32), DisplayedTile)>,
)
    requires
        keys_within(s, d0),
        key_pos(d0, k) >= 0,
    ensures
        keys_within(inserted(s, k, v), d0),
{
    lemma_key_pos(s, k);
    let i = key_pos(s, k);
    if i >= 0 {
        lemma_remove_within(s, i, d0);
        let r = s.remove(i);
        assert forall|j: int| 0 <= j < r.push((k, v)).len() implies key_pos(d0, #[trigger] r.push((k, v))[j].0) >= 0 by {
            if j < r.len() {
                assert(r.push((k, v))[j] == r[j]);
            }
        }
    } else {
        assert forall|j: int| 0 <= j < s.push((k, v)).len() implies key_pos(d0, #[trigger] s.push((k, v))[j].0) >= 0 by {
            if j < s.len() {
                assert(s.push((k, v))[j] == s[j]);
            }
        }
    }
}

/// The entries left after taking needed tiles out are entries of the start.
pub proof fn lemma_remaining_within(
    d0: Seq<((TileIndex, u32), DisplayedTile)>,
    needed: Seq<TileIndex>,
    style_id: u32,
    n: nat,
)
    ensures
        keys_within(remaining(d0, needed, style_id, n), d0),
    decreases n,
{
    if n == 0 {
        assert forall|j: int| 0 <= j < d0.len() implies key_pos(d0, #[trigger] d0[j].0) >= 0 by {
            lemma_key_pos_of_entry(d0, j);
        }
    } else {
        lemma_remaining_within(d0, needed, style_id, (n - 1) as nat);
        let d = remaining(d0, needed, style_id, (n - 1) as nat);
        let i = key_pos(d, needed_key(needed, style_id, n - 1));
        lemma_key_pos(d, needed_key(needed, style_id, n - 1));
        if i >= 0 {
            lemma_remove_within(d, i, d0);
        }
    }
}

/// Whether two keys are the same.
fn same_key(a: &(TileIndex, u32), b: &(TileIndex, u32)) -> (r: bool)
    ensures
        r == (*a == *b),
{
    a.0.x == b.0.x && a.0.y == b.0.y && a.0.z == b.0.z && a.0.display_x == b.0.display_x && a.1 == b.1
}

/// The position of the first key `k` in `keys`, which holds it.
fn position_of(keys: &Vec<(TileIndex, u32)>, k: &(TileIndex, u32)) -> (r: usize)
    requires
        exists|j: int| 0 <= j < keys@.len() && keys@[j] == *k,
    ensures
        r < keys@.len(),
        keys@[r as int] == *k,
        forall|j: int| 0 <= j < r ==> keys@[j] != *k,
{
    let mut q: usize = 0;
    while q < keys.len()
        invariant
            q <= keys@.len(),
            forall|j: int| 0 <= j < q ==> keys@[j] != *k,
            exists|j: int| 0 <= j < keys@.len() && keys@[j] == *k,
        decreases keys@.len() - q,
    {
        if same_key(&keys[q], k) {
            return q;
        }
        q = q + 1;
    }
    q
}

/// A key within the entries `d0` is among their keys.
proof fn lemma_key_among(
    keys: Seq<(TileIndex, u32)>,
    d0: Seq<((TileIndex, u32), DisplayedTile)>,
    k: (TileIndex, u32),
)
    requires
        keys == d0.map_values(|e: ((TileIndex, u32), DisplayedTile)| e.0),
        key_pos(d0, k) >= 0,
    ensures
        exists|j: int| 0 <= j < keys.len() && keys[j] == k,
{
    lemma_key_pos(d0, k);
    assert(keys[key_pos(d0, k)] == k);
}

/// The position of a key among the keys `keys` of the entries `d0`: its `key_pos`.
proof fn lemma_position_is_key_pos(
    keys: Seq<(TileIndex, u32)>,
    d0: Seq<((TileIndex, u32), DisplayedTile)>,
    k: (TileIndex, u32),
    q: int,
)
    requires
        keys == d0.map_values(|e: ((TileIndex, u32), DisplayedTile)| e.0),
        0 <= q < keys.len(),
        keys[q] == k,
        forall|j: int| 0 <= j < q ==> keys[j] != k,
    ensures
        key_pos(d0, k) == q,
{
    lemma_key_pos(d0, k);
    assert(d0[q].0 == k);
    if key_pos(d0, k) >= 0 {
        assert(keys[key_pos(d0, k)] == k);
    }
}

/// The tiles that a tiled layer keeps on display.
pub struct TilesContainer {
    /// The tiles on display, by tile and style, in drawing order.
    tiles: OrderedHashMap<(TileIndex, u32), DisplayedTile>,
    /// How long a newly shown tile takes to fade in, in milliseconds.
    fade_in_duration_ms: u64,
}

impl TilesContainer {
    /// Every container holds each tile once, under the key of its tile and style.
    #[verifier::type_invariant]
    spec fn held_under_own_keys(&self) -> bool {
        unique_keys(tile_entries(self.tiles)) && keys_match(tile_entries(self.tiles))
    }

    /// The displayed tiles, by tile and style, in drawing order.
    pub closed spec fn entries(&self) -> Seq<((TileIndex, u32), DisplayedTile)> {
        tile_entries(self.tiles)
    }

    /// How long a newly shown tile takes to fade in, in milliseconds.
    pub closed spec fn fade_ms(&self) -> u64 {
        self.fade_in_duration_ms
    }
}

/// What a renderer knows at an update that takes a clock, geometry or floating point.
pub struct TileUpdateFacts {
    /// For each displayed tile, in display order: whether it is opaque (its opacity is at least
    /// 0.999).
    pub opaque: Vec<bool>,
    /// For each displayed tile, in display order: its opacity faded in up to now (the bits of an
    /// `f32`).
    pub faded: Vec<u32>,
    /// For each needed tile: the bundle that the tile provider gave, where `fetch_plan` asked
    /// for one.
    pub fetched: Vec<Option<u64>>,
    /// For each needed tile and each displayed tile, in display order: whether their boxes
    /// intersect.
    pub overlaps: Vec<Vec<bool>>,
    /// The renderer's clock, in milliseconds.
    pub now: u64,
}

/// Every entry is held under the key of its tile and style.
pub open spec fn keys_match(s: Seq<((TileIndex, u32), DisplayedTile)>) -> bool {
    forall|j: int| 0 <= j < s.len() ==> (#[trigger] s[j]).0 == (s[j].1.index, s[j].1.style_id)
}

/// Inserting keeps every key that was present.
pub proof fn lemma_inserted_keeps(
    s: Seq<((TileIndex, u32), DisplayedTile)>,
    k: (TileIndex, u32),
    v: DisplayedTile,
    key: (TileIndex, u32),
)
    requires
        key_pos(s, key) >= 0 || key == k,
    ensures
        key_pos(inserted(s, k, v), key) >= 0,
{
    lemma_key_pos(s, k);
    lemma_key_pos(s, key);
    let i = key_pos(s, k);
    let r = if i >= 0 { s.remove(i).push((k, v)) } else { s.push((k, v)) };
    if key == k {
        lemma_key_pos_of_entry(r, r.len() - 1);
    } else {
        let a = key_pos(s, key);
        if i >= 0 {
            if a < i {
                assert(r[a] == s[a]);
                lemma_key_pos_of_entry(r, a);
            } else {
                assert(a != i);
                assert(r[a - 1] == s[a]);
                lemma_key_pos_of_entry(r, a - 1);
            }
        } else {
            assert(r[a] == s[a]);
            lemma_key_pos_of_entry(r, a);
        }
    }
}

/// Inserting tiles keeps every key that was present, and adds the key of each tile.
pub proof fn lemma_insert_all_keeps(
    m: Seq<((TileIndex, u32), DisplayedTile)>,
    ts: Seq<DisplayedTile>,
    key: (TileIndex, u32),
)
    requires
        key_pos(m, key) >= 0 || exists|j: int| 0 <= j < ts.len() && (ts[j].index, ts[j].style_id) == key,
    ensures
        key_pos(insert_all(m, ts), key) >= 0,
    decreases ts.len(),
{
    if ts.len() > 0 {
        let k0 = (ts[0].index, ts[0].style_id);
        let m2 = inserted(m, k0, ts[0]);
        if key_pos(m, key) >= 0 || key == k0 {
            lemma_inserted_keeps(m, k0, ts[0], key);
        } else {
            let j = choose|j: int| 0 <= j < ts.len() && (ts[j].index, ts[j].style_id) == key;
            assert(j > 0);
            assert(ts.drop_first()[j - 1] == ts[j]);
        }
        if key_pos(m2, key) < 0 {
            let j = choose|j: int| 0 <= j < ts.len() && (ts[j].index, ts[j].style_id) == key;
            assert(ts.drop_first()[j - 1] == ts[j]);
        }
        lemma_insert_all_keeps(m2, ts.drop_first(), key);
    }
}

/// Taking out the entry of a needed tile keeps every other entry held under its own key.
pub proof fn lemma_remaining_keys_match(
    d0: Seq<((TileIndex, u32), DisplayedTile)>,
    needed: Seq<TileIndex>,
    style_id: u32,
    n: nat,
)
    requires
        keys_match(d0),
    ensures
        keys_match(remaining(d0, needed, style_id, n)),
    decreases n,
{
    if n > 0 {
        lemma_remaining_keys_match(d0, needed, style_id, (n - 1) as nat);
        let d = remaining(d0, needed, style_id, (n - 1) as nat);
        let i = key_pos(d, needed_key(needed, style_id, n - 1));
        lemma_key_pos(d, needed_key(needed, style_id, n - 1));
        if i >= 0 {
            assert forall|j: int| 0 <= j < d.remove(i).len() implies (#[trigger] d.remove(i)[j]).0 == (d.remove(i)[j].1.index, d.remove(i)[j].1.style_id) by {
                if j < i {
                    assert(d.remove(i)[j] == d[j]);
                } else {
                    assert(d.remove(i)[j] == d[j + 1]);
                }
            }
        }
    }
}

/// The tiles gathered for a needed tile that is displayed or given by the provider include
/// one with its key.
pub proof fn lemma_gathered_has(
    d0: Seq<((TileIndex, u32), DisplayedTile)>,
    needed: Seq<TileIndex>,
    style_id: u32,
    opaque: Seq<bool>,
    faded: Seq<u32>,
    fetched: Seq<Option<u64>>,
    fade_in_ms: u64,
    now: u64,
    n: nat,
    p: int,
)
    requires
        keys_match(d0),
        0 <= p < n,
        key_pos(remaining(d0, needed, style_id, p as nat), needed_key(needed, style_id, p)) >= 0
            || fetched[p] is Some,
    ensures
        exists|j: int|
            0 <= j < gathered(d0, needed, style_id, opaque, faded, fetched, fade_in_ms, now, n).0.len()
                && (gathered(d0, needed, style_id, opaque, faded, fetched, fade_in_ms, now, n).0[j].index,
                gathered(d0, needed, style_id, opaque, faded, fetched, fade_in_ms, now, n).0[j].style_id)
                == needed_key(needed, style_id, p),
    decreases n,
{
    let g = gathered(d0, needed, style_id, opaque, faded, fetched, fade_in_ms, now, n);
    let g1 = gathered(d0, needed, style_id, opaque, faded, fetched, fade_in_ms, now, (n - 1) as nat);
    if p < n - 1 {
        lemma_gathered_has(d0, needed, style_id, opaque, faded, fetched, fade_in_ms, now, (n - 1) as nat, p);
        let j = choose|j: int| 0 <= j < g1.0.len() && (g1.0[j].index, g1.0[j].style_id) == needed_key(needed, style_id, p);
        assert(g.0[j] == g1.0[j]);
    } else {
        let d = remaining(d0, needed, style_id, p as nat);
        let k = needed_key(needed, style_id, p);
        lemma_remaining_keys_match(d0, needed, style_id, p as nat);
        lemma_key_pos(d, k);
        assert(g.0.len() == g1.0.len() + 1);
        assert((g.0[g1.0.len() as int].index, g.0[g1.0.len() as int].style_id) == k);
    }
}

/// A needed tile that is displayed, or that the tile provider gives, is displayed after the
/// update.
pub proof fn law_needed_tile_displayed(
    d0: Seq<((TileIndex, u32), DisplayedTile)>,
    needed: Seq<TileIndex>,
    style_id: u32,
    opaque: Seq<bool>,
    faded: Seq<u32>,
    fetched: Seq<Option<u64>>,
    overlaps: Seq<Seq<bool>>,
    fade_in_ms: u64,
    now: u64,
    p: int,
)
    requires
        keys_match(d0),
        0 <= p < needed.len(),
        key_pos(remaining(d0, needed, style_id, p as nat), needed_key(needed, style_id, p)) >= 0
            || fetched[p] is Some,
    ensures
        key_pos(
            updated(d0, needed, style_id, opaque, faded, fetched, overlaps, fade_in_ms, now).0,
            needed_key(needed, style_id, p),
        ) >= 0,
{
    let n = needed.len();
    let g = gathered(d0, needed, style_id, opaque, faded, fetched, fade_in_ms, now, n);
    lemma_gathered_has(d0, needed, style_id, opaque, faded, fetched, fade_in_ms, now, n, p);
    let kept = covering(d0, overlaps, Seq::empty(), remaining(d0, needed, style_id, n), g.1);
    lemma_insert_all_keeps(kept, g.0, needed_key(needed, style_id, p));
}

/// Inserting a tile under its own key keeps every entry held under its own key.
pub proof fn lemma_inserted_keys_match(
    s: Seq<((TileIndex, u32), DisplayedTile)>,
    k: (TileIndex, u32),
    v: DisplayedTile,
)
    requires
        keys_match(s),
        k == (v.index, v.style_id),
    ensures
        keys_match(inserted(s, k, v)),
{
    let i = key_pos(s, k);
    lemma_key_pos(s, k);
    if i >= 0 {
        let r = s.remove(i);
        assert forall|j: int| 0 <= j < r.len() implies (#[trigger] r[j]).0 == (r[j].1.index, r[j].1.style_id) by {
            if j < i {
                assert(r[j] == s[j]);
            } else {
                assert(r[j] == s[j + 1]);
            }
        }
        assert forall|j: int| 0 <= j < r.push((k, v)).len() implies (#[trigger] r.push((k, v))[j]).0 == (r.push((k, v))[j].1.index, r.push((k, v))[j].1.style_id) by {
            if j < r.len() {
                assert(r.push((k, v))[j] == r[j]);
            }
        }
    } else {
        assert forall|j: int| 0 <= j < s.push((k, v)).len() implies (#[trigger] s.push((k, v))[j]).0 == (s.push((k, v))[j].1.index, s.push((k, v))[j].1.style_id) by {
            if j < s.len() {
                assert(s.push((k, v))[j] == s[j]);
            }
        }
    }
}

/// Taking out the entry of a key keeps the keys unique and leaves no entry with that key.
pub proof fn lemma_remove_unique(s: Seq<((TileIndex, u32), DisplayedTile)>, k: (TileIndex, u32))
    requires
        unique_keys(s),
        key_pos(s, k) >= 0,
    ensures
        unique_keys(s.remove(key_pos(s, k))),
        key_pos(s.remove(key_pos(s, k)), k) < 0,
{
    let i = key_pos(s, k);
    let r = s.remove(i);
    lemma_key_pos(s, k);
    lemma_key_pos(r, k);
    assert forall|a: int, b: int| 0 <= a < b < r.len() implies r[a].0 != r[b].0 by {
        let sa = if a < i { a } else { a + 1 };
        let sb = if b < i { b } else { b + 1 };
        assert(r[a] == s[sa]);
        assert(r[b] == s[sb]);
    }
    if key_pos(r, k) >= 0 {
        let rb = key_pos(r, k);
        let sb = if rb < i { rb } else { rb + 1 };
        assert(r[rb] == s[sb]);
    }
}

/// Taking out the entry of one key keeps every other key where it was found, with its value.
pub proof fn lemma_remove_keeps_others(
    s: Seq<((TileIndex, u32), DisplayedTile)>,
    k: (TileIndex, u32),
    k2: (TileIndex, u32),
)
    requires
        unique_keys(s),
        key_pos(s, k) >= 0,
        k2 != k,
    ensures
        unique_keys(s.remove(key_pos(s, k))),
        (key_pos(s.remove(key_pos(s, k)), k2) >= 0) == (key_pos(s, k2) >= 0),
        key_pos(s, k2) >= 0 ==> s.remove(key_pos(s, k))[key_pos(s.remove(key_pos(s, k)), k2)] == s[key_pos(s, k2)],
{
    let i = key_pos(s, k);
    let r = s.remove(i);
    lemma_key_pos(s, k);
    lemma_key_pos(s, k2);
    lemma_key_pos(r, k2);
    assert forall|a: int, b: int| 0 <= a < b < r.len() implies r[a].0 != r[b].0 by {
        let sa = if a < i { a } else { a + 1 };
        let sb = if b < i { b } else { b + 1 };
        assert(r[a] == s[sa]);
        assert(r[b] == s[sb]);
    }
    if key_pos(s, k2) >= 0 {
        let a = key_pos(s, k2);
        assert(a != i);
        let ra = if a < i { a } else { a - 1 };
        assert(r[ra] == s[a]);
        lemma_key_pos_of_entry(r, ra);
        let rb = key_pos(r, k2);
        let sb = if rb < i { rb } else { rb + 1 };
        assert(r[rb] == s[sb]);
        assert(sb == a);
    } else if key_pos(r, k2) >= 0 {
        let rb = key_pos(r, k2);
        let sb = if rb < i { rb } else { rb + 1 };
        assert(r[rb] == s[sb]);
    }
}

/// With distinct needed tiles, a key is left after the first `n` needed tiles are taken out
/// exactly where it was displayed and is not among them, and its entry is unchanged.
pub proof fn lemma_remaining_distinct(
    d0: Seq<((TileIndex, u32), DisplayedTile)>,
    needed: Seq<TileIndex>,
    style_id: u32,
    n: nat,
    k: (TileIndex, u32),
)
    requires
        unique_keys(d0),
        n <= needed.len(),
    ensures
        unique_keys(remaining(d0, needed, style_id, n)),
        (key_pos(remaining(d0, needed, style_id, n), k) >= 0) == (key_pos(d0, k) >= 0 && forall|q: int|
            0 <= q < n ==> #[trigger] needed_key(needed, style_id, q) != k),
        key_pos(remaining(d0, needed, style_id, n), k) >= 0 ==> remaining(d0, needed, style_id, n)[key_pos(
            remaining(d0, needed, style_id, n),
            k,
        )] == d0[key_pos(d0, k)],
    decreases n,
{
    if n > 0 {
        let d = remaining(d0, needed, style_id, (n - 1) as nat);
        let kn = needed_key(needed, style_id, n - 1);
        lemma_remaining_distinct(d0, needed, style_id, (n - 1) as nat, k);
        lemma_remaining_distinct(d0, needed, style_id, (n - 1) as nat, kn);
        lemma_key_pos(d, kn);
        if key_pos(d, kn) >= 0 {
            if k != kn {
                lemma_remove_keeps_others(d, kn, k);
            } else {
                lemma_remove_unique(d, kn);
                assert(needed_key(needed, style_id, n - 1) == k);
            }
        } else {
            if k == kn {
                assert(needed_key(needed, style_id, n - 1) == k);
            }
        }
    }
}

/// The tiles gathered when every needed tile is displayed, opaque and distinct: the displayed
/// tiles, in the order needed, with nothing to cover and nothing to draw again.
pub proof fn lemma_gathered_steady(
    d0: Seq<((TileIndex, u32), DisplayedTile)>,
    needed: Seq<TileIndex>,
    style_id: u32,
    opaque: Seq<bool>,
    faded: Seq<u32>,
    fetched: Seq<Option<u64>>,
    fade_in_ms: u64,
    now: u64,
    n: nat,
)
    requires
        unique_keys(d0),
        n <= needed.len(),
        forall|p: int| 0 <= p < needed.len() ==> key_pos(d0, #[trigger] needed_key(needed, style_id, p)) >= 0,
        forall|p: int| 0 <= p < needed.len() ==> opaque[key_pos(d0, #[trigger] needed_key(needed, style_id, p))],
        forall|p: int, q: int| 0 <= p < q < needed.len() ==> needed[p] != needed[q],
    ensures
        gathered(d0, needed, style_id, opaque, faded, fetched, fade_in_ms, now, n) == (
            Seq::new(n, |p: int| d0[key_pos(d0, needed_key(needed, style_id, p))].1),
            Seq::<usize>::empty(),
            false,
        ),
    decreases n,
{
    if n > 0 {
        let p = n - 1;
        lemma_gathered_steady(d0, needed, style_id, opaque, faded, fetched, fade_in_ms, now, p as nat);
        let k = needed_key(needed, style_id, p);
        lemma_remaining_distinct(d0, needed, style_id, p as nat, k);
        assert forall|q: int| 0 <= q < p implies #[trigger] needed_key(needed, style_id, q) != k by {
            assert(needed[q] != needed[p]);
        }
        let g = gathered(d0, needed, style_id, opaque, faded, fetched, fade_in_ms, now, n);
        assert(g.0 =~= Seq::new(n, |j: int| d0[key_pos(d0, needed_key(needed, style_id, j))].1));
    }
}

/// Inserting tiles whose keys are new and distinct appends them in order.
pub proof fn lemma_insert_all_fresh(
    m: Seq<((TileIndex, u32), DisplayedTile)>,
    ts: Seq<DisplayedTile>,
)
    requires
        forall|j: int| #![trigger ts[j]] 0 <= j < ts.len() ==> key_pos(m, (ts[j].index, ts[j].style_id)) < 0,
        forall|a: int, b: int| 0 <= a < b < ts.len() ==> (ts[a].index, ts[a].style_id) != (ts[b].index, ts[b].style_id),
    ensures
        insert_all(m, ts) == m + ts.map_values(|t: DisplayedTile| ((t.index, t.style_id), t)),
    decreases ts.len(),
{
    if ts.len() == 0 {
        assert(m + ts.map_values(|t: DisplayedTile| ((t.index, t.style_id), t)) =~= m);
    } else {
        let k0 = (ts[0].index, ts[0].style_id);
        let m2 = m.push((k0, ts[0]));
        let rest = ts.drop_first();
        assert forall|j: int| #![trigger rest[j]] 0 <= j < rest.len() implies key_pos(m2, (rest[j].index, rest[j].style_id)) < 0 by {
            let kj = (rest[j].index, rest[j].style_id);
            assert(rest[j] == ts[j + 1]);
            assert(key_pos(m, (ts[j + 1].index, ts[j + 1].style_id)) < 0);
            lemma_key_pos(m, kj);
            lemma_key_pos(m2, kj);
            if key_pos(m2, kj) >= 0 {
                let b = key_pos(m2, kj);
                if b < m.len() {
                    assert(m2[b] == m[b]);
                } else {
                    assert(m2[b] == (k0, ts[0]));
                }
            }
        }
        assert forall|a: int, b: int| 0 <= a < b < rest.len() implies (rest[a].index, rest[a].style_id) != (rest[b].index, rest[b].style_id) by {
            assert(rest[a] == ts[a + 1]);
            assert(rest[b] == ts[b + 1]);
        }
        lemma_insert_all_fresh(m2, rest);
        assert(m + ts.map_values(|t: DisplayedTile| ((t.index, t.style_id), t)) =~= m2 + rest.map_values(
            |t: DisplayedTile| ((t.index, t.style_id), t),
        ));
    }
}

/// When every needed tile is displayed and opaque, and no tile is needed twice, an update
/// draws nothing again and keeps exactly the needed tiles, in the order they are needed.
pub proof fn law_steady_display(
    d0: Seq<((TileIndex, u32), DisplayedTile)>,
    needed: Seq<TileIndex>,
    style_id: u32,
    opaque: Seq<bool>,
    faded: Seq<u32>,
    fetched: Seq<Option<u64>>,
    overlaps: Seq<Seq<bool>>,
    fade_in_ms: u64,
    now: u64,
)
    requires
        unique_keys(d0),
        keys_match(d0),
        forall|p: int| 0 <= p < needed.len() ==> key_pos(d0, #[trigger] needed_key(needed, style_id, p)) >= 0,
        forall|p: int| 0 <= p < needed.len() ==> opaque[key_pos(d0, #[trigger] needed_key(needed, style_id, p))],
        forall|p: int, q: int| 0 <= p < q < needed.len() ==> needed[p] != needed[q],
    ensures
        updated(d0, needed, style_id, opaque, faded, fetched, overlaps, fade_in_ms, now) == (
            Seq::new(needed.len(), |p: int| d0[key_pos(d0, needed_key(needed, style_id, p))]),
            false,
        ),
{
    let n = needed.len();
    lemma_gathered_steady(d0, needed, style_id, opaque, faded, fetched, fade_in_ms, now, n);
    let ts = Seq::new(n, |p: int| d0[key_pos(d0, needed_key(needed, style_id, p))].1);
    assert forall|j: int| 0 <= j < n implies (ts[j].index, ts[j].style_id) == needed_key(needed, style_id, j) by {
        let k = needed_key(needed, style_id, j);
        lemma_key_pos(d0, k);
        assert(d0[key_pos(d0, k)].0 == (d0[key_pos(d0, k)].1.index, d0[key_pos(d0, k)].1.style_id));
    }
    let empty = Seq::<((TileIndex, u32), DisplayedTile)>::empty();
    assert forall|j: int| #![trigger ts[j]] 0 <= j < ts.len() implies key_pos(empty, (ts[j].index, ts[j].style_id)) < 0 by {}
    assert forall|a: int, b: int| 0 <= a < b < ts.len() implies (ts[a].index, ts[a].style_id) != (ts[b].index, ts[b].style_id) by {
        assert(needed[a] != needed[b]);
    }
    lemma_insert_all_fresh(empty, ts);
    assert(covering(d0, overlaps, empty, remaining(d0, needed, style_id, n), Seq::<usize>::empty()) == empty);
    let shown = empty + ts.map_values(|t: DisplayedTile| ((t.index, t.style_id), t));
    assert forall|j: int| 0 <= j < n implies #[trigger] shown[j] == d0[key_pos(d0, needed_key(needed, style_id, j))] by {
        let k = needed_key(needed, style_id, j);
        lemma_key_pos(d0, k);
    }
    assert(empty + ts.map_values(|t: DisplayedTile| ((t.index, t.style_id), t)) =~= Seq::new(
        n,
        |p: int| d0[key_pos(d0, needed_key(needed, style_id, p))],
    ));
}

/// No tile is needed twice.
pub open spec fn distinct_tiles(needed: Seq<TileIndex>) -> bool {
    forall|a: int, b: int| 0 <= a < b < needed.len() ==> needed[a] != needed[b]
}

/// Whether the needed tile at `p` changes what is shown: it is displayed and not yet fully
/// shown, or it is not displayed and the tile provider gave it.
pub open spec fn changes_display(
    d0: Seq<((TileIndex, u32), DisplayedTile)>,
    needed: Seq<TileIndex>,
    style_id: u32,
    opaque: Seq<bool>,
    fetched: Seq<Option<u64>>,
    p: int,
) -> bool {
    let k = needed_key(needed, style_id, p);
    if key_pos(d0, k) >= 0 {
        !opaque[key_pos(d0, k)]
    } else {
        fetched[p] is Some
    }
}

/// With distinct needed tiles, the needed tile at `p` is still displayed when its turn comes
/// exactly where it was displayed at the start.
proof fn lemma_turn_sees_start(
    d0: Seq<((TileIndex, u32), DisplayedTile)>,
    needed: Seq<TileIndex>,
    style_id: u32,
    p: int,
)
    requires
        unique_keys(d0),
        0 <= p < needed.len(),
        forall|a: int, b: int| 0 <= a < b < needed.len() ==> needed[a] != needed[b],
    ensures
        (key_pos(remaining(d0, needed, style_id, p as nat), needed_key(needed, style_id, p)) >= 0)
            == (key_pos(d0, needed_key(needed, style_id, p)) >= 0),
{
    let k = needed_key(needed, style_id, p);
    lemma_remaining_distinct(d0, needed, style_id, p as nat, k);
    assert forall|q: int| 0 <= q < p implies #[trigger] needed_key(needed, style_id, q) != k by {
        assert(needed[q] != needed[p]);
    }
}

/// With distinct needed tiles, the first `n` needed tiles ask for a new drawing exactly when
/// one of them changes what is shown.
proof fn lemma_gathered_redraw(
    d0: Seq<((TileIndex, u32), DisplayedTile)>,
    needed: Seq<TileIndex>,
    style_id: u32,
    opaque: Seq<bool>,
    faded: Seq<u32>,
    fetched: Seq<Option<u64>>,
    fade_in_ms: u64,
    now: u64,
    n: nat,
)
    requires
        unique_keys(d0),
        n <= needed.len(),
        forall|a: int, b: int| 0 <= a < b < needed.len() ==> needed[a] != needed[b],
    ensures
        gathered(d0, needed, style_id, opaque, faded, fetched, fade_in_ms, now, n).2 == exists|p: int|
            0 <= p < n && #[trigger] changes_display(d0, needed, style_id, opaque, fetched, p),
    decreases n,
{
    if n > 0 {
        let p = n - 1;
        lemma_gathered_redraw(d0, needed, style_id, opaque, faded, fetched, fade_in_ms, now, p as nat);
        lemma_turn_sees_start(d0, needed, style_id, p);
        let g1 = gathered(d0, needed, style_id, opaque, faded, fetched, fade_in_ms, now, p as nat);
        let g = gathered(d0, needed, style_id, opaque, faded, fetched, fade_in_ms, now, n);
        assert(g.2 == (g1.2 || changes_display(d0, needed, style_id, opaque, fetched, p)));
        if g.2 {
            if g1.2 {
                let q = choose|q: int| 0 <= q < p && #[trigger] changes_display(d0, needed, style_id, opaque, fetched, q);
                assert(0 <= q < n && changes_display(d0, needed, style_id, opaque, fetched, q));
            } else {
                assert(changes_display(d0, needed, style_id, opaque, fetched, p));
            }
        } else {
            assert forall|q: int| 0 <= q < n implies !#[trigger] changes_display(d0, needed, style_id, opaque, fetched, q) by {
                if q < p {
                    if changes_display(d0, needed, style_id, opaque, fetched, q) {
                        assert(g1.2);
                    }
                }
            }
        }
    }
}

/// With distinct needed tiles, an update asks for a new drawing exactly when some needed
/// tile is displayed but not yet fully shown, or is not displayed and was given by the tile
/// provider.
pub proof fn law_redraw_when_new_or_fading(
    d0: Seq<((TileIndex, u32), DisplayedTile)>,
    needed: Seq<TileIndex>,
    style_id: u32,
    opaque: Seq<bool>,
    faded: Seq<u32>,
    fetched: Seq<Option<u64>>,
    overlaps: Seq<Seq<bool>>,
    fade_in_ms: u64,
    now: u64,
)
    requires
        unique_keys(d0),
        forall|a: int, b: int| 0 <= a < b < needed.len() ==> needed[a] != needed[b],
    ensures
        updated(d0, needed, style_id, opaque, faded, fetched, overlaps, fade_in_ms, now).1
            == exists|p: int|
            0 <= p < needed.len() && #[trigger] changes_display(d0, needed, style_id, opaque, fetched, p),
{
    lemma_gathered_redraw(d0, needed, style_id, opaque, faded, fetched, fade_in_ms, now, needed.len());
}

/// No entry of `s` has the key `k`.
pub open spec fn lacks(s: Seq<((TileIndex, u32), DisplayedTile)>, k: (TileIndex, u32)) -> bool {
    forall|j: int| 0 <= j < s.len() ==> (#[trigger] s[j]).0 != k
}

/// Inserting under another key keeps a key absent.
proof fn lemma_inserted_lacks(
    s: Seq<((TileIndex, u32), DisplayedTile)>,
    k2: (TileIndex, u32),
    v: DisplayedTile,
    k: (TileIndex, u32),
)
    requires
        lacks(s, k),
        k2 != k,
    ensures
        lacks(inserted(s, k2, v), k),
{
    let i = key_pos(s, k2);
    lemma_key_pos(s, k2);
    if i >= 0 {
        let r = s.remove(i);
        assert forall|j: int| 0 <= j < r.len() implies (#[trigger] r[j]).0 != k by {
            if j < i {
                assert(r[j] == s[j]);
            } else {
                assert(r[j] == s[j + 1]);
            }
        }
        assert forall|j: int| 0 <= j < r.push((k2, v)).len() implies (#[trigger] r.push((k2, v))[j]).0 != k by {
            if j < r.len() {
                assert(r.push((k2, v))[j] == r[j]);
            }
        }
    } else {
        assert forall|j: int| 0 <= j < s.push((k2, v)).len() implies (#[trigger] s.push((k2, v))[j]).0 != k by {
            if j < s.len() {
                assert(s.push((k2, v))[j] == s[j]);
            }
        }
    }
}

/// Routing entries that lack a key into maps that lack it leaves both maps without it.
proof fn lemma_route_lacks(
    d0: Seq<((TileIndex, u32), DisplayedTile)>,
    row: Seq<bool>,
    m: Seq<((TileIndex, u32), DisplayedTile)>,
    rest: Seq<((TileIndex, u32), DisplayedTile)>,
    es: Seq<((TileIndex, u32), DisplayedTile)>,
    k: (TileIndex, u32),
)
    requires
        lacks(m, k),
        lacks(rest, k),
        lacks(es, k),
    ensures
        lacks(route(d0, row, m, rest, es).0, k),
        lacks(route(d0, row, m, rest, es).1, k),
    decreases es.len(),
{
    if es.len() > 0 {
        let e = es[0];
        assert(e.0 != k);
        assert forall|j: int| 0 <= j < es.drop_first().len() implies (#[trigger] es.drop_first()[j]).0 != k by {
            assert(es.drop_first()[j] == es[j + 1]);
        }
        if row[key_pos(d0, e.0)] {
            lemma_inserted_lacks(m, e.0, e.1, k);
            lemma_route_lacks(d0, row, inserted(m, e.0, e.1), rest, es.drop_first(), k);
        } else {
            lemma_inserted_lacks(rest, e.0, e.1, k);
            lemma_route_lacks(d0, row, m, inserted(rest, e.0, e.1), es.drop_first(), k);
        }
    }
}

/// The tiles kept to cover the ground lack a key that neither the start nor the candidates
/// hold.
proof fn lemma_covering_lacks(
    d0: Seq<((TileIndex, u32), DisplayedTile)>,
    overlaps: Seq<Seq<bool>>,
    m: Seq<((TileIndex, u32), DisplayedTile)>,
    d: Seq<((TileIndex, u32), DisplayedTile)>,
    ss: Seq<usize>,
    k: (TileIndex, u32),
)
    requires
        lacks(m, k),
        lacks(d, k),
    ensures
        lacks(covering(d0, overlaps, m, d, ss), k),
    decreases ss.len(),
{
    if ss.len() > 0 {
        let empty = Seq::<((TileIndex, u32), DisplayedTile)>::empty();
        lemma_route_lacks(d0, overlaps[ss[0] as int], m, empty, d, k);
        let (m2, rest) = route(d0, overlaps[ss[0] as int], m, empty, d);
        lemma_covering_lacks(d0, overlaps, m2, rest, ss.drop_first(), k);
    }
}

/// Inserting tiles none of which has a key keeps it absent.
proof fn lemma_insert_all_lacks(
    m: Seq<((TileIndex, u32), DisplayedTile)>,
    ts: Seq<DisplayedTile>,
    k: (TileIndex, u32),
)
    requires
        lacks(m, k),
        forall|j: int| 0 <= j < ts.len() ==> (#[trigger] ts[j].index, ts[j].style_id) != k,
    ensures
        lacks(insert_all(m, ts), k),
    decreases ts.len(),
{
    if ts.len() > 0 {
        assert((ts[0].index, ts[0].style_id) != k);
        lemma_inserted_lacks(m, (ts[0].index, ts[0].style_id), ts[0], k);
        assert forall|j: int| 0 <= j < ts.drop_first().len() implies (#[trigger] ts.drop_first()[j].index, ts.drop_first()[j].style_id) != k by {
            assert(ts.drop_first()[j] == ts[j + 1]);
        }
        lemma_insert_all_lacks(inserted(m, (ts[0].index, ts[0].style_id), ts[0]), ts.drop_first(), k);
    }
}

/// No tile is gathered with a key that no needed tile brings: where each needed tile with the
/// key is neither still displayed at its turn nor given by the tile provider.
proof fn lemma_gathered_lacks(
    d0: Seq<((TileIndex, u32), DisplayedTile)>,
    needed: Seq<TileIndex>,
    style_id: u32,
    opaque: Seq<bool>,
    faded: Seq<u32>,
    fetched: Seq<Option<u64>>,
    fade_in_ms: u64,
    now: u64,
    n: nat,
    k: (TileIndex, u32),
)
    requires
        keys_match(d0),
        forall|q: int|
            0 <= q < n && #[trigger] needed_key(needed, style_id, q) == k ==> key_pos(
                remaining(d0, needed, style_id, q as nat),
                k,
            ) < 0 && fetched[q] is None,
    ensures
        forall|j: int|
            0 <= j < gathered(d0, needed, style_id, opaque, faded, fetched, fade_in_ms, now, n).0.len()
                ==> (#[trigger] gathered(d0, needed, style_id, opaque, faded, fetched, fade_in_ms, now, n).0[j].index,
            gathered(d0, needed, style_id, opaque, faded, fetched, fade_in_ms, now, n).0[j].style_id) != k,
    decreases n,
{
    if n > 0 {
        let p = n - 1;
        lemma_gathered_lacks(d0, needed, style_id, opaque, faded, fetched, fade_in_ms, now, p as nat, k);
        let g1 = gathered(d0, needed, style_id, opaque, faded, fetched, fade_in_ms, now, p as nat);
        let g = gathered(d0, needed, style_id, opaque, faded, fetched, fade_in_ms, now, n);
        let d = remaining(d0, needed, style_id, p as nat);
        let kp = needed_key(needed, style_id, p);
        lemma_remaining_keys_match(d0, needed, style_id, p as nat);
        lemma_key_pos(d, kp);
        assert forall|j: int| 0 <= j < g.0.len() implies (#[trigger] g.0[j].index, g.0[j].style_id) != k by {
            if j < g1.0.len() {
                assert(g.0[j] == g1.0[j]);
            } else {
                assert((g.0[j].index, g.0[j].style_id) == kp);
            }
        }
    }
}

/// With distinct needed tiles, a needed tile is displayed after an update exactly when it was
/// displayed before or the tile provider gave it.
pub proof fn law_needed_tile_present(
    d0: Seq<((TileIndex, u32), DisplayedTile)>,
    needed: Seq<TileIndex>,
    style_id: u32,
    opaque: Seq<bool>,
    faded: Seq<u32>,
    fetched: Seq<Option<u64>>,
    overlaps: Seq<Seq<bool>>,
    fade_in_ms: u64,
    now: u64,
    p: int,
)
    requires
        unique_keys(d0),
        keys_match(d0),
        0 <= p < needed.len(),
        forall|a: int, b: int| 0 <= a < b < needed.len() ==> needed[a] != needed[b],
    ensures
        (key_pos(
            updated(d0, needed, style_id, opaque, faded, fetched, overlaps, fade_in_ms, now).0,
            needed_key(needed, style_id, p),
        ) >= 0) == (key_pos(d0, needed_key(needed, style_id, p)) >= 0 || fetched[p] is Some),
{
    let n = needed.len();
    let k = needed_key(needed, style_id, p);
    lemma_turn_sees_start(d0, needed, style_id, p);
    if key_pos(d0, k) >= 0 || fetched[p] is Some {
        law_needed_tile_displayed(d0, needed, style_id, opaque, faded, fetched, overlaps, fade_in_ms, now, p);
    } else {
        let g = gathered(d0, needed, style_id, opaque, faded, fetched, fade_in_ms, now, n);
        assert forall|q: int|
            0 <= q < n && #[trigger] needed_key(needed, style_id, q) == k implies key_pos(
                remaining(d0, needed, style_id, q as nat),
                k,
            ) < 0 && fetched[q] is None by {
            if q != p {
                if q < p {
                    assert(needed[q] != needed[p]);
                } else {
                    assert(needed[p] != needed[q]);
                }
            }
        }
        lemma_gathered_lacks(d0, needed, style_id, opaque, faded, fetched, fade_in_ms, now, n, k);
        let d = remaining(d0, needed, style_id, n);
        lemma_remaining_distinct(d0, needed, style_id, n, k);
        lemma_key_pos(d, k);
        lemma_key_pos(d0, k);
        let empty = Seq::<((TileIndex, u32), DisplayedTile)>::empty();
        lemma_covering_lacks(d0, overlaps, empty, d, g.1, k);
        let kept = covering(d0, overlaps, empty, d, g.1);
        lemma_insert_all_lacks(kept, g.0, k);
        let u = insert_all(kept, g.0);
        lemma_key_pos(u, k);
    }
}

/// Whether the entries `s` hold the key `k`.
pub open spec fn present(s: Seq<((TileIndex, u32), DisplayedTile)>, k: (TileIndex, u32)) -> bool {
    key_pos(s, k) >= 0
}

/// The tile that the entries `s` hold under the key `k`.
pub open spec fn entry(s: Seq<((TileIndex, u32), DisplayedTile)>, k: (TileIndex, u32)) -> DisplayedTile {
    s[key_pos(s, k)].1
}

/// Appending an entry under a new key keeps the keys unique, and holds every key that was
/// held, with its tile.
proof fn lemma_push_entry(
    r: Seq<((TileIndex, u32), DisplayedTile)>,
    k: (TileIndex, u32),
    v: DisplayedTile,
    k2: (TileIndex, u32),
)
    requires
        unique_keys(r),
        key_pos(r, k) < 0,
    ensures
        unique_keys(r.push((k, v))),
        present(r.push((k, v)), k2) == (k2 == k || present(r, k2)),
        present(r.push((k, v)), k2) ==> entry(r.push((k, v)), k2) == if k2 == k {
            v
        } else {
            entry(r, k2)
        },
{
    let s = r.push((k, v));
    lemma_key_pos(r, k);
    lemma_key_pos(r, k2);
    lemma_key_pos(s, k2);
    assert forall|a: int, b: int| 0 <= a < b < s.len() implies s[a].0 != s[b].0 by {
        assert(s[a] == r[a]);
        if b < r.len() {
            assert(s[b] == r[b]);
        }
    }
    assert(s[r.len() as int] == (k, v));
    if key_pos(s, k2) >= 0 {
        let c = key_pos(s, k2);
        if c < r.len() {
            assert(s[c] == r[c]);
            assert(key_pos(r, k2) >= 0);
            let a = key_pos(r, k2);
            assert(s[a] == r[a]);
            assert(a == c);
        }
    } else {
        if key_pos(r, k2) >= 0 {
            let a = key_pos(r, k2);
            assert(s[a] == r[a]);
        }
    }
}

/// Inserting keeps the keys unique; the key inserted holds the new tile and every other key
/// keeps its tile.
proof fn lemma_inserted_entry(
    s: Seq<((TileIndex, u32), DisplayedTile)>,
    k: (TileIndex, u32),
    v: DisplayedTile,
    k2: (TileIndex, u32),
)
    requires
        unique_keys(s),
    ensures
        unique_keys(inserted(s, k, v)),
        present(inserted(s, k, v), k2) == (k2 == k || present(s, k2)),
        present(inserted(s, k, v), k2) ==> entry(inserted(s, k, v), k2) == if k2 == k {
            v
        } else {
            entry(s, k2)
        },
{
    let i = key_pos(s, k);
    lemma_key_pos(s, k);
    if i >= 0 {
        let r = s.remove(i);
        lemma_remove_unique(s, k);
        if k2 != k {
            lemma_remove_keeps_others(s, k, k2);
        }
        lemma_push_entry(r, k, v, k2);
    } else {
        lemma_push_entry(s, k, v, k2);
    }
}

/// Dropping the first of entries with unique keys keeps the rest as they were.
proof fn lemma_drop_first_entry(es: Seq<((TileIndex, u32), DisplayedTile)>, k: (TileIndex, u32))
    requires
        unique_keys(es),
        es.len() > 0,
    ensures
        unique_keys(es.drop_first()),
        present(es.drop_first(), k) == (present(es, k) && es[0].0 != k),
        present(es.drop_first(), k) ==> entry(es.drop_first(), k) == entry(es, k),
        es[0].0 == k ==> present(es, k) && entry(es, k) == es[0].1,
{
    let t = es.drop_first();
    assert forall|a: int, b: int| 0 <= a < b < t.len() implies t[a].0 != t[b].0 by {
        assert(t[a] == es[a + 1]);
        assert(t[b] == es[b + 1]);
    }
    lemma_key_pos(t, k);
    if es[0].0 == k && key_pos(t, k) >= 0 {
        let c = key_pos(t, k);
        assert(t[c] == es[c + 1]);
    }
    if key_pos(t, k) >= 0 && es[0].0 != k {
        assert(t[key_pos(t, k)] == es[key_pos(t, k) + 1]);
    }
}

/// Routing entries with unique keys into maps with unique keys: a key ends in the first map
/// where it was there or comes in a row marked `true`, in the second where it was there or
/// comes in a row marked `false`, with the tile that came last.
proof fn lemma_route_entry(
    d0: Seq<((TileIndex, u32), DisplayedTile)>,
    row: Seq<bool>,
    m: Seq<((TileIndex, u32), DisplayedTile)>,
    rest: Seq<((TileIndex, u32), DisplayedTile)>,
    es: Seq<((TileIndex, u32), DisplayedTile)>,
    k: (TileIndex, u32),
)
    requires
        unique_keys(m),
        unique_keys(rest),
        unique_keys(es),
    ensures
        unique_keys(route(d0, row, m, rest, es).0),
        unique_keys(route(d0, row, m, rest, es).1),
        present(route(d0, row, m, rest, es).0, k) == (present(m, k) || (present(es, k)
            && row[key_pos(d0, k)])),
        present(route(d0, row, m, rest, es).1, k) == (present(rest, k) || (present(es, k)
            && !row[key_pos(d0, k)])),
        present(route(d0, row, m, rest, es).0, k) ==> entry(route(d0, row, m, rest, es).0, k)
            == if present(es, k) && row[key_pos(d0, k)] {
            entry(es, k)
        } else {
            entry(m, k)
        },
        present(route(d0, row, m, rest, es).1, k) ==> entry(route(d0, row, m, rest, es).1, k)
            == if present(es, k) && !row[key_pos(d0, k)] {
            entry(es, k)
        } else {
            entry(rest, k)
        },
    decreases es.len(),
{
    if es.len() == 0 {
        lemma_key_pos(es, k);
    } else {
        let e = es[0];
        lemma_drop_first_entry(es, k);
        lemma_drop_first_entry(es, e.0);
        if row[key_pos(d0, e.0)] {
            lemma_inserted_entry(m, e.0, e.1, k);
            lemma_inserted_entry(m, e.0, e.1, e.0);
            lemma_route_entry(d0, row, inserted(m, e.0, e.1), rest, es.drop_first(), k);
        } else {
            lemma_inserted_entry(rest, e.0, e.1, k);
            lemma_inserted_entry(rest, e.0, e.1, e.0);
            lemma_route_entry(d0, row, m, inserted(rest, e.0, e.1), es.drop_first(), k);
        }
    }
}

/// Whether some needed tile at a position in `ss` overlaps the tile at position `c` of the
/// start.
pub open spec fn overlaps_some(overlaps: Seq<Seq<bool>>, ss: Seq<usize>, c: int) -> bool {
    exists|j: int| 0 <= j < ss.len() && #[trigger] overlaps[ss[j] as int][c]
}

/// The tiles kept to cover the ground: a key of the candidates `d` is kept where its tile
/// overlaps one of the needed tiles at `ss`, with its tile.
proof fn lemma_covering_entry(
    d0: Seq<((TileIndex, u32), DisplayedTile)>,
    overlaps: Seq<Seq<bool>>,
    m: Seq<((TileIndex, u32), DisplayedTile)>,
    d: Seq<((TileIndex, u32), DisplayedTile)>,
    ss: Seq<usize>,
    k: (TileIndex, u32),
)
    requires
        unique_keys(m),
        unique_keys(d),
    ensures
        unique_keys(covering(d0, overlaps, m, d, ss)),
        present(covering(d0, overlaps, m, d, ss), k) == (present(m, k) || (present(d, k)
            && overlaps_some(overlaps, ss, key_pos(d0, k)))),
        present(covering(d0, overlaps, m, d, ss), k) ==> entry(covering(d0, overlaps, m, d, ss), k)
            == if present(d, k) && overlaps_some(overlaps, ss, key_pos(d0, k)) {
            entry(d, k)
        } else {
            entry(m, k)
        },
    decreases ss.len(),
{
    let c = key_pos(d0, k);
    if ss.len() == 0 {
        assert(!overlaps_some(overlaps, ss, c));
    } else {
        let empty = Seq::<((TileIndex, u32), DisplayedTile)>::empty();
        let row = overlaps[ss[0] as int];
        lemma_key_pos(empty, k);
        lemma_route_entry(d0, row, m, empty, d, k);
        let (m2, rest) = route(d0, row, m, empty, d);
        let tail = ss.drop_first();
        lemma_covering_entry(d0, overlaps, m2, rest, tail, k);
        assert(overlaps_some(overlaps, ss, c) == (row[c] || overlaps_some(overlaps, tail, c))) by {
            if overlaps_some(overlaps, tail, c) {
                let j = choose|j: int| 0 <= j < tail.len() && #[trigger] overlaps[tail[j] as int][c];
                assert(tail[j] == ss[j + 1]);
                assert(overlaps[ss[j + 1] as int][c]);
            }
            if row[c] {
                assert(overlaps[ss[0] as int][c]);
            }
            if overlaps_some(overlaps, ss, c) && !row[c] {
                let j = choose|j: int| 0 <= j < ss.len() && #[trigger] overlaps[ss[j] as int][c];
                assert(j > 0);
                assert(tail[j - 1] == ss[j]);
                assert(overlaps[tail[j - 1] as int][c]);
            }
        }
    }
}

/// Inserting tiles none of which has the key `k` keeps what the entries hold under `k`.
proof fn lemma_insert_all_entry(
    m: Seq<((TileIndex, u32), DisplayedTile)>,
    ts: Seq<DisplayedTile>,
    k: (TileIndex, u32),
)
    requires
        unique_keys(m),
        forall|j: int| 0 <= j < ts.len() ==> (#[trigger] ts[j].index, ts[j].style_id) != k,
    ensures
        present(insert_all(m, ts), k) == present(m, k),
        present(m, k) ==> entry(insert_all(m, ts), k) == entry(m, k),
    decreases ts.len(),
{
    if ts.len() > 0 {
        let k0 = (ts[0].index, ts[0].style_id);
        assert(k0 != k);
        lemma_inserted_entry(m, k0, ts[0], k);
        assert forall|j: int| 0 <= j < ts.drop_first().len() implies (#[trigger] ts.drop_first()[j].index, ts.drop_first()[j].style_id) != k by {
            assert(ts.drop_first()[j] == ts[j + 1]);
        }
        lemma_insert_all_entry(inserted(m, k0, ts[0]), ts.drop_first(), k);
    }
}

/// Whether the ground of the needed tile at `p` is to stay covered while it is not fully
/// shown: it is not displayed, or it is displayed and not yet opaque.
pub open spec fn awaits_cover(
    d0: Seq<((TileIndex, u32), DisplayedTile)>,
    needed: Seq<TileIndex>,
    style_id: u32,
    opaque: Seq<bool>,
    p: int,
) -> bool {
    let k = needed_key(needed, style_id, p);
    !(key_pos(d0, k) >= 0 && opaque[key_pos(d0, k)])
}

/// With distinct needed tiles, the positions gathered to stay covered are those of the first
/// `n` needed tiles that await cover.
proof fn lemma_gathered_cover(
    d0: Seq<((TileIndex, u32), DisplayedTile)>,
    needed: Seq<TileIndex>,
    style_id: u32,
    opaque: Seq<bool>,
    faded: Seq<u32>,
    fetched: Seq<Option<u64>>,
    fade_in_ms: u64,
    now: u64,
    n: nat,
    p: int,
)
    requires
        unique_keys(d0),
        n <= needed.len() <= usize::MAX,
        forall|a: int, b: int| 0 <= a < b < needed.len() ==> needed[a] != needed[b],
    ensures
        (exists|j: int|
            0 <= j < gathered(d0, needed, style_id, opaque, faded, fetched, fade_in_ms, now, n).1.len()
                && #[trigger] gathered(d0, needed, style_id, opaque, faded, fetched, fade_in_ms, now, n).1[j]
                as int == p) == (0 <= p < n && awaits_cover(d0, needed, style_id, opaque, p)),
    decreases n,
{
    let ss = gathered(d0, needed, style_id, opaque, faded, fetched, fade_in_ms, now, n).1;
    if n == 0 {
    } else {
        let q = n - 1;
        lemma_gathered_cover(d0, needed, style_id, opaque, faded, fetched, fade_in_ms, now, q as nat, p);
        lemma_turn_sees_start(d0, needed, style_id, q);
        let s1 = gathered(d0, needed, style_id, opaque, faded, fetched, fade_in_ms, now, q as nat).1;
        assert((q as usize) as int == q);
        if awaits_cover(d0, needed, style_id, opaque, q) {
            assert(ss == s1.push(q as usize));
            if exists|j: int| 0 <= j < s1.len() && #[trigger] s1[j] as int == p {
                let j = choose|j: int| 0 <= j < s1.len() && #[trigger] s1[j] as int == p;
                assert(ss[j] == s1[j]);
            }
            if p == q {
                assert(ss[s1.len() as int] as int == p);
            }
            if exists|j: int| 0 <= j < ss.len() && #[trigger] ss[j] as int == p {
                let j = choose|j: int| 0 <= j < ss.len() && #[trigger] ss[j] as int == p;
                if j < s1.len() {
                    assert(ss[j] == s1[j]);
                }
            }
        } else {
            assert(ss == s1);
        }
    }
}

/// With distinct needed tiles, a displayed tile that is not needed stays after an update
/// exactly where its box overlaps that of a needed tile awaiting cover, and then unchanged;
/// every other tile that is not needed is dropped.
pub proof fn law_other_tile_kept_while_covering(
    d0: Seq<((TileIndex, u32), DisplayedTile)>,
    needed: Seq<TileIndex>,
    style_id: u32,
    opaque: Seq<bool>,
    faded: Seq<u32>,
    fetched: Seq<Option<u64>>,
    overlaps: Seq<Seq<bool>>,
    fade_in_ms: u64,
    now: u64,
    k: (TileIndex, u32),
)
    requires
        unique_keys(d0),
        keys_match(d0),
        forall|a: int, b: int| 0 <= a < b < needed.len() ==> needed[a] != needed[b],
        forall|q: int| 0 <= q < needed.len() ==> #[trigger] needed_key(needed, style_id, q) != k,
        needed.len() <= usize::MAX,
    ensures
        present(updated(d0, needed, style_id, opaque, faded, fetched, overlaps, fade_in_ms, now).0, k)
            == (present(d0, k) && exists|p: int|
            0 <= p < needed.len() && #[trigger] awaits_cover(d0, needed, style_id, opaque, p)
                && overlaps[p][key_pos(d0, k)]),
        present(updated(d0, needed, style_id, opaque, faded, fetched, overlaps, fade_in_ms, now).0, k)
            ==> entry(updated(d0, needed, style_id, opaque, faded, fetched, overlaps, fade_in_ms, now).0, k)
            == entry(d0, k),
{
    let n = needed.len();
    let c = key_pos(d0, k);
    let g = gathered(d0, needed, style_id, opaque, faded, fetched, fade_in_ms, now, n);
    let ss = g.1;
    let d = remaining(d0, needed, style_id, n);
    let empty = Seq::<((TileIndex, u32), DisplayedTile)>::empty();
    lemma_remaining_distinct(d0, needed, style_id, n, k);
    lemma_key_pos(empty, k);
    lemma_covering_entry(d0, overlaps, empty, d, ss, k);
    let kept = covering(d0, overlaps, empty, d, ss);
    lemma_gathered_lacks(d0, needed, style_id, opaque, faded, fetched, fade_in_ms, now, n, k);
    lemma_insert_all_entry(kept, g.0, k);
    let cover = exists|p: int|
        0 <= p < n && #[trigger] awaits_cover(d0, needed, style_id, opaque, p) && overlaps[p][c];
    assert(overlaps_some(overlaps, ss, c) == cover) by {
        if overlaps_some(overlaps, ss, c) {
            let j = choose|j: int| 0 <= j < ss.len() && #[trigger] overlaps[ss[j] as int][c];
            let p = ss[j] as int;
            lemma_gathered_cover(d0, needed, style_id, opaque, faded, fetched, fade_in_ms, now, n, p);
            assert(0 <= p < n && awaits_cover(d0, needed, style_id, opaque, p) && overlaps[p][c]);
        }
        if cover {
            let p = choose|p: int|
                0 <= p < n && #[trigger] awaits_cover(d0, needed, style_id, opaque, p) && overlaps[p][c];
            lemma_gathered_cover(d0, needed, style_id, opaque, faded, fetched, fade_in_ms, now, n, p);
            let j = choose|j: int| 0 <= j < ss.len() && #[trigger] ss[j] as int == p;
            assert(overlaps[ss[j] as int][c]);
        }
    }
}

/// The tile shown for the needed tile at `p` after an update, where it is displayed or the
/// tile provider gave it: a displayed tile stays as it was where it is opaque and takes its
/// faded-in opacity where it is not; a given tile is new, from now, at the opacity at which
/// tiles start.
pub open spec fn shown_tile(
    d0: Seq<((TileIndex, u32), DisplayedTile)>,
    needed: Seq<TileIndex>,
    style_id: u32,
    opaque: Seq<bool>,
    faded: Seq<u32>,
    fetched: Seq<Option<u64>>,
    fade_in_ms: u64,
    now: u64,
    p: int,
) -> DisplayedTile {
    let k = needed_key(needed, style_id, p);
    let q = key_pos(d0, k);
    if q >= 0 {
        if opaque[q] {
            d0[q].1
        } else {
            DisplayedTile { opacity: faded[q], ..d0[q].1 }
        }
    } else {
        DisplayedTile {
            index: needed[p],
            bundle: fetched[p]->Some_0,
            style_id,
            opacity: start_opacity(fade_in_ms),
            displayed_at: now,
        }
    }
}

/// With distinct needed tiles, every tile gathered under the key of the needed tile at `p`
/// is the tile shown for it.
proof fn lemma_gathered_tile(
    d0: Seq<((TileIndex, u32), DisplayedTile)>,
    needed: Seq<TileIndex>,
    style_id: u32,
    opaque: Seq<bool>,
    faded: Seq<u32>,
    fetched: Seq<Option<u64>>,
    fade_in_ms: u64,
    now: u64,
    n: nat,
    p: int,
)
    requires
        unique_keys(d0),
        keys_match(d0),
        0 <= p < needed.len(),
        n <= needed.len(),
        forall|a: int, b: int| 0 <= a < b < needed.len() ==> needed[a] != needed[b],
    ensures
        forall|j: int|
            0 <= j < gathered(d0, needed, style_id, opaque, faded, fetched, fade_in_ms, now, n).0.len()
                && (#[trigger] gathered(d0, needed, style_id, opaque, faded, fetched, fade_in_ms, now, n).0[j].index,
            gathered(d0, needed, style_id, opaque, faded, fetched, fade_in_ms, now, n).0[j].style_id)
                == needed_key(needed, style_id, p) ==> gathered(
                d0,
                needed,
                style_id,
                opaque,
                faded,
                fetched,
                fade_in_ms,
                now,
                n,
            ).0[j] == shown_tile(d0, needed, style_id, opaque, faded, fetched, fade_in_ms, now, p),
    decreases n,
{
    if n > 0 {
        let q = n - 1;
        lemma_gathered_tile(d0, needed, style_id, opaque, faded, fetched, fade_in_ms, now, q as nat, p);
        let g1 = gathered(d0, needed, style_id, opaque, faded, fetched, fade_in_ms, now, q as nat);
        let g = gathered(d0, needed, style_id, opaque, faded, fetched, fade_in_ms, now, n);
        let d = remaining(d0, needed, style_id, q as nat);
        let kq = needed_key(needed, style_id, q);
        let kp = needed_key(needed, style_id, p);
        lemma_remaining_keys_match(d0, needed, style_id, q as nat);
        lemma_key_pos(d, kq);
        lemma_turn_sees_start(d0, needed, style_id, q);
        lemma_remaining_distinct(d0, needed, style_id, q as nat, kq);
        assert forall|a: int| 0 <= a < q implies #[trigger] needed_key(needed, style_id, a) != kq by {
            assert(needed[a] != needed[q]);
        }
        assert forall|j: int|
            0 <= j < g.0.len() && (#[trigger] g.0[j].index, g.0[j].style_id) == kp implies g.0[j]
            == shown_tile(d0, needed, style_id, opaque, faded, fetched, fade_in_ms, now, p) by {
            if j < g1.0.len() {
                assert(g.0[j] == g1.0[j]);
            } else {
                assert((g.0[j].index, g.0[j].style_id) == kq);
                if q != p {
                    if q < p {
                        assert(needed[q] != needed[p]);
                    } else {
                        assert(needed[p] != needed[q]);
                    }
                }
            }
        }
    }
}

/// Inserting tiles, some under the key `k` and each of those the tile `v`, leaves `v` under
/// `k`.
proof fn lemma_insert_all_last(
    m: Seq<((TileIndex, u32), DisplayedTile)>,
    ts: Seq<DisplayedTile>,
    k: (TileIndex, u32),
    v: DisplayedTile,
)
    requires
        unique_keys(m),
        exists|j: int| 0 <= j < ts.len() && (#[trigger] ts[j].index, ts[j].style_id) == k,
        forall|j: int| 0 <= j < ts.len() && (#[trigger] ts[j].index, ts[j].style_id) == k ==> ts[j] == v,
    ensures
        present(insert_all(m, ts), k),
        entry(insert_all(m, ts), k) == v,
    decreases ts.len(),
{
    let k0 = (ts[0].index, ts[0].style_id);
    let m2 = inserted(m, k0, ts[0]);
    let tail = ts.drop_first();
    lemma_inserted_entry(m, k0, ts[0], k);
    assert forall|j: int| 0 <= j < tail.len() && (#[trigger] tail[j].index, tail[j].style_id) == k implies tail[j] == v by {
        assert(tail[j] == ts[j + 1]);
    }
    if exists|j: int| 0 <= j < tail.len() && (#[trigger] tail[j].index, tail[j].style_id) == k {
        lemma_insert_all_last(m2, tail, k, v);
    } else {
        let j = choose|j: int| 0 <= j < ts.len() && (#[trigger] ts[j].index, ts[j].style_id) == k;
        if j > 0 {
            assert(tail[j - 1] == ts[j]);
        }
        assert(k0 == k);
        lemma_insert_all_entry(m2, tail, k);
    }
}

/// With distinct needed tiles, a needed tile that is displayed or that the tile provider gave
/// is shown after an update as `shown_tile` says: unchanged where it was opaque, at its
/// faded-in opacity where it was fading in, and new from now at the starting opacity where it
/// was given.
pub proof fn law_needed_tile_shown(
    d0: Seq<((TileIndex, u32), DisplayedTile)>,
    needed: Seq<TileIndex>,
    style_id: u32,
    opaque: Seq<bool>,
    faded: Seq<u32>,
    fetched: Seq<Option<u64>>,
    overlaps: Seq<Seq<bool>>,
    fade_in_ms: u64,
    now: u64,
    p: int,
)
    requires
        unique_keys(d0),
        keys_match(d0),
        0 <= p < needed.len(),
        forall|a: int, b: int| 0 <= a < b < needed.len() ==> needed[a] != needed[b],
        present(d0, needed_key(needed, style_id, p)) || fetched[p] is Some,
    ensures
        entry(
            updated(d0, needed, style_id, opaque, faded, fetched, overlaps, fade_in_ms, now).0,
            needed_key(needed, style_id, p),
        ) == shown_tile(d0, needed, style_id, opaque, faded, fetched, fade_in_ms, now, p),
{
    let n = needed.len();
    let k = needed_key(needed, style_id, p);
    let g = gathered(d0, needed, style_id, opaque, faded, fetched, fade_in_ms, now, n);
    lemma_turn_sees_start(d0, needed, style_id, p);
    lemma_gathered_has(d0, needed, style_id, opaque, faded, fetched, fade_in_ms, now, n, p);
    lemma_gathered_tile(d0, needed, style_id, opaque, faded, fetched, fade_in_ms, now, n, p);
    let d = remaining(d0, needed, style_id, n);
    let empty = Seq::<((TileIndex, u32), DisplayedTile)>::empty();
    lemma_remaining_distinct(d0, needed, style_id, n, k);
    lemma_key_pos(empty, k);
    lemma_covering_entry(d0, overlaps, empty, d, g.1, k);
    let kept = covering(d0, overlaps, empty, d, g.1);
    lemma_insert_all_last(
        kept,
        g.0,
        k,
        shown_tile(d0, needed, style_id, opaque, faded, fetched, fade_in_ms, now, p),
    );
}

impl TilesContainer {
    /// An empty container whose tiles fade in over 300 milliseconds.
    pub fn new() -> (c: TilesContainer)
        ensures
            c.entries() == Seq::<((TileIndex, u32), DisplayedTile)>::empty(),
            c.fade_ms() == 300,
    {
        TilesContainer { tiles: new_tile_map(), fade_in_duration_ms: 300 }
    }

    /// How long a newly shown tile takes to fade in, in milliseconds.
    pub fn fade_in_duration(&self) -> (r: u64)
        ensures
            r == self.fade_ms(),
    {
        self.fade_in_duration_ms
    }

    /// Sets how long a newly shown tile takes to fade in, in milliseconds.
    pub fn set_fade_in_duration(&mut self, ms: u64)
        ensures
            final(self).fade_ms() == ms,
            final(self).entries() == old(self).entries(),
    {
        proof {
            use_type_invariant(&*self);
        }
        self.fade_in_duration_ms = ms;
    }

    /// Whether newly shown tiles fade in.
    pub fn requires_animation(&self) -> (r: bool)
        ensures
            r == (self.fade_ms() > 1),
    {
        self.fade_in_duration_ms > 1
    }

    /// The keys of the displayed tiles, in display order: the order of the facts that an
    /// update takes about each displayed tile.
    pub fn displayed_keys(&self) -> (r: Vec<(TileIndex, u32)>)
        ensures
            r@ == self.entries().map_values(|e: ((TileIndex, u32), DisplayedTile)| e.0),
    {
        tile_keys(&self.tiles)
    }

    /// The displayed tiles, in display order.
    pub fn displayed_tiles(&self) -> (r: Vec<DisplayedTile>)
        ensures
            r@ == self.entries().map_values(|e: ((TileIndex, u32), DisplayedTile)| e.1),
    {
        tile_values(&self.tiles)
    }

    /// For each needed tile, whether an update asks the tile provider for it: where it is not
    /// displayed, or an earlier needed tile has the same key.
    pub fn fetch_plan(&self, needed: &Vec<TileIndex>, style_id: u32) -> (r: Vec<bool>)
        ensures
            r@.len() == needed@.len(),
            forall|p: int|
                0 <= p < needed@.len() ==> #[trigger] r@[p] == (key_pos(
                    remaining(self.entries(), needed@, style_id, p as nat),
                    needed_key(needed@, style_id, p),
                ) < 0),
            distinct_tiles(needed@) ==> forall|p: int|
                0 <= p < needed@.len() ==> #[trigger] r@[p] == !present(
                    self.entries(),
                    needed_key(needed@, style_id, p),
                ),
    {
        proof {
            use_type_invariant(self);
            if distinct_tiles(needed@) {
                assert forall|p: int| 0 <= p < needed@.len() implies (key_pos(
                    remaining(self.entries(), needed@, style_id, p as nat),
                    needed_key(needed@, style_id, p),
                ) < 0) == !present(self.entries(), needed_key(needed@, style_id, p)) by {
                    lemma_turn_sees_start(self.entries(), needed@, style_id, p);
                }
            }
        }
        let ghost d0 = tile_entries(self.tiles);
        let mut left = copy_tiles(&self.tiles);
        let mut r: Vec<bool> = Vec::new();
        let mut p: usize = 0;
        while p < needed.len()
            invariant
                p <= needed@.len(),
                r@.len() == p,
                tile_entries(left) == remaining(d0, needed@, style_id, p as nat),
                forall|j: int|
                    0 <= j < p ==> #[trigger] r@[j] == (key_pos(
                        remaining(d0, needed@, style_id, j as nat),
                        needed_key(needed@, style_id, j),
                    ) < 0),
            decreases needed@.len() - p,
        {
            let k = (needed[p], style_id);
            let found = remove_tile(&mut left, &k);
            r.push(found.is_none());
            p = p + 1;
        }
        r
    }

    /// Updates the displayed tiles for the tiles `needed` in style `style_id`, and tells
    /// whether the map must be drawn again. A needed tile that is displayed stays, and fades
    /// further in where it is not yet opaque; one that is not displayed is shown where the
    /// provider gave it. Tiles no longer needed stay only where they overlap a needed tile
    /// that is not yet fully shown; the needed tiles are drawn above them.
    pub fn update_displayed_tiles(&mut self, needed: &Vec<TileIndex>, style_id: u32, facts: &TileUpdateFacts) -> (redraw: bool)
        requires
            facts.opaque@.len() == old(self).entries().len(),
            facts.faded@.len() == old(self).entries().len(),
            facts.fetched@.len() == needed@.len(),
            facts.overlaps@.len() == needed@.len(),
            forall|p: int| 0 <= p < needed@.len() ==> (#[trigger] facts.overlaps@[p])@.len() == old(self).entries().len(),
        ensures
            (final(self).entries(), redraw) == updated(
                old(self).entries(),
                needed@,
                style_id,
                facts.opaque@,
                facts.faded@,
                facts.fetched@,
                facts.overlaps@.map_values(|row: Vec<bool>| row@),
                old(self).fade_ms(),
                facts.now,
            ),
            final(self).fade_ms() == old(self).fade_ms(),
            distinct_tiles(needed@) ==> (redraw == exists|p: int|
                0 <= p < needed@.len() && #[trigger] changes_display(
                    old(self).entries(),
                    needed@,
                    style_id,
                    facts.opaque@,
                    facts.fetched@,
                    p,
                )),
            distinct_tiles(needed@) ==> forall|p: int|
                0 <= p < needed@.len() ==> present(
                    final(self).entries(),
                    #[trigger] needed_key(needed@, style_id, p),
                ) == (present(old(self).entries(), needed_key(needed@, style_id, p))
                    || facts.fetched@[p] is Some),
            distinct_tiles(needed@) ==> forall|p: int|
                0 <= p < needed@.len() && (present(
                    old(self).entries(),
                    #[trigger] needed_key(needed@, style_id, p),
                ) || facts.fetched@[p] is Some) ==> entry(
                    final(self).entries(),
                    needed_key(needed@, style_id, p),
                ) == shown_tile(
                    old(self).entries(),
                    needed@,
                    style_id,
                    facts.opaque@,
                    facts.faded@,
                    facts.fetched@,
                    old(self).fade_ms(),
                    facts.now,
                    p,
                ),
            distinct_tiles(needed@) ==> forall|k: (TileIndex, u32)|
                (forall|q: int| 0 <= q < needed@.len() ==> #[trigger] needed_key(needed@, style_id, q) != k)
                    ==> (#[trigger] present(final(self).entries(), k) == (present(old(self).entries(), k)
                    && exists|p: int|
                    0 <= p < needed@.len() && #[trigger] awaits_cover(
                        old(self).entries(),
                        needed@,
                        style_id,
                        facts.opaque@,
                        p,
                    ) && facts.overlaps@[p]@[key_pos(old(self).entries(), k)])) && (present(
                    final(self).entries(),
                    k,
                ) ==> entry(final(self).entries(), k) == entry(old(self).entries(), k)),
    {
        proof {
            use_type_invariant(&*self);
        }
        let mut tiles = new_tile_map();
        std::mem::swap(&mut tiles, &mut self.tiles);
        let ghost d0 = tile_entries(tiles);
        let ghost wf = keys_match(d0);
        let ghost ov = facts.overlaps@.map_values(|row: Vec<bool>| row@);
        let fade_in_ms = self.fade_in_duration_ms;
        let keys0 = tile_keys(&tiles);
        let mut ts: Vec<DisplayedTile> = Vec::new();
        let mut ss: Vec<usize> = Vec::new();
        let mut redraw = false;
        let mut p: usize = 0;
        proof {
            lemma_remaining_within(d0, needed@, style_id, 0);
        }
        while p < needed.len()
            invariant
                keys0@ == d0.map_values(|e: ((TileIndex, u32), DisplayedTile)| e.0),
                facts.opaque@.len() == d0.len(),
                facts.faded@.len() == d0.len(),
                facts.fetched@.len() == needed@.len(),
                p <= needed@.len(),
                self.fade_in_duration_ms == fade_in_ms,
                tile_entries(tiles) == remaining(d0, needed@, style_id, p as nat),
                (ts@, ss@, redraw) == gathered(
                    d0,
                    needed@,
                    style_id,
                    facts.opaque@,
                    facts.faded@,
                    facts.fetched@,
                    fade_in_ms,
                    facts.now,
                    p as nat,
                ),
                forall|j: int| 0 <= j < ss@.len() ==> ss@[j] < needed@.len(),
            decreases needed@.len() - p,
        {
            let ghost d = tile_entries(tiles);
            let k = (needed[p], style_id);
            proof {
                lemma_key_pos(d, k);
                lemma_remaining_within(d0, needed@, style_id, p as nat);
            }
            match remove_tile(&mut tiles, &k) {
                Some(t) => {
                    proof {
                        let i = key_pos(d, k);
                        assert(key_pos(d0, d[i].0) >= 0);
                        lemma_key_among(keys0@, d0, k);
                    }
                    let q = position_of(&keys0, &k);
                    proof {
                        lemma_position_is_key_pos(keys0@, d0, k, q as int);
                    }
                    if facts.opaque[q] {
                        ts.push(t);
                    } else {
                        ts.push(DisplayedTile { opacity: facts.faded[q], ..t });
                        ss.push(p);
                        redraw = true;
                    }
                },
                None => match facts.fetched[p] {
                    None => {
                        ss.push(p);
                    },
                    Some(bundle) => {
                        let opacity: u32 = if fade_in_ms > 1 { 0 } else { 0x3f80_0000 };
                        ts.push(DisplayedTile { index: needed[p], bundle, style_id, opacity, displayed_at: facts.now });
                        ss.push(p);
                        redraw = true;
                    },
                },
            }
            p = p + 1;
        }
        let ghost dn = tile_entries(tiles);
        let ghost ts_all = ts@;
        proof {
            if wf {
                lemma_remaining_keys_match(d0, needed@, style_id, needed@.len() as nat);
            }
        }
        let mut kept = new_tile_map();
        let mut x: usize = 0;
        proof {
            lemma_remaining_within(d0, needed@, style_id, needed@.len() as nat);
            assert(ss@.skip(0) =~= ss@);
        }
        while x < ss.len()
            invariant
                keys0@ == d0.map_values(|e: ((TileIndex, u32), DisplayedTile)| e.0),
                ov == facts.overlaps@.map_values(|row: Vec<bool>| row@),
                facts.overlaps@.len() == needed@.len(),
                forall|q: int| 0 <= q < needed@.len() ==> (#[trigger] facts.overlaps@[q])@.len() == d0.len(),
                forall|j: int| 0 <= j < ss@.len() ==> ss@[j] < needed@.len(),
                x <= ss@.len(),
                self.fade_in_duration_ms == fade_in_ms,
                unique_keys(tile_entries(kept)),
                wf ==> keys_match(tile_entries(kept)) && keys_match(tile_entries(tiles)),
                keys_within(tile_entries(tiles), d0),
                covering(d0, ov, tile_entries(kept), tile_entries(tiles), ss@.skip(x as int))
                    == covering(d0, ov, Seq::empty(), dn, ss@),
            decreases ss@.len() - x,
        {
            let row = &facts.overlaps[ss[x]];
            let ghost m_before = tile_entries(kept);
            let ghost d_before = tile_entries(tiles);
            let mut rest = new_tile_map();
            proof {
                assert(row@ == ov[ss@[x as int] as int]);
                assert(ss@.skip(x as int).drop_first() =~= ss@.skip(x + 1));
                assert(keys_within(Seq::<((TileIndex, u32), DisplayedTile)>::empty(), d0));
            }
            loop
                invariant
                    keys0@ == d0.map_values(|e: ((TileIndex, u32), DisplayedTile)| e.0),
                    row@.len() == d0.len(),
                    self.fade_in_duration_ms == fade_in_ms,
                    unique_keys(tile_entries(kept)),
                    wf ==> keys_match(tile_entries(kept)) && keys_match(tile_entries(tiles))
                        && keys_match(tile_entries(rest)),
                    keys_within(tile_entries(tiles), d0),
                    keys_within(tile_entries(rest), d0),
                    route(d0, row@, tile_entries(kept), tile_entries(rest), tile_entries(tiles))
                        == route(d0, row@, m_before, Seq::empty(), d_before),
                ensures
                    tile_entries(tiles).len() == 0,
                decreases tile_entries(tiles).len(),
            {
                let ghost before = tile_entries(tiles);
                match pop_first_tile(&mut tiles) {
                    Some((k, t)) => {
                        proof {
                            assert(key_pos(d0, before[0].0) >= 0);
                            lemma_key_among(keys0@, d0, k);
                            lemma_remove_within(before, 0, d0);
                            assert(before.remove(0) =~= before.drop_first());
                        }
                        let q = position_of(&keys0, &k);
                        proof {
                            lemma_position_is_key_pos(keys0@, d0, k, q as int);
                            if wf {
                                assert(before[0] == (k, t));
                                assert forall|j: int| 0 <= j < before.drop_first().len() implies (#[trigger] before.drop_first()[j]).0 == (before.drop_first()[j].1.index, before.drop_first()[j].1.style_id) by {
                                    assert(before.drop_first()[j] == before[j + 1]);
                                }
                            }
                        }
                        if row[q] {
                            proof {
                                if wf {
                                    lemma_inserted_keys_match(tile_entries(kept), k, t);
                                }
                            }
                            insert_tile(&mut kept, k, t);
                        } else {
                            proof {
                                lemma_inserted_within(tile_entries(rest), k, t, d0);
                                if wf {
                                    lemma_inserted_keys_match(tile_entries(rest), k, t);
                                }
                            }
                            insert_tile(&mut rest, k, t);
                        }
                    },
                    None => {
                        break;
                    },
                }
            }
            tiles = rest;
            x = x + 1;
        }
        let ghost kept_all = tile_entries(kept);
        let mut y: usize = 0;
        proof {
            assert(ts@.skip(0) =~= ts@);
            assert(ss@.skip(ss@.len() as int) =~= Seq::<usize>::empty());
        }
        while y < ts.len()
            invariant
                ts@ == ts_all,
                y <= ts@.len(),
                unique_keys(tile_entries(kept)),
                wf ==> keys_match(tile_entries(kept)),
                insert_all(tile_entries(kept), ts@.skip(y as int)) == insert_all(kept_all, ts_all),
            decreases ts@.len() - y,
        {
            let t = ts[y];
            proof {
                assert(ts@.skip(y as int).drop_first() =~= ts@.skip(y + 1));
            }
            proof {
                if wf {
                    lemma_inserted_keys_match(tile_entries(kept), (t.index, t.style_id), t);
                }
            }
            insert_tile(&mut kept, (t.index, t.style_id), t);
            y = y + 1;
        }
        proof {
            assert(ts@.skip(ts@.len() as int) =~= Seq::<DisplayedTile>::empty());
        }
        proof {
            if distinct_tiles(needed@) {
                let u = updated(d0, needed@, style_id, facts.opaque@, facts.faded@, facts.fetched@, ov, fade_in_ms, facts.now);
                assert(tile_entries(kept) == u.0 && redraw == u.1);
                law_redraw_when_new_or_fading(d0, needed@, style_id, facts.opaque@, facts.faded@, facts.fetched@, ov, fade_in_ms, facts.now);
                assert forall|p: int| 0 <= p < needed@.len() implies present(
                    u.0,
                    #[trigger] needed_key(needed@, style_id, p),
                ) == (present(d0, needed_key(needed@, style_id, p)) || facts.fetched@[p] is Some) by {
                    law_needed_tile_present(d0, needed@, style_id, facts.opaque@, facts.faded@, facts.fetched@, ov, fade_in_ms, facts.now, p);
                }
                assert forall|p: int|
                    0 <= p < needed@.len() && (present(d0, #[trigger] needed_key(needed@, style_id, p))
                        || facts.fetched@[p] is Some) implies entry(u.0, needed_key(needed@, style_id, p))
                    == shown_tile(d0, needed@, style_id, facts.opaque@, facts.faded@, facts.fetched@, fade_in_ms, facts.now, p) by {
                    law_needed_tile_shown(d0, needed@, style_id, facts.opaque@, facts.faded@, facts.fetched@, ov, fade_in_ms, facts.now, p);
                }
                assert forall|k: (TileIndex, u32)|
                    (forall|q: int| 0 <= q < needed@.len() ==> #[trigger] needed_key(needed@, style_id, q) != k)
                    implies (#[trigger] present(u.0, k) == (present(d0, k) && exists|p: int|
                        0 <= p < needed@.len() && #[trigger] awaits_cover(d0, needed@, style_id, facts.opaque@, p)
                            && facts.overlaps@[p]@[key_pos(d0, k)])) && (present(u.0, k) ==> entry(u.0, k)
                        == entry(d0, k)) by {
                    law_other_tile_kept_while_covering(d0, needed@, style_id, facts.opaque@, facts.faded@, facts.fetched@, ov, fade_in_ms, facts.now, k);
                    assert forall|p: int| 0 <= p < needed@.len() implies ov[p] == facts.overlaps@[p]@ by {}
                }
            }
        }
        self.tiles = kept;
        redraw
    }
}

} // verus!