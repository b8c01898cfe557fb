//! Chunk streaming: which chunks around the player are resident, which to
//! load, and which to drop.

use bevy_utils::HashMap;
use vstd::prelude::*;

use crate::world::ChunkCoord;

verus! {

/// Registry of the chunks resident in the world: chunk coordinate to the bits of
/// the chunk's entity. Kept in a `bevy_utils::HashMap`.
#[verifier::external_body]
pub struct LoadedChunks {
    map: HashMap<(i32, i32), u64>,
}

/// What a `LoadedChunks` registry holds: chunk coordinate to entity bits.
pub uninterp spec fn loaded_chunk_map(chunks: LoadedChunks) -> Map<(i32, i32), u64>;

impl View for LoadedChunks {
    type V = Map<(i32, i32), u64>;

    open spec fn view(&self) -> Map<(i32, i32), u64> {
        loaded_chunk_map(*self)
    }
}

/// The key under which a chunk is registered.
pub open spec fn key_of(c: ChunkCoord) -> (i32, i32) {
    (c.x, c.y)
}

impl LoadedChunks {
    /// An empty registry, from `HashMap::default` (hashbrown's `default` builds an
    /// empty table). Claimed: nothing is registered.
    #[verifier::external_body]
    fn empty_table() -> (chunks: LoadedChunks)
        ensures
            loaded_chunk_map(chunks).dom().is_empty(),
    {
        LoadedChunks { map: HashMap::default() }
    }

    /// Asks hashbrown's `HashMap::contains_key`. Claimed: `true` exactly when the
    /// coordinate is registered.
    #[verifier::external_body]
    fn table_contains(&self, coord: ChunkCoord) -> (present: bool)
        ensures
            present == loaded_chunk_map(*self).contains_key((coord.x, coord.y)),
    {
        self.map.contains_key(&(coord.x, coord.y))
    }

    /// Registers a chunk with hashbrown's `HashMap::insert`. Claimed: the
    /// coordinate now maps to `entity`, every other entry is unchanged, and the
    /// entity that was registered there before, if any, is handed back.
    #[verifier::external_body]
    fn table_insert(&mut self, coord: ChunkCoord, entity: u64) -> (previous: Option<u64>)
        ensures
            loaded_chunk_map(*final(self)) == loaded_chunk_map(*old(self)).insert((coord.x, coord.y), entity),
            previous == if loaded_chunk_map(*old(self)).contains_key((coord.x, coord.y)) {
                Some(loaded_chunk_map(*old(self))[(coord.x, coord.y)])
            } else {
                None
            },
    {
        self.map.insert((coord.x, coord.y), entity)
    }

    /// Drops a chunk with hashbrown's `HashMap::remove`. Claimed: the coordinate
    /// is no longer registered, every other entry is unchanged, and the entity
    /// that was registered there, if any, is handed back.
    #[verifier::external_body]
    fn table_remove(&mut self, coord: ChunkCoord) -> (previous: Option<u64>)
        ensures
            loaded_chunk_map(*final(self)) == loaded_chunk_map(*old(self)).remove((coord.x, coord.y)),
            previous == if loaded_chunk_map(*old(self)).contains_key((coord.x, coord.y)) {
                Some(loaded_chunk_map(*old(self))[(coord.x, coord.y)])
            } else {
                None
            },
    {
        self.map.remove(&(coord.x, coord.y))
    }

    /// Hands out the registered coordinates through hashbrown's `HashMap::keys`,
    /// in the table's own order. Claimed: each registered coordinate appears
    /// exactly once and nothing else appears; the order is left open.
    #[verifier::external_body]
    fn table_keys(&self) -> (keys: Vec<(i32, i32)>)
        ensures
            forall|i: int, j: int| 0 <= i < j < keys@.len() ==> keys@[i] != keys@[j],
            forall|i: int| 0 <= i < keys@.len() ==> #[trigger] loaded_chunk_map(*self).contains_key(keys@[i]),
            forall|k: (i32, i32)| loaded_chunk_map(*self).contains_key(k)
                ==> exists|i: int| 0 <= i < keys@.len() && #[trigger] keys@[i] == k,
    {
        self.map.keys().copied().collect()
    }

    /// A registry with no chunk in it.
    pub fn new() -> (chunks: LoadedChunks)
        ensures
            chunks@.dom().is_empty(),
    {
        LoadedChunks::empty_table()
    }

    /// Whether the chunk at `coord` is resident.
    pub fn is_loaded(&self, coord: ChunkCoord) -> (present: bool)
        ensures
            present == self@.contains_key(key_of(coord)),
    {
        self.table_contains(coord)
    }

    /// Records that the chunk at `coord` is resident as `entity`, handing back
    /// the entity registered there before, if any.
    pub fn register(&mut self, coord: ChunkCoord, entity: u64) -> (previous: Option<u64>)
        ensures
            final(self)@ == old(self)@.insert(key_of(coord), entity),
            previous == if old(self)@.contains_key(key_of(coord)) {
                Some(old(self)@[key_of(coord)])
            } else {
                None
            },
    {
        self.table_insert(coord, entity)
    }
}

/// Chunk `k` lies within `r` chunks of `center` along both axes.
pub open spec fn within(center: ChunkCoord, r: int, k: (i32, i32)) -> bool {
    &&& -r <= k.0 - center.x <= r
    &&& -r <= k.1 - center.y <= r
}

/// Row-major order on chunk coordinates: by row, then by column.
pub open spec fn row_major_before(a: ChunkCoord, b: ChunkCoord) -> bool {
    a.y < b.y || (a.y == b.y && a.x < b.x)
}

/// The square of side `2 r + 1` around `center` lies inside the `i32` range.
pub open spec fn square_fits(center: ChunkCoord, r: int) -> bool {
    r < 0 || (i32::MIN <= center.x - r && center.x + r <= i32::MAX && i32::MIN <= center.y - r
        && center.y + r <= i32::MAX)
}

/// The chunks within `view_radius` of `center` that are not registered yet, in
/// row-major order. These are the chunks to generate when the player stands in
/// chunk `center`.
pub fn chunks_to_load(loaded: &LoadedChunks, center: ChunkCoord, view_radius: i32) -> (todo: Vec<ChunkCoord>)
    requires
        square_fits(center, view_radius as int),
    ensures
        forall|i: int| 0 <= i < todo@.len() ==> within(center, view_radius as int, key_of(#[trigger] todo@[i]))
            && !loaded@.contains_key(key_of(todo@[i])),
        forall|k: (i32, i32)| within(center, view_radius as int, k) && !loaded@.contains_key(k)
            ==> exists|i: int| 0 <= i < todo@.len() && key_of(#[trigger] todo@[i]) == k,
        forall|i: int, j: int| 0 <= i < j < todo@.len() ==> row_major_before(todo@[i], todo@[j]),
{
    let r = view_radius as i64;
    let lo_y = center.y as i64 - r;
    let hi_y = center.y as i64 + r;
    let lo_x = center.x as i64 - r;
    let hi_x = center.x as i64 + r;
    let mut todo: Vec<ChunkCoord> = Vec::new();
    let mut cy = lo_y;
    while cy <= hi_y
        invariant
            r == view_radius,
            lo_y == center.y - r,
            hi_y == center.y + r,
            lo_x == center.x - r,
            hi_x == center.x + r,
            square_fits(center, r as int),
            lo_y <= cy,
            r >= 0 ==> cy <= hi_y + 1,
            forall|i: int| 0 <= i < todo@.len() ==> within(center, r as int, key_of(#[trigger] todo@[i]))
                && !loaded@.contains_key(key_of(todo@[i])) && todo@[i].y < cy,
            forall|k: (i32, i32)| within(center, r as int, k) && !loaded@.contains_key(k) && k.1 < cy
                ==> exists|i: int| 0 <= i < todo@.len() && key_of(#[trigger] todo@[i]) == k,
            forall|i: int, j: int| 0 <= i < j < todo@.len() ==> row_major_before(todo@[i], todo@[j]),
        decreases hi_y + 1 - cy,
    {
        let mut cx = lo_x;
        while cx <= hi_x
            invariant
                r == view_radius,
                lo_y == center.y - r,
                hi_y == center.y + r,
                lo_x == center.x - r,
                hi_x == center.x + r,
                square_fits(center, r as int),
                lo_y <= cy <= hi_y,
                lo_x <= cx <= hi_x + 1,
                forall|i: int| 0 <= i < todo@.len() ==> within(center, r as int, key_of(#[trigger] todo@[i]))
                    && !loaded@.contains_key(key_of(todo@[i]))
                    && (todo@[i].y < cy || (todo@[i].y == cy && todo@[i].x < cx)),
                forall|k: (i32, i32)| within(center, r as int, k) && !loaded@.contains_key(k)
                    && (k.1 < cy || (k.1 == cy && k.0 < cx))
                    ==> exists|i: int| 0 <= i < todo@.len() && key_of(#[trigger] todo@[i]) == k,
                forall|i: int, j: int| 0 <= i < j < todo@.len() ==> row_major_before(todo@[i], todo@[j]),
            decreases hi_x + 1 - cx,
        {
            let c = ChunkCoord { x: cx as i32, y: cy as i32 };
            assert(c.x == cx && c.y == cy);
            let ghost prev = todo@;
            if !loaded.table_contains(c) {
                todo.push(c);
            }
            proof {
                assert forall|k: (i32, i32)| within(center, r as int, k) && !loaded@.contains_key(k)
                    && (k.1 < cy || (k.1 == cy && k.0 < cx + 1))
                    implies exists|i: int| 0 <= i < todo@.len() && key_of(#[trigger] todo@[i]) == k by {
                    if k.1 == cy && k.0 == cx {
                        assert(key_of(todo@[todo@.len() - 1]) == k);
                    } else {
                        let i = choose|i: int| 0 <= i < prev.len() && key_of(#[trigger] prev[i]) == k;
                        assert(todo@[i] == prev[i]);
                    }
                }
            }
            cx = cx + 1;
        }
        cy = cy + 1;
    }
    todo
}

/// Every chunk within `view_radius` of the origin, in row-major order: the
/// region generated when the world starts.
pub fn initial_region(view_radius: i32) -> (region: Vec<ChunkCoord>)
    requires
        square_fits(ChunkCoord { x: 0, y: 0 }, view_radius as int),
    ensures
        forall|i: int| 0 <= i < region@.len() ==> within(ChunkCoord { x: 0, y: 0 }, view_radius as int, key_of(#[trigger] region@[i])),
        forall|k: (i32, i32)| within(ChunkCoord { x: 0, y: 0 }, view_radius as int, k)
            ==> exists|i: int| 0 <= i < region@.len() && key_of(#[trigger] region@[i]) == k,
        forall|i: int, j: int| 0 <= i < j < region@.len() ==> row_major_before(region@[i], region@[j]),
{
    let nothing = LoadedChunks::new();
    chunks_to_load(&nothing, ChunkCoord { x: 0, y: 0 }, view_radius)
}

/// Unregisters every chunk that lies more than `view_radius + 1` chunks from
/// `center` along either axis, and hands back each dropped coordinate with its
/// entity so that the entity can be despawned.
pub fn unload_far_chunks(loaded: &mut LoadedChunks, center: ChunkCoord, view_radius: i32) -> (dropped: Vec<(ChunkCoord, u64)>)
    requires
        view_radius < i32::MAX,
    ensures
        final(loaded)@ == old(loaded)@.restrict(Set::new(|k: (i32, i32)| within(center, view_radius + 1, k))),
        forall|i: int| 0 <= i < dropped@.len() ==> #[trigger] old(loaded)@.contains_key(key_of(dropped@[i].0))
            && old(loaded)@[key_of(dropped@[i].0)] == dropped@[i].1
            && !within(center, view_radius + 1, key_of(dropped@[i].0)),
        forall|k: (i32, i32)| old(loaded)@.contains_key(k) && !within(center, view_radius + 1, k)
            ==> exists|i: int| 0 <= i < dropped@.len() && key_of(#[trigger] dropped@[i].0) == k,
        forall|i: int, j: int| 0 <= i < j < dropped@.len() ==> dropped@[i].0 != dropped@[j].0,
{
    let ghost start = loaded@;
    let keep = view_radius as i64 + 1;
    let keys = loaded.table_keys();
    let mut dropped: Vec<(ChunkCoord, u64)> = Vec::new();
    let ghost mut seen: Set<(i32, i32)> = Set::empty();
    let mut i: usize = 0;
    while i < keys.len()
        invariant
            keep == view_radius + 1,
            i <= keys@.len(),
            forall|a: int, b: int| 0 <= a < b < keys@.len() ==> keys@[a] != keys@[b],
            forall|a: int| 0 <= a < keys@.len() ==> #[trigger] start.contains_key(keys@[a]),
            forall|k: (i32, i32)| start.contains_key(k) ==> exists|a: int| 0 <= a < keys@.len() && #[trigger] keys@[a] == k,
            forall|a: int| 0 <= a < i ==> #[trigger] seen.contains(keys@[a]),
            forall|k: (i32, i32)| #[trigger] seen.contains(k) ==> exists|a: int| 0 <= a < i && keys@[a] == k,
            forall|k: (i32, i32)| #[trigger] loaded@.contains_key(k) <==> start.contains_key(k)
                && (within(center, keep as int, k) || !seen.contains(k)),
            forall|k: (i32, i32)| #[trigger] loaded@.contains_key(k) ==> loaded@[k] == start[k],
            forall|d: int| 0 <= d < dropped@.len() ==> #[trigger] start.contains_key(key_of(dropped@[d].0))
                && start[key_of(dropped@[d].0)] == dropped@[d].1
                && !within(center, keep as int, key_of(dropped@[d].0))
                && seen.contains(key_of(dropped@[d].0)),
            forall|k: (i32, i32)| #[trigger] seen.contains(k) && start.contains_key(k) && !within(center, keep as int, k)
                ==> exists|d: int| 0 <= d < dropped@.len() && key_of(#[trigger] dropped@[d].0) == k,
            forall|d: int, e: int| 0 <= d < e < dropped@.len() ==> dropped@[d].0 != dropped@[e].0,
        decreases keys@.len() - i,
    {
        let k = keys[i];
        proof {
            if seen.contains(k) {
                let a = choose|a: int| 0 <= a < i && keys@[a] == k;
                assert(keys@[a] != keys@[i as int]);
            }
            assert(start.contains_key(keys@[i as int]));
        }
        let dx = k.0 as i64 - center.x as i64;
        let dy = k.1 as i64 - center.y as i64;
        if dx < -keep || dx > keep || dy < -keep || dy > keep {
            let c = ChunkCoord { x: k.0, y: k.1 };
            assert(loaded@.contains_key(k));
            let gone = loaded.table_remove(c);
            match gone {
                Some(entity) => {
                    proof {
                        assert forall|d: int| 0 <= d < dropped@.len() implies dropped@[d].0 != c by {
                            assert(start.contains_key(key_of(dropped@[d].0)));
                        }
                    }
                    let ghost prev = dropped@;
                    dropped.push((c, entity));
                    proof {
                        seen = seen.insert(k);
                        assert forall|k2: (i32, i32)| #[trigger] seen.contains(k2) && start.contains_key(k2)
                            && !within(center, keep as int, k2)
                            implies exists|d: int| 0 <= d < dropped@.len() && key_of(#[trigger] dropped@[d].0) == k2 by {
                            if k2 == k {
                                assert(key_of(dropped@[dropped@.len() - 1].0) == k2);
                            } else {
                                assert(seen.remove(k).contains(k2));
                                let d = choose|d: int| 0 <= d < prev.len() && key_of(#[trigger] prev[d].0) == k2;
                                assert(dropped@[d] == prev[d]);
                            }
                        }
                        assert forall|d: int| 0 <= d < dropped@.len() implies #[trigger] start.contains_key(key_of(dropped@[d].0))
                            && start[key_of(dropped@[d].0)] == dropped@[d].1
                            && !within(center, keep as int, key_of(dropped@[d].0))
                            && seen.contains(key_of(dropped@[d].0)) by {
                            if d < prev.len() {
                                assert(dropped@[d] == prev[d]);
                                assert(start.contains_key(key_of(prev[d].0)));
                            }
                        }
                    }
                },
                None => {
                    assert(false);
                },
            }
        } else {
            proof {
                let ghost old_seen = seen;
                seen = seen.insert(k);
                assert forall|k2: (i32, i32)| #[trigger] seen.contains(k2) && start.contains_key(k2)
                    && !within(center, keep as int, k2)
                    implies exists|d: int| 0 <= d < dropped@.len() && key_of(#[trigger] dropped@[d].0) == k2 by {
                    assert(old_seen.contains(k2));
                }
                assert forall|d: int| 0 <= d < dropped@.len() implies #[trigger] start.contains_key(key_of(dropped@[d].0))
                    && start[key_of(dropped@[d].0)] == dropped@[d].1
                    && !within(center, keep as int, key_of(dropped@[d].0))
                    && seen.contains(key_of(dropped@[d].0)) by {
                    assert(start.contains_key(key_of(dropped@[d].0)));
                    assert(old_seen.contains(key_of(dropped@[d].0)));
                }
            }
        }
        proof {
            assert forall|k2: (i32, i32)| #[trigger] seen.contains(k2) implies exists|a: int| 0 <= a < i + 1 && keys@[a] == k2 by {
                if k2 != k {
                    assert(seen.remove(k).contains(k2));
                } else {
                    assert(keys@[i as int] == k2);
                }
            }
        }
        i = i + 1;
    }
    proof {
        assert forall|k: (i32, i32)| start.contains_key(k) implies seen.contains(k) by {
            let a = choose|a: int| 0 <= a < keys@.len() && #[trigger] keys@[a] == k;
            assert(seen.contains(keys@[a]));
        }
        assert forall|k: (i32, i32)| start.contains_key(k) && !within(center, view_radius + 1, k)
            implies exists|d: int| 0 <= d < dropped@.len() && key_of(#[trigger] dropped@[d].0) == k by {
            assert(seen.contains(k));
        }
        assert(loaded@ =~= start.restrict(Set::new(|k: (i32, i32)| within(center, view_radius + 1, k))));
    }
    dropped
}

/// The registry left by `unload_far_chunks` around `center`.
pub open spec fn kept_near(m: Map<(i32, i32), u64>, center: ChunkCoord, view_radius: int) -> Map<(i32, i32), u64> {
    m.restrict(Set::new(|k: (i32, i32)| within(center, view_radius + 1, k)))
}

/// A streaming step keeps the view resident: when the player stands in chunk
/// `center`, registering a chunk for every coordinate that `chunks_to_load`
/// names (`todo`) and then dropping what `unload_far_chunks` drops leaves every
/// chunk within the view radius registered, and no chunk further than one
/// chunk beyond the view radius.
pub proof fn lemma_streaming_keeps_view_resident(
    before: Map<(i32, i32), u64>,
    todo: Seq<ChunkCoord>,
    loaded: Map<(i32, i32), u64>,
    center: ChunkCoord,
    view_radius: int,
)
    requires
        forall|i: int| 0 <= i < todo.len() ==> within(center, view_radius, key_of(#[trigger] todo[i]))
            && !before.contains_key(key_of(todo[i])),
        forall|k: (i32, i32)| within(center, view_radius, k) && !before.contains_key(k)
            ==> exists|i: int| 0 <= i < todo.len() && key_of(#[trigger] todo[i]) == k,
        forall|k: (i32, i32)| #[trigger] loaded.contains_key(k) <==> before.contains_key(k)
            || exists|i: int| 0 <= i < todo.len() && key_of(#[trigger] todo[i]) == k,
    ensures
        forall|k: (i32, i32)| within(center, view_radius, k) ==> kept_near(loaded, center, view_radius).contains_key(k),
        forall|k: (i32, i32)| kept_near(loaded, center, view_radius).contains_key(k) ==> within(center, view_radius + 1, k),
{
    assert forall|k: (i32, i32)| within(center, view_radius, k) implies kept_near(loaded, center, view_radius).contains_key(k) by {
        if !before.contains_key(k) {
            let i = choose|i: int| 0 <= i < todo.len() && key_of(#[trigger] todo[i]) == k;
            assert(loaded.contains_key(k));
        }
    }
}

} // verus!
