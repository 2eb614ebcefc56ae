use vstd::prelude::*;

use crate::constants::{
    BOMB_EXPLOSION_DURATION_NANOS, TOTAL_MAP_HEIGHT, TOTAL_MAP_TILES, TOTAL_MAP_WIDTH,
    WALL_BREAK_DURATION_NANOS,
};
use crate::map::{specials_kept, on_border, spec_index_to_tile_pos, WorldMap, WorldMapView};
use crate::map_tile::{
    tile_without_bonus, BaseTile, BombOrExplosionTile, ExplosionTile, MapTile, MapTileView,
};
use crate::position::TilePosition;
use crate::timer::{fresh_timer, Timer, TimerMode};
use crate::world_entities::{ExplosionOrientation, ExplosionVariant};

verus! {

/// One tile of flames to draw: its shape and where it is.
#[derive(Debug, Clone, Copy, PartialEq, Eq, Structural)]
pub struct ExplosionVisual {
    pub variant: ExplosionVariant,
    pub pos: TilePosition,
}

impl ExplosionVisual {
    fn new(variant: ExplosionVariant, pos: TilePosition) -> (v: ExplosionVisual)
        ensures
            v == (ExplosionVisual { variant, pos }),
    {
        ExplosionVisual { variant, pos }
    }
}

/// How a tile reacts to flames: floor lets them through, a destructible (or already crumbling)
/// wall stops them and is hit, an indestructible wall stops them untouched.
#[derive(Debug, Clone, Copy, PartialEq, Eq, Structural)]
pub enum TileKind {
    Floor,
    Wall,
    Solid,
}

pub open spec fn tile_kind(t: MapTileView) -> TileKind {
    match t.base {
        BaseTile::Floor => TileKind::Floor,
        BaseTile::IndestructibleWall => TileKind::Solid,
        _ => TileKind::Wall,
    }
}

pub open spec fn kinds(ts: Seq<MapTileView>) -> Seq<TileKind> {
    ts.map_values(|t: MapTileView| tile_kind(t))
}

/// The rays of an explosion, in the order in which they are traced: left, right, down, up.
pub open spec fn ray_orientation(d: int) -> ExplosionOrientation {
    if d == 0 {
        ExplosionOrientation::Left
    } else if d == 1 {
        ExplosionOrientation::Right
    } else if d == 2 {
        ExplosionOrientation::Down
    } else {
        ExplosionOrientation::Up
    }
}

/// The index `m` steps away from `c` along ray `d`.
pub open spec fn ray_step(c: int, d: int, m: int) -> int {
    if d == 0 {
        c - m
    } else if d == 1 {
        c + m
    } else if d == 2 {
        c - 19 * m
    } else {
        c + 19 * m
    }
}

/// How many steps along ray `d` lead from `c` to `j`, if `j` lies on that ray.
pub open spec fn ray_index_of(c: int, d: int, j: int) -> int {
    if d == 0 {
        c - j
    } else if d == 1 {
        j - c
    } else if d == 2 {
        (c - j) / 19
    } else {
        (j - c) / 19
    }
}

/// Whether `j` lies on ray `d` of `c`, between `lo` and `hi` steps away.
pub open spec fn on_ray(c: int, d: int, j: int, lo: int, hi: int) -> bool {
    let m = ray_index_of(c, d, j);
    lo <= m <= hi && j == ray_step(c, d, m)
}

/// All tiles before step `m` of ray `d` are floor.
pub open spec fn ray_clear(ks: Seq<TileKind>, c: int, d: int, m: int) -> bool
    decreases m,
{
    if m <= 1 {
        true
    } else {
        ray_clear(ks, c, d, m - 1) && ks[ray_step(c, d, m - 1)] == TileKind::Floor
    }
}

/// Flames of a bomb at `c` with range `r` reach floor tile `j` along ray `d`.
pub open spec fn hits_floor_dir(ks: Seq<TileKind>, c: int, r: int, d: int, j: int) -> bool {
    &&& on_ray(c, d, j, 1, r)
    &&& ray_clear(ks, c, d, ray_index_of(c, d, j))
    &&& ks[j] == TileKind::Floor
}

/// Flames of a bomb at `c` with range `r` stop at wall `j` along ray `d`.
pub open spec fn hits_wall_dir(ks: Seq<TileKind>, c: int, r: int, d: int, j: int) -> bool {
    &&& on_ray(c, d, j, 1, r)
    &&& ray_clear(ks, c, d, ray_index_of(c, d, j))
    &&& ks[j] == TileKind::Wall
}

/// Flames of a bomb at `c` with range `r` reach floor tile `j`.
pub open spec fn hits_floor(ks: Seq<TileKind>, c: int, r: int, j: int) -> bool {
    ||| hits_floor_dir(ks, c, r, 0, j)
    ||| hits_floor_dir(ks, c, r, 1, j)
    ||| hits_floor_dir(ks, c, r, 2, j)
    ||| hits_floor_dir(ks, c, r, 3, j)
}

/// Flames of a bomb at `c` with range `r` stop at wall `j`.
pub open spec fn hits_wall(ks: Seq<TileKind>, c: int, r: int, j: int) -> bool {
    ||| hits_wall_dir(ks, c, r, 0, j)
    ||| hits_wall_dir(ks, c, r, 1, j)
    ||| hits_wall_dir(ks, c, r, 2, j)
    ||| hits_wall_dir(ks, c, r, 3, j)
}

pub open spec fn visual_at(variant: ExplosionVariant, j: int) -> ExplosionVisual {
    ExplosionVisual { variant, pos: spec_index_to_tile_pos(j) }
}

/// The flames drawn along ray `d` of a bomb at `c` with range `r`, from step `m` on: straight
/// pieces over floor, an end piece on the last step of the range or on a wall that stops the
/// flames, nothing on an indestructible wall.
pub open spec fn ray_visuals(ks: Seq<TileKind>, c: int, r: int, d: int, m: int) -> Seq<ExplosionVisual>
    decreases r - m + 1,
{
    if m < 1 || m > r {
        Seq::empty()
    } else {
        let j = ray_step(c, d, m);
        let o = ray_orientation(d);
        if ks[j] == TileKind::Floor {
            let v = if m == r {
                visual_at(ExplosionVariant::End(o), j)
            } else {
                visual_at(ExplosionVariant::Straight(o), j)
            };
            seq![v] + if m < r {
                ray_visuals(ks, c, r, d, m + 1)
            } else {
                Seq::empty()
            }
        } else if ks[j] == TileKind::Wall {
            seq![visual_at(ExplosionVariant::End(o), j)]
        } else {
            Seq::empty()
        }
    }
}

/// The flames drawn for one exploding bomb: its center, then the left, right, down and up rays.
pub open spec fn center_visuals(ks: Seq<TileKind>, c: int, r: int) -> Seq<ExplosionVisual> {
    seq![visual_at(ExplosionVariant::Center, c)] + ray_visuals(ks, c, r, 0, 1) + ray_visuals(
        ks,
        c,
        r,
        1,
        1,
    ) + ray_visuals(ks, c, r, 2, 1) + ray_visuals(ks, c, r, 3, 1)
}

/// Fresh flames, as every explosion leaves them.
pub open spec fn fresh_flames(b: Option<BombOrExplosionTile>) -> bool {
    b matches Some(BombOrExplosionTile::Explosion(e)) && e.0@ == fresh_timer(
        BOMB_EXPLOSION_DURATION_NANOS as nat,
        TimerMode::Once,
    )
}

/// A wall that just started crumbling.
pub open spec fn fresh_breaking_wall(b: BaseTile) -> bool {
    b matches BaseTile::BreakingWall(t) && t@ == fresh_timer(
        WALL_BREAK_DURATION_NANOS as nat,
        TimerMode::Once,
    )
}

/// Tile `new` is tile `orig` after flames reached it (`flamed`: the bomb or old flames are
/// replaced by fresh flames and a power-up burns) and/or after flames stopped at it
/// (`broken`: a destructible wall starts crumbling).
pub open spec fn tile_after(orig: MapTileView, new: MapTileView, flamed: bool, broken: bool) -> bool {
    &&& if broken && orig.base is BasicWall {
        fresh_breaking_wall(new.base)
    } else {
        new.base == orig.base
    }
    &&& if flamed {
        fresh_flames(new.bomb_or_explosion) && new.special == tile_without_bonus(orig).special
    } else {
        new.bomb_or_explosion == orig.bomb_or_explosion && new.special == orig.special
    }
}

pub open spec fn bomb_range(t: MapTileView) -> int {
    match t.bomb_or_explosion {
        Some(BombOrExplosionTile::Bomb(b)) => b.range as int,
        _ => 0,
    }
}

pub open spec fn finished_bomb(t: MapTileView) -> bool {
    t.bomb_or_explosion matches Some(BombOrExplosionTile::Bomb(b)) && b.timer@.finished
}

/// A finished bomb with a range lies in a row that has rows above and below it: tracing its
/// rays downwards and upwards stays on the map.
pub open spec fn safe_center(c: int, r: int) -> bool {
    r == 0 || (TOTAL_MAP_WIDTH <= c < TOTAL_MAP_TILES - TOTAL_MAP_WIDTH)
}

/// The bombs that explode: those whose fuse finished, and, round after round, those that
/// the flames of exploding bombs reach.
pub open spec fn chain_round(ts: Seq<MapTileView>, k: nat) -> Set<int>
    decreases k,
{
    if k == 0 {
        Set::new(|j: int| 0 <= j < ts.len() && finished_bomb(ts[j]))
    } else {
        let prev = chain_round(ts, (k - 1) as nat);
        prev + Set::new(
            |j: int|
                0 <= j < ts.len() && ts[j].has_bomb() && exists|c: int|
                    #[trigger] prev.contains(c) && hits_floor(kinds(ts), c, bomb_range(ts[c]), j),
        )
    }
}

/// The bomb at `j` explodes.
pub open spec fn exploded(ts: Seq<MapTileView>, j: int) -> bool {
    exists|k: nat| #[trigger] chain_round(ts, k).contains(j)
}

/// Flames reach tile `j`: it holds an exploding bomb or an exploding bomb's ray reaches it.
pub open spec fn flamed(ts: Seq<MapTileView>, j: int) -> bool {
    exists|c: int|
        #[trigger] exploded(ts, c) && (c == j || hits_floor(kinds(ts), c, bomb_range(ts[c]), j))
}

/// A ray of an exploding bomb stops at wall `j`.
pub open spec fn broken(ts: Seq<MapTileView>, j: int) -> bool {
    exists|c: int| #[trigger] exploded(ts, c) && hits_wall(kinds(ts), c, bomb_range(ts[c]), j)
}

/// No finished bomb that can reach anything lies in the bottom or top row.
pub open spec fn no_border_detonation(ts: Seq<MapTileView>) -> bool {
    forall|j: int|
        0 <= j < ts.len() && #[trigger] finished_bomb(ts[j]) ==> safe_center(j, bomb_range(ts[j]))
}


/// Tiles reached by the flames of the bombs in `order` (each bomb's own tile included).
pub open spec fn flamed_by(ts: Seq<MapTileView>, order: Seq<int>, j: int) -> bool
    decreases order.len(),
{
    if order.len() == 0 {
        false
    } else {
        let c = order.last();
        flamed_by(ts, order.drop_last(), j) || c == j || hits_floor(kinds(ts), c, bomb_range(ts[c]), j)
    }
}

/// Walls at which the rays of the bombs in `order` stop.
pub open spec fn walled_by(ts: Seq<MapTileView>, order: Seq<int>, j: int) -> bool
    decreases order.len(),
{
    if order.len() == 0 {
        false
    } else {
        let c = order.last();
        walled_by(ts, order.drop_last(), j) || hits_wall(kinds(ts), c, bomb_range(ts[c]), j)
    }
}

/// The tiles with the bombs of `known` taken away: once flames reached a bomb, nothing else
/// can set it off again.
pub open spec fn masked(ts: Seq<MapTileView>, known: Set<int>) -> Seq<MapTileView> {
    Seq::new(
        ts.len(),
        |j: int|
            if known.contains(j) && ts[j].has_bomb() {
                MapTileView { bomb_or_explosion: None, ..ts[j] }
            } else {
                ts[j]
            },
    )
}

/// The bombs that ray `d` of a bomb at `c` with range `r` reaches from step `m` on, in order:
/// the ray runs over floor and stops at the first tile that is not floor.
pub open spec fn ray_found(ts: Seq<MapTileView>, c: int, r: int, d: int, m: int) -> Seq<int>
    decreases r - m + 1,
{
    if m < 1 || m > r {
        Seq::empty()
    } else {
        let j = ray_step(c, d, m);
        if tile_kind(ts[j]) == TileKind::Floor {
            (if ts[j].has_bomb() {
                seq![j]
            } else {
                Seq::<int>::empty()
            }) + ray_found(ts, c, r, d, m + 1)
        } else {
            Seq::empty()
        }
    }
}

/// The bombs that rays `0..n` of a bomb at `c` with range `r` reach, ray after ray; a bomb
/// reached by an earlier ray is not reached again.
pub open spec fn center_found_upto(ts: Seq<MapTileView>, c: int, r: int, n: int) -> Seq<int>
    decreases n,
{
    if n <= 0 {
        Seq::empty()
    } else {
        center_found_upto(ts, c, r, n - 1) + ray_found(
            masked(ts, Set::new(|j: int| hits_floor_upto(kinds(ts), c, r, n - 1, j))),
            c,
            r,
            n - 1,
            1,
        )
    }
}

/// The bombs that the rays of a bomb at `c` with range `r` reach, ray after ray (left, right,
/// down, up); a bomb reached by an earlier ray is not reached again.
pub open spec fn center_found(ts: Seq<MapTileView>, c: int, r: int) -> Seq<int> {
    center_found_upto(ts, c, r, 4)
}

/// The bombs whose fuse ran out among the first `n` tiles, in order of their index.
pub open spec fn finished_upto(ts: Seq<MapTileView>, n: int) -> Seq<int>
    decreases n,
{
    if n <= 0 {
        Seq::empty()
    } else if finished_bomb(ts[n - 1]) {
        finished_upto(ts, n - 1).push(n - 1)
    } else {
        finished_upto(ts, n - 1)
    }
}

/// The bombs that go off first: those whose fuse ran out, in order of their index.
pub open spec fn first_round(ts: Seq<MapTileView>) -> Seq<int> {
    finished_upto(ts, ts.len() as int)
}

/// The tiles once the bombs of `done` went off: the bombs their flames reached and the bombs
/// whose fuse ran out are gone.
pub open spec fn bombs_left(ts: Seq<MapTileView>, done: Seq<int>) -> Seq<MapTileView> {
    masked(ts, Set::new(|j: int| flamed_by(ts, done, j) || first_round(ts).contains(j)))
}

/// The first `n` steps of the chain of explosions: the bombs that went off, in order, and the
/// queue of bombs to go off (the first ones included). Bombs go off in the order in which
/// they were queued; each adds the bombs its rays reach to the end of the queue.
pub open spec fn chain_steps(ts: Seq<MapTileView>, n: nat) -> (Seq<int>, Seq<int>)
    decreases n,
{
    if n == 0 {
        (Seq::empty(), first_round(ts))
    } else {
        let (done, queue) = chain_steps(ts, (n - 1) as nat);
        if done.len() < queue.len() {
            let c = queue[done.len() as int];
            (
                done.push(c),
                queue + center_found(bombs_left(ts, done), c, bomb_range(ts[c])),
            )
        } else {
            (done, queue)
        }
    }
}

/// The bombs that go off when the map is ticked, in the order in which they go off.
pub open spec fn explosion_order(ts: Seq<MapTileView>) -> Seq<int> {
    chain_steps(ts, TOTAL_MAP_TILES as nat).0
}

/// The flames drawn when the map is ticked: one group per exploding bomb (see
/// `center_visuals`), in the order in which the bombs go off.
pub open spec fn explosion_visuals(ts: Seq<MapTileView>) -> Seq<ExplosionVisual> {
    explosion_order(ts).map_values(|c: int| center_visuals(kinds(ts), c, bomb_range(ts[c]))).flatten()
}

/// The tile indices of a queue of bombs, in order.
pub open spec fn entry_indices(q: Seq<(usize, u32)>) -> Seq<int> {
    q.map_values(|e: (usize, u32)| e.0 as int)
}

/// The tile indices of a stack of bombs, in the order in which they are popped.
pub open spec fn popped_indices(q: Seq<(usize, u32)>) -> Seq<int> {
    Seq::new(q.len(), |i: int| q[q.len() - 1 - i].0 as int)
}

/// Some entry of a queue of bombs is the bomb at `j`.
pub open spec fn queued(q: Seq<(usize, u32)>, j: int) -> bool {
    exists|k: int| 0 <= k < q.len() && (#[trigger] q[k]).0 == j
}

proof fn lemma_flamed_by(ts: Seq<MapTileView>, order: Seq<int>, j: int)
    ensures
        flamed_by(ts, order, j) <==> exists|c: int|
            #[trigger] order.contains(c) && (c == j || hits_floor(kinds(ts), c, bomb_range(ts[c]), j)),
        walled_by(ts, order, j) <==> exists|c: int|
            #[trigger] order.contains(c) && hits_wall(kinds(ts), c, bomb_range(ts[c]), j),
    decreases order.len(),
{
    if order.len() > 0 {
        let rest = order.drop_last();
        lemma_flamed_by(ts, rest, j);
        assert forall|c: int| #[trigger] order.contains(c) <==> rest.contains(c) || c == order.last() by {
            if order.contains(c) {
                let k = choose|k: int| 0 <= k < order.len() && order[k] == c;
                if k < order.len() - 1 {
                    assert(rest[k] == c);
                }
            }
            if rest.contains(c) {
                let k = choose|k: int| 0 <= k < rest.len() && rest[k] == c;
                assert(order[k] == c);
            }
            if c == order.last() {
                assert(order[order.len() - 1] == c);
            }
        }
        let last = order.last();
        let ks = kinds(ts);
        if flamed_by(ts, order, j) {
            if flamed_by(ts, rest, j) {
                let c = choose|c: int| #[trigger] rest.contains(c) && (c == j || hits_floor(ks, c, bomb_range(ts[c]), j));
                assert(order.contains(c));
            } else {
                assert(order.contains(last));
            }
        }
        if exists|c: int| #[trigger] order.contains(c) && (c == j || hits_floor(ks, c, bomb_range(ts[c]), j)) {
            let c = choose|c: int| #[trigger] order.contains(c) && (c == j || hits_floor(ks, c, bomb_range(ts[c]), j));
            if c != last {
                assert(rest.contains(c));
            }
        }
        if walled_by(ts, order, j) {
            if walled_by(ts, rest, j) {
                let c = choose|c: int| #[trigger] rest.contains(c) && hits_wall(ks, c, bomb_range(ts[c]), j);
                assert(order.contains(c));
            } else {
                assert(order.contains(last));
            }
        }
        if exists|c: int| #[trigger] order.contains(c) && hits_wall(ks, c, bomb_range(ts[c]), j) {
            let c = choose|c: int| #[trigger] order.contains(c) && hits_wall(ks, c, bomb_range(ts[c]), j);
            if c != last {
                assert(rest.contains(c));
            }
        }
    }
}

/// Once no bomb is queued, every bomb of every round of the chain has exploded.
proof fn lemma_chain_complete(ts: Seq<MapTileView>, order: Seq<int>, k: nat)
    requires
        forall|j: int| 0 <= j < ts.len() && #[trigger] finished_bomb(ts[j]) ==> order.contains(j),
        forall|c: int, j: int|
            #![trigger order.contains(c), hits_floor(kinds(ts), c, bomb_range(ts[c]), j)]
            order.contains(c) && 0 <= j < ts.len() && hits_floor(kinds(ts), c, bomb_range(ts[c]), j)
                && ts[j].has_bomb() ==> order.contains(j),
    ensures
        forall|j: int| #[trigger] chain_round(ts, k).contains(j) ==> order.contains(j),
    decreases k,
{
    if k > 0 {
        lemma_chain_complete(ts, order, (k - 1) as nat);
        let prev = chain_round(ts, (k - 1) as nat);
        assert forall|j: int| #[trigger] chain_round(ts, k).contains(j) implies order.contains(j) by {
            if !prev.contains(j) {
                let c = choose|c: int|
                    #[trigger] prev.contains(c) && hits_floor(kinds(ts), c, bomb_range(ts[c]), j);
                assert(order.contains(c));
            }
        }
    }
}

/// The distinct tile indices of a sequence are at most as many as the tiles.
proof fn lemma_order_len(order: Seq<int>)
    requires
        order.no_duplicates(),
        forall|c: int| #[trigger] order.contains(c) ==> 0 <= c < TOTAL_MAP_TILES,
    ensures
        order.len() <= TOTAL_MAP_TILES,
{
    order.unique_seq_to_set();
    vstd::set_lib::lemma_int_range(0, TOTAL_MAP_TILES as int);
    assert(order.to_set().subset_of(vstd::set_lib::set_int_range(0, TOTAL_MAP_TILES as int)));
    vstd::set_lib::lemma_len_subset(order.to_set(), vstd::set_lib::set_int_range(0, TOTAL_MAP_TILES as int));
}

/// Every bomb with a rank belongs to the round of the chain that the rank names.
pub open spec fn rank_valid(ts: Seq<MapTileView>, rank: Map<int, nat>) -> bool {
    forall|j: int| #[trigger] rank.dom().contains(j) ==> chain_round(ts, rank[j]).contains(j)
}

proof fn lemma_queue_pop(before: Seq<(usize, u32)>, after: Seq<(usize, u32)>)
    requires
        before.len() > 0,
        after == before.drop_last(),
    ensures
        forall|j: int| #[trigger] queued(before, j) <==> queued(after, j) || j == before.last().0,
        forall|k: int| 0 <= k < after.len() ==> #[trigger] after[k] == before[k],
{
    assert forall|j: int| #[trigger] queued(before, j) <==> queued(after, j) || j == before.last().0 by {
        if queued(before, j) {
            let k = choose|k: int| 0 <= k < before.len() && (#[trigger] before[k]).0 == j;
            if k < after.len() {
                assert(after[k] == before[k]);
            }
        }
        if queued(after, j) {
            let k = choose|k: int| 0 <= k < after.len() && (#[trigger] after[k]).0 == j;
            assert(after[k] == before[k]);
        }
        if j == before.last().0 {
            assert(before[before.len() - 1].0 == j);
        }
    }
}

proof fn lemma_queue_push(before: Seq<(usize, u32)>, after: Seq<(usize, u32)>)
    requires
        after.len() == before.len() + 1,
        after.drop_last() == before,
    ensures
        forall|j: int| #[trigger] queued(after, j) <==> queued(before, j) || j == after.last().0,
        forall|k: int| 0 <= k < before.len() ==> #[trigger] before[k] == after[k],
{
    assert forall|k: int| 0 <= k < before.len() implies #[trigger] before[k] == after[k] by {
        assert(after.drop_last()[k] == after[k]);
    }
    assert forall|j: int| #[trigger] queued(after, j) <==> queued(before, j) || j == after.last().0 by {
        if queued(after, j) {
            let k = choose|k: int| 0 <= k < after.len() && (#[trigger] after[k]).0 == j;
            if k < before.len() {
                assert(before[k] == after[k]);
            }
        }
        if queued(before, j) {
            let k = choose|k: int| 0 <= k < before.len() && (#[trigger] before[k]).0 == j;
            assert(before[k] == after[k]);
        }
        if j == after.last().0 {
            assert(after[after.len() - 1].0 == j);
        }
    }
}

/// A flamed tile holds no bomb.
proof fn lemma_flamed_no_bomb(o: MapTileView, n: MapTileView, f: bool, b: bool)
    requires
        tile_after(o, n, f, b),
        n.has_bomb(),
    ensures
        !f,
        n.bomb_or_explosion == o.bomb_or_explosion,
{
}

/// The floor tiles of an intact map lie in rows that have rows above and below them.
proof fn lemma_floor_inside(ts: Seq<MapTileView>, j: int)
    requires
        ts.len() == TOTAL_MAP_TILES,
        forall|i: int| 0 <= i < ts.len() && on_border(i) ==> (#[trigger] ts[i]).base is IndestructibleWall,
        0 <= j < TOTAL_MAP_TILES,
        kinds(ts)[j] == TileKind::Floor,
    ensures
        TOTAL_MAP_WIDTH <= j < TOTAL_MAP_TILES - TOTAL_MAP_WIDTH,
{
    assert(kinds(ts)[j] == tile_kind(ts[j]));
    if on_border(j) {
        assert(ts[j].base is IndestructibleWall);
    }
}

/// The loop invariants of `explode_bombs` survive the explosion of one more center.
proof fn lemma_center_step(
    ts0: Seq<MapTileView>,
    s_before: Seq<MapTileView>,
    s_after: Seq<MapTileView>,
    order_before: Seq<int>,
    c: int,
    r: int,
    ce_before: Seq<(usize, u32)>,
    ce_after: Seq<(usize, u32)>,
    ex_before: Seq<(usize, u32)>,
    ex_after: Seq<(usize, u32)>,
    old_rank: Map<int, nat>,
    rank: Map<int, nat>,
    vis_before: Seq<ExplosionVisual>,
    vis_after: Seq<ExplosionVisual>,
)
    requires
        ts0.len() == TOTAL_MAP_TILES,
        forall|i: int| 0 <= i < ts0.len() && on_border(i) ==> (#[trigger] ts0[i]).base is IndestructibleWall,
        ce_before.len() > 0,
        ce_after == ce_before.drop_last(),
        ce_before.last().0 == c,
        ce_before.last().1 == r,
        // state before the center exploded
        forall|j: int|
            0 <= j < TOTAL_MAP_TILES ==> tile_after(
                #[trigger] ts0[j],
                s_before[j],
                flamed_by(ts0, order_before, j) || queued(ce_before, j),
                walled_by(ts0, order_before, j),
            ),
        forall|k: int|
            0 <= k < ex_before.len() ==> {
                let (j, rj) = #[trigger] ex_before[k];
                &&& j < TOTAL_MAP_TILES
                &&& ts0[j as int].has_bomb()
                &&& bomb_range(ts0[j as int]) == rj
                &&& safe_center(j as int, rj as int)
                &&& !order_before.contains(j as int)
                &&& old_rank.dom().contains(j as int)
                &&& !queued(ce_before, j as int)
                &&& flamed_by(ts0, order_before, j as int)
            },
        forall|k: int|
            0 <= k < ce_before.len() ==> {
                let (j, rj) = #[trigger] ce_before[k];
                &&& j < TOTAL_MAP_TILES
                &&& ts0[j as int].has_bomb()
                &&& bomb_range(ts0[j as int]) == rj
                &&& safe_center(j as int, rj as int)
                &&& !order_before.contains(j as int)
                &&& old_rank.dom().contains(j as int)
            },
        forall|k1: int, k2: int|
            0 <= k1 < ex_before.len() && 0 <= k2 < ex_before.len() && k1 != k2 ==> (
            #[trigger] ex_before[k1]).0 != (#[trigger] ex_before[k2]).0,
        forall|k1: int, k2: int|
            0 <= k1 < ce_before.len() && 0 <= k2 < ce_before.len() && k1 != k2 ==> (
            #[trigger] ce_before[k1]).0 != (#[trigger] ce_before[k2]).0,
        order_before.no_duplicates(),
        forall|c2: int|
            #[trigger] order_before.contains(c2) ==> 0 <= c2 < TOTAL_MAP_TILES && old_rank.dom().contains(c2),
        rank_valid(ts0, old_rank),
        forall|c2: int, j: int|
            #![trigger order_before.contains(c2), hits_floor(kinds(ts0), c2, bomb_range(ts0[c2]), j)]
            order_before.contains(c2) && 0 <= j < TOTAL_MAP_TILES && hits_floor(kinds(ts0), c2, bomb_range(ts0[c2]), j)
                && ts0[j].has_bomb() ==> order_before.contains(j) || queued(ex_before, j) || queued(ce_before, j),
        forall|j: int|
            0 <= j < TOTAL_MAP_TILES && #[trigger] finished_bomb(ts0[j]) ==> order_before.contains(j)
                || queued(ex_before, j) || queued(ce_before, j),
        vis_before == order_before.map_values(|c2: int| center_visuals(kinds(ts0), c2, bomb_range(ts0[c2]))).flatten(),
        // what exploding the center did
        forall|j: int|
            0 <= j < TOTAL_MAP_TILES ==> tile_after(
                #[trigger] s_before[j],
                s_after[j],
                hits_floor(kinds(ts0), c, r, j),
                hits_wall(kinds(ts0), c, r, j),
            ),
        vis_after == vis_before + center_visuals(kinds(ts0), c, r),
        ex_after.len() >= ex_before.len(),
        ex_after.subrange(0, ex_before.len() as int) == ex_before,
        forall|k: int|
            ex_before.len() <= k < ex_after.len() ==> {
                let (j, rj) = #[trigger] ex_after[k];
                &&& j < TOTAL_MAP_TILES
                &&& hits_floor(kinds(ts0), c, r, j as int)
                &&& s_before[j as int].has_bomb()
                &&& bomb_range(s_before[j as int]) == rj
            },
        forall|k1: int, k2: int|
            ex_before.len() <= k1 < ex_after.len() && ex_before.len() <= k2 < ex_after.len() && k1 != k2
                ==> (#[trigger] ex_after[k1]).0 != (#[trigger] ex_after[k2]).0,
        forall|j: int|
            0 <= j < TOTAL_MAP_TILES && hits_floor(kinds(ts0), c, r, j) && (#[trigger] s_before[j]).has_bomb()
                ==> exists|k: int| ex_before.len() <= k < ex_after.len() && (#[trigger] ex_after[k]).0 == j,
        rank == Map::new(
            |j: int| old_rank.dom().contains(j) || queued(ex_after, j),
            |j: int| if old_rank.dom().contains(j) { old_rank[j] } else { (old_rank[c] + 1) as nat },
        ),
    ensures
        forall|j: int|
            0 <= j < TOTAL_MAP_TILES ==> tile_after(
                #[trigger] ts0[j],
                s_after[j],
                flamed_by(ts0, order_before.push(c), j) || queued(ce_after, j),
                walled_by(ts0, order_before.push(c), j),
            ),
        forall|k: int|
            0 <= k < ex_after.len() ==> {
                let (j, rj) = #[trigger] ex_after[k];
                &&& j < TOTAL_MAP_TILES
                &&& ts0[j as int].has_bomb()
                &&& bomb_range(ts0[j as int]) == rj
                &&& safe_center(j as int, rj as int)
                &&& !order_before.push(c).contains(j as int)
                &&& rank.dom().contains(j as int)
                &&& !queued(ce_after, j as int)
                &&& flamed_by(ts0, order_before.push(c), j as int)
            },
        forall|k: int|
            0 <= k < ce_after.len() ==> {
                let (j, rj) = #[trigger] ce_after[k];
                &&& j < TOTAL_MAP_TILES
                &&& ts0[j as int].has_bomb()
                &&& bomb_range(ts0[j as int]) == rj
                &&& safe_center(j as int, rj as int)
                &&& !order_before.push(c).contains(j as int)
                &&& rank.dom().contains(j as int)
            },
        forall|k1: int, k2: int|
            0 <= k1 < ex_after.len() && 0 <= k2 < ex_after.len() && k1 != k2 ==> (
            #[trigger] ex_after[k1]).0 != (#[trigger] ex_after[k2]).0,
        forall|k1: int, k2: int|
            0 <= k1 < ce_after.len() && 0 <= k2 < ce_after.len() && k1 != k2 ==> (
            #[trigger] ce_after[k1]).0 != (#[trigger] ce_after[k2]).0,
        order_before.push(c).no_duplicates(),
        forall|c2: int|
            #[trigger] order_before.push(c).contains(c2) ==> 0 <= c2 < TOTAL_MAP_TILES && rank.dom().contains(c2),
        rank_valid(ts0, rank),
        forall|c2: int, j: int|
            #![trigger order_before.push(c).contains(c2), hits_floor(kinds(ts0), c2, bomb_range(ts0[c2]), j)]
            order_before.push(c).contains(c2) && 0 <= j < TOTAL_MAP_TILES && hits_floor(kinds(ts0), c2, bomb_range(ts0[c2]), j)
                && ts0[j].has_bomb() ==> order_before.push(c).contains(j) || queued(ex_after, j) || queued(ce_after, j),
        forall|j: int|
            0 <= j < TOTAL_MAP_TILES && #[trigger] finished_bomb(ts0[j]) ==> order_before.push(c).contains(j)
                || queued(ex_after, j) || queued(ce_after, j),
        vis_after == order_before.push(c).map_values(|c2: int| center_visuals(kinds(ts0), c2, bomb_range(ts0[c2]))).flatten(),
{
    let ks = kinds(ts0);
    let order = order_before.push(c);
    lemma_queue_pop(ce_before, ce_after);
    // the popped center
    assert(ce_before[ce_before.len() - 1] == ce_before.last());
    assert(queued(ce_before, c));
    assert(r == bomb_range(ts0[c]));
    assert(0 <= c < TOTAL_MAP_TILES);
    assert(!order_before.contains(c));
    assert(old_rank.dom().contains(c));
    assert(order.drop_last() =~= order_before);
    assert forall|c2: int| #[trigger] order.contains(c2) <==> order_before.contains(c2) || c2 == c by {
        if order.contains(c2) {
            let k = choose|k: int| 0 <= k < order.len() && order[k] == c2;
            if k < order_before.len() {
                assert(order_before[k] == c2);
            }
        }
        if order_before.contains(c2) {
            let k = choose|k: int| 0 <= k < order_before.len() && order_before[k] == c2;
            assert(order[k] == c2);
        }
        if c2 == c {
            assert(order[order.len() - 1] == c);
        }
    }
    assert forall|j: int| flamed_by(ts0, order, j) == (flamed_by(ts0, order_before, j) || c == j || hits_floor(ks, c, r, j))
        && walled_by(ts0, order, j) == (walled_by(ts0, order_before, j) || hits_wall(ks, c, r, j)) by {}
    // the prefix of the queue of bombs
    assert forall|k: int| 0 <= k < ex_before.len() implies #[trigger] ex_after[k] == ex_before[k] by {
        assert(ex_after.subrange(0, ex_before.len() as int)[k] == ex_after[k]);
    }
    assert forall|j: int| queued(ex_before, j) implies #[trigger] queued(ex_after, j) by {
        let k = choose|k: int| 0 <= k < ex_before.len() && (#[trigger] ex_before[k]).0 == j;
        assert(ex_after[k] == ex_before[k]);
    }
    // tiles
    assert forall|j: int| 0 <= j < TOTAL_MAP_TILES implies tile_after(
        #[trigger] ts0[j],
        s_after[j],
        flamed_by(ts0, order, j) || queued(ce_after, j),
        walled_by(ts0, order, j),
    ) by {
        lemma_tile_after_compose(
            ts0[j],
            s_before[j],
            s_after[j],
            flamed_by(ts0, order_before, j) || queued(ce_before, j),
            walled_by(ts0, order_before, j),
            hits_floor(ks, c, r, j),
            hits_wall(ks, c, r, j),
        );
    }
    // the queue of bombs
    assert forall|k: int| 0 <= k < ex_after.len() implies {
        let (j, rj) = #[trigger] ex_after[k];
        &&& j < TOTAL_MAP_TILES
        &&& ts0[j as int].has_bomb()
        &&& bomb_range(ts0[j as int]) == rj
        &&& safe_center(j as int, rj as int)
        &&& !order.contains(j as int)
        &&& rank.dom().contains(j as int)
        &&& !queued(ce_after, j as int)
        &&& flamed_by(ts0, order, j as int)
    } by {
        let j = ex_after[k].0 as int;
        if k < ex_before.len() {
            assert(ex_after[k] == ex_before[k]);
            assert(queued(ex_after, j)) by {
                assert(ex_after[k].0 == j);
            }
        } else {
            assert(queued(ex_after, j)) by {
                assert(ex_after[k].0 == j);
            }
            lemma_flamed_no_bomb(ts0[j], s_before[j], flamed_by(ts0, order_before, j) || queued(ce_before, j), walled_by(ts0, order_before, j));
            lemma_flamed_by(ts0, order_before, j);
            if order_before.contains(j) {
                assert(flamed_by(ts0, order_before, j));
            }
            assert(ks[j] == TileKind::Floor);
            lemma_floor_inside(ts0, j);
        }
    }
    assert forall|k1: int, k2: int|
        0 <= k1 < ex_after.len() && 0 <= k2 < ex_after.len() && k1 != k2 implies (
        #[trigger] ex_after[k1]).0 != (#[trigger] ex_after[k2]).0 by {
        if k1 < ex_before.len() && k2 < ex_before.len() {
            assert(ex_after[k1] == ex_before[k1]);
            assert(ex_after[k2] == ex_before[k2]);
        } else if k1 < ex_before.len() || k2 < ex_before.len() {
            let (ko, kn) = if k1 < ex_before.len() { (k1, k2) } else { (k2, k1) };
            assert(ex_after[ko] == ex_before[ko]);
            let jn = ex_after[kn].0 as int;
            lemma_flamed_no_bomb(ts0[jn], s_before[jn], flamed_by(ts0, order_before, jn) || queued(ce_before, jn), walled_by(ts0, order_before, jn));
        }
    }
    assert forall|k1: int, k2: int|
        0 <= k1 < ce_after.len() && 0 <= k2 < ce_after.len() && k1 != k2 implies (
        #[trigger] ce_after[k1]).0 != (#[trigger] ce_after[k2]).0 by {
        assert(ce_after[k1] == ce_before[k1]);
        assert(ce_after[k2] == ce_before[k2]);
    }
    assert forall|k: int| 0 <= k < ce_after.len() implies {
        let (j, rj) = #[trigger] ce_after[k];
        &&& j < TOTAL_MAP_TILES
        &&& ts0[j as int].has_bomb()
        &&& bomb_range(ts0[j as int]) == rj
        &&& safe_center(j as int, rj as int)
        &&& !order.contains(j as int)
        &&& rank.dom().contains(j as int)
    } by {
        assert(ce_after[k] == ce_before[k]);
        assert(ce_before[k].0 != ce_before[ce_before.len() - 1].0);
    }
    // the exploded bombs
    assert(order.no_duplicates()) by {
        assert forall|a: int, b: int| 0 <= a < order.len() && 0 <= b < order.len() && a != b implies order[a] != order[b] by {
            if a < order_before.len() && b < order_before.len() {
            } else if a < order_before.len() {
                assert(order_before.contains(order[a]));
            } else if b < order_before.len() {
                assert(order_before.contains(order[b]));
            }
        }
    }
    assert(rank_valid(ts0, rank)) by {
        assert forall|j: int| #[trigger] rank.dom().contains(j) implies chain_round(ts0, rank[j]).contains(j) by {
            if !old_rank.dom().contains(j) {
                let k = choose|k: int| 0 <= k < ex_after.len() && (#[trigger] ex_after[k]).0 == j;
                if k < ex_before.len() {
                    assert(ex_after[k] == ex_before[k]);
                }
                let prev = chain_round(ts0, old_rank[c]);
                assert(prev.contains(c));
                lemma_flamed_no_bomb(ts0[j], s_before[j], flamed_by(ts0, order_before, j) || queued(ce_before, j), walled_by(ts0, order_before, j));
                assert(hits_floor(ks, c, bomb_range(ts0[c]), j));
                assert(chain_round(ts0, (old_rank[c] + 1) as nat) == prev + Set::new(
                    |j2: int|
                        0 <= j2 < ts0.len() && ts0[j2].has_bomb() && exists|c3: int|
                            #[trigger] prev.contains(c3) && hits_floor(kinds(ts0), c3, bomb_range(ts0[c3]), j2),
                ));
            }
        }
    }
    // completeness of the queue so far
    assert forall|c2: int, j: int|
        order.contains(c2) && 0 <= j < TOTAL_MAP_TILES && #[trigger] hits_floor(ks, c2, bomb_range(ts0[c2]), j)
            && ts0[j].has_bomb() implies order.contains(j) || queued(ex_after, j) || queued(ce_after, j) by {
        if order_before.contains(c2) {
            assert(order_before.contains(j) || queued(ex_before, j) || queued(ce_before, j));
        } else {
            assert(c2 == c);
            if s_before[j].has_bomb() {
                let k = choose|k: int| ex_before.len() <= k < ex_after.len() && (#[trigger] ex_after[k]).0 == j;
                assert(queued(ex_after, j));
            } else {
                assert(flamed_by(ts0, order_before, j) || queued(ce_before, j));
                if flamed_by(ts0, order_before, j) {
                    lemma_flamed_by(ts0, order_before, j);
                    let c3 = choose|c3: int|
                        #[trigger] order_before.contains(c3) && (c3 == j || hits_floor(ks, c3, bomb_range(ts0[c3]), j));
                    if c3 != j {
                        assert(order_before.contains(j) || queued(ex_before, j) || queued(ce_before, j));
                    }
                }
            }
        }
    }
    // the drawn flames
    let f = |c2: int| center_visuals(ks, c2, bomb_range(ts0[c2]));
    assert(order.map_values(f) =~= order_before.map_values(f).push(f(c)));
    order_before.map_values(f).lemma_flatten_push(f(c));
}

/// Every step before a clear step of a ray is floor.
proof fn lemma_ray_clear_floor(ks: Seq<TileKind>, c: int, d: int, m: int, k: int)
    requires
        ray_clear(ks, c, d, m),
        1 <= k < m,
    ensures
        ks[ray_step(c, d, k)] == TileKind::Floor,
        ray_clear(ks, c, d, k),
    decreases m,
{
    if k < m - 1 {
        lemma_ray_clear_floor(ks, c, d, m - 1, k);
    }
}

/// Once a ray is blocked at step `m`, no later step is reached and a wall can only be hit there.
proof fn lemma_ray_blocked(ks: Seq<TileKind>, c: int, r: int, d: int, m: int, j: int)
    requires
        ray_clear(ks, c, d, m),
        ks[ray_step(c, d, m)] != TileKind::Floor,
        m >= 1,
    ensures
        hits_floor_dir(ks, c, r, d, j) ==> ray_index_of(c, d, j) < m,
        hits_wall_dir(ks, c, r, d, j) ==> ray_index_of(c, d, j) == m && j == ray_step(c, d, m),
{
    let mi = ray_index_of(c, d, j);
    if hits_floor_dir(ks, c, r, d, j) || hits_wall_dir(ks, c, r, d, j) {
        if mi > m {
            lemma_ray_clear_floor(ks, c, d, mi, m);
        } else if mi < m && hits_wall_dir(ks, c, r, d, j) {
            lemma_ray_clear_floor(ks, c, d, m, mi);
        }
    }
}

/// The tiles of a clear stretch of a ray within the range are reached by the flames.
proof fn lemma_clear_prefix_hit(ks: Seq<TileKind>, c: int, r: int, d: int, m: int, j: int)
    requires
        ray_clear(ks, c, d, m),
        m - 1 <= r,
        on_ray(c, d, j, 1, m - 1),
    ensures
        hits_floor_dir(ks, c, r, d, j),
        !hits_wall_dir(ks, c, r, d, j),
{
    lemma_ray_clear_floor(ks, c, d, m, ray_index_of(c, d, j));
}

/// Flames of rays `0..n` reach floor tile `j`.
pub open spec fn hits_floor_upto(ks: Seq<TileKind>, c: int, r: int, n: int, j: int) -> bool
    decreases n,
{
    if n <= 0 {
        false
    } else {
        hits_floor_upto(ks, c, r, n - 1, j) || hits_floor_dir(ks, c, r, n - 1, j)
    }
}

/// Rays `0..n` stop at wall `j`.
pub open spec fn hits_wall_upto(ks: Seq<TileKind>, c: int, r: int, n: int, j: int) -> bool
    decreases n,
{
    if n <= 0 {
        false
    } else {
        hits_wall_upto(ks, c, r, n - 1, j) || hits_wall_dir(ks, c, r, n - 1, j)
    }
}

/// The flames drawn along rays `0..n`.
pub open spec fn rays_visuals_upto(ks: Seq<TileKind>, c: int, r: int, n: int) -> Seq<ExplosionVisual>
    decreases n,
{
    if n <= 0 {
        Seq::empty()
    } else {
        rays_visuals_upto(ks, c, r, n - 1) + ray_visuals(ks, c, r, n - 1, 1)
    }
}

/// Flames and hits compose: the later change wins over the earlier one only where it adds
/// something.
proof fn lemma_tile_after_compose(
    o: MapTileView,
    a: MapTileView,
    n: MapTileView,
    f1: bool,
    b1: bool,
    f2: bool,
    b2: bool,
)
    requires
        tile_after(o, a, f1, b1),
        tile_after(a, n, f2, b2),
    ensures
        tile_after(o, n, f1 || f2, b1 || b2),
{
}

/// The number of steps along a ray determines the tile.
proof fn lemma_ray_index(c: int, d: int, m: int)
    requires
        m >= 0,
        0 <= d < 4,
    ensures
        ray_index_of(c, d, ray_step(c, d, m)) == m,
{
}

/// The bombs a ray reaches depend only on where the bombs and the kinds of tiles are.
proof fn lemma_ray_found_congruent(a: Seq<MapTileView>, b: Seq<MapTileView>, c: int, r: int, d: int, m: int)
    requires
        a.len() == TOTAL_MAP_TILES,
        b.len() == TOTAL_MAP_TILES,
        0 <= c < TOTAL_MAP_TILES,
        0 <= d < 4,
        1 <= m,
        safe_center(c, r),
        forall|j: int| 0 <= j < TOTAL_MAP_TILES && on_border(j) ==> tile_kind(#[trigger] a[j]) == TileKind::Solid,
        forall|j: int|
            0 <= j < TOTAL_MAP_TILES ==> (#[trigger] a[j]).has_bomb() == b[j].has_bomb() && tile_kind(a[j])
                == tile_kind(b[j]),
        m == 1 || (0 <= ray_step(c, d, m - 1) < TOTAL_MAP_TILES && tile_kind(a[ray_step(c, d, m - 1)])
            == TileKind::Floor),
    ensures
        ray_found(a, c, r, d, m) == ray_found(b, c, r, d, m),
    decreases r - m + 1,
{
    if 1 <= m <= r {
        let j = ray_step(c, d, m);
        if m > 1 {
            let p = ray_step(c, d, m - 1);
            assert(!on_border(p));
        }
        assert(0 <= j < TOTAL_MAP_TILES);
        assert(a[j].has_bomb() == b[j].has_bomb() && tile_kind(a[j]) == tile_kind(b[j]));
        if tile_kind(a[j]) == TileKind::Floor {
            lemma_ray_found_congruent(a, b, c, r, d, m + 1);
        }
    }
}

/// Taking bombs away keeps the kinds of tiles.
proof fn lemma_masked_kinds(ts: Seq<MapTileView>, known: Set<int>)
    ensures
        masked(ts, known).len() == ts.len(),
        kinds(masked(ts, known)) == kinds(ts),
        forall|j: int|
            0 <= j < ts.len() ==> tile_kind(#[trigger] masked(ts, known)[j]) == tile_kind(ts[j])
                && masked(ts, known)[j].has_bomb() == (ts[j].has_bomb() && !known.contains(j)),
{
    assert(kinds(masked(ts, known)) =~= kinds(ts));
}

/// The bombs the rays of a bomb reach depend only on where the bombs and the kinds of tiles
/// are.
proof fn lemma_center_found_congruent(a: Seq<MapTileView>, b: Seq<MapTileView>, c: int, r: int, n: int)
    requires
        a.len() == TOTAL_MAP_TILES,
        b.len() == TOTAL_MAP_TILES,
        0 <= c < TOTAL_MAP_TILES,
        0 <= n <= 4,
        safe_center(c, r),
        forall|j: int| 0 <= j < TOTAL_MAP_TILES && on_border(j) ==> tile_kind(#[trigger] a[j]) == TileKind::Solid,
        forall|j: int|
            0 <= j < TOTAL_MAP_TILES ==> (#[trigger] a[j]).has_bomb() == b[j].has_bomb() && tile_kind(a[j])
                == tile_kind(b[j]),
    ensures
        center_found_upto(a, c, r, n) == center_found_upto(b, c, r, n),
    decreases n,
{
    if n > 0 {
        lemma_center_found_congruent(a, b, c, r, n - 1);
        assert(kinds(a) =~= kinds(b));
        let h = Set::new(|j: int| hits_floor_upto(kinds(a), c, r, n - 1, j));
        lemma_masked_kinds(a, h);
        lemma_masked_kinds(b, h);
        lemma_ray_found_congruent(masked(a, h), masked(b, h), c, r, n - 1, 1);
    }
}

/// The queue of the chain of explosions always starts with the bombs whose fuse ran out.
proof fn lemma_chain_prefix(ts: Seq<MapTileView>, n: nat)
    ensures
        chain_steps(ts, n).1.len() >= first_round(ts).len(),
        chain_steps(ts, n).1.subrange(0, first_round(ts).len() as int) == first_round(ts),
        chain_steps(ts, n).0.len() <= chain_steps(ts, n).1.len(),
    decreases n,
{
    if n > 0 {
        lemma_chain_prefix(ts, (n - 1) as nat);
        let (done, queue) = chain_steps(ts, (n - 1) as nat);
        if done.len() < queue.len() {
            let c = queue[done.len() as int];
            let next = queue + center_found(bombs_left(ts, done), c, bomb_range(ts[c]));
            assert(next.subrange(0, first_round(ts).len() as int) =~= queue.subrange(
                0,
                first_round(ts).len() as int,
            ));
        }
    } else {
        assert(first_round(ts).subrange(0, first_round(ts).len() as int) =~= first_round(ts));
    }
}

/// Once every queued bomb went off, the chain of explosions is over.
proof fn lemma_chain_stable(ts: Seq<MapTileView>, n: nat, m: nat)
    requires
        chain_steps(ts, n).0 == chain_steps(ts, n).1,
        n <= m,
    ensures
        chain_steps(ts, m) == chain_steps(ts, n),
    decreases m - n,
{
    if n < m {
        lemma_chain_stable(ts, n, (m - 1) as nat);
    }
}

/// An index listed by a queue or a stack belongs to one of its entries.
proof fn lemma_indices_queued(q: Seq<(usize, u32)>, j: int)
    ensures
        entry_indices(q).contains(j) ==> queued(q, j),
        popped_indices(q).contains(j) ==> queued(q, j),
{
    if entry_indices(q).contains(j) {
        let k = choose|k: int| 0 <= k < entry_indices(q).len() && entry_indices(q)[k] == j;
        assert(q[k].0 == j);
    }
    if popped_indices(q).contains(j) {
        let k = choose|k: int| 0 <= k < popped_indices(q).len() && popped_indices(q)[k] == j;
        assert(q[q.len() - 1 - k].0 == j);
    }
}

/// Moving the last queued bomb onto the stack of centers keeps the order in which they go off.
proof fn lemma_move_keeps_pending(ex_before: Seq<(usize, u32)>, ce_before: Seq<(usize, u32)>, ex: Seq<(usize, u32)>, ce: Seq<(usize, u32)>)
    requires
        ex_before.len() > 0,
        ex == ex_before.drop_last(),
        ce == ce_before.push(ex_before.last()),
    ensures
        entry_indices(ex) + popped_indices(ce) == entry_indices(ex_before) + popped_indices(ce_before),
{
    assert(entry_indices(ex) + popped_indices(ce) =~= entry_indices(ex_before) + popped_indices(ce_before));
}

/// Exploding the next center of the stack is the next step of the chain of explosions.
proof fn lemma_process_keeps_queue(
    ts0: Seq<MapTileView>,
    s_before: Seq<MapTileView>,
    order_before: Seq<int>,
    c: int,
    r: int,
    ce_before: Seq<(usize, u32)>,
    ce: Seq<(usize, u32)>,
    ex_before: Seq<(usize, u32)>,
    ex: Seq<(usize, u32)>,
)
    requires
        ts0.len() == TOTAL_MAP_TILES,
        s_before.len() == TOTAL_MAP_TILES,
        chain_steps(ts0, order_before.len() as nat) == (
            order_before,
            order_before + popped_indices(ce_before) + entry_indices(ex_before),
        ),
        ce_before.len() > 0,
        ce == ce_before.drop_last(),
        ce_before.last().0 == c,
        0 <= c < TOTAL_MAP_TILES,
        r == bomb_range(ts0[c]),
        safe_center(c, r),
        entry_indices(ex) == entry_indices(ex_before) + center_found(s_before, c, r),
        forall|j: int|
            0 <= j < TOTAL_MAP_TILES ==> (#[trigger] s_before[j]).has_bomb() == (ts0[j].has_bomb() && !(
            flamed_by(ts0, order_before, j) || queued(ce_before, j))) && tile_kind(s_before[j])
                == tile_kind(ts0[j]),
        forall|j: int| 0 <= j < TOTAL_MAP_TILES && on_border(j) ==> tile_kind(#[trigger] s_before[j]) == TileKind::Solid,
        forall|k: int|
            0 <= k < ce_before.len() ==> first_round(ts0).contains((#[trigger] ce_before[k]).0 as int)
                || flamed_by(ts0, order_before, ce_before[k].0 as int),
        forall|k: int| 0 <= k < ex_before.len() ==> flamed_by(ts0, order_before, (#[trigger] ex_before[k]).0 as int),
    ensures
        chain_steps(ts0, (order_before.len() + 1) as nat) == (
            order_before.push(c),
            order_before.push(c) + popped_indices(ce) + entry_indices(ex),
        ),
{
    let n = order_before.len();
    let q = order_before + popped_indices(ce_before) + entry_indices(ex_before);
    assert(q[n as int] == c);
    let bl = bombs_left(ts0, order_before);
    let r0 = first_round(ts0);
    lemma_masked_kinds(ts0, Set::new(|j: int| flamed_by(ts0, order_before, j) || r0.contains(j)));
    lemma_chain_prefix(ts0, n as nat);
    assert forall|j: int| 0 <= j < TOTAL_MAP_TILES implies (#[trigger] s_before[j]).has_bomb() == bl[j].has_bomb()
        && tile_kind(s_before[j]) == tile_kind(bl[j]) by {
        if ts0[j].has_bomb() && !flamed_by(ts0, order_before, j) {
            if queued(ce_before, j) {
                let k = choose|k: int| 0 <= k < ce_before.len() && (#[trigger] ce_before[k]).0 == j;
                assert(r0.contains(j));
            }
            if r0.contains(j) {
                let k = choose|k: int| 0 <= k < r0.len() && r0[k] == j;
                assert(q.subrange(0, r0.len() as int)[k] == j);
                assert(q[k] == j);
                lemma_flamed_by(ts0, order_before, j);
                if k < n {
                    assert(order_before.contains(j));
                } else if k < n + popped_indices(ce_before).len() {
                    assert(popped_indices(ce_before)[k - n] == j);
                    lemma_indices_queued(ce_before, j);
                } else {
                    let e = k - n - popped_indices(ce_before).len();
                    assert(entry_indices(ex_before)[e] == j);
                    assert(ex_before[e].0 == j);
                }
            }
        }
    }
    lemma_center_found_congruent(s_before, bl, c, r, 4);
    assert(popped_indices(ce_before) =~= seq![c] + popped_indices(ce));
    assert(q + center_found(bl, c, bomb_range(ts0[c])) =~= order_before.push(c) + popped_indices(ce)
        + entry_indices(ex));
}

impl WorldMap {
    /// The index one step along ray `d` from tile `prev`, which lies in a row with rows above and
    /// below it.
    fn ray_next(prev: usize, d: usize) -> (r: usize)
        requires
            TOTAL_MAP_WIDTH <= prev < TOTAL_MAP_TILES - TOTAL_MAP_WIDTH,
            d < 4,
        ensures
            r == ray_step(prev as int, d as int, 1),
            r < TOTAL_MAP_TILES,
    {
        if d == 0 {
            prev - 1
        } else if d == 1 {
            prev + 1
        } else if d == 2 {
            prev - TOTAL_MAP_WIDTH
        } else {
            prev + TOTAL_MAP_WIDTH
        }
    }

    /// Traces ray `d` of the bomb at `c` with range `range`: floor tiles get fresh flames (the
    /// bombs found there are queued in `exploding`), and the ray stops at the first wall, which
    /// starts crumbling if it is destructible.
    fn explode_ray(
        &mut self,
        c: usize,
        range: u32,
        d: usize,
        exploding: &mut Vec<(usize, u32)>,
        visuals: &mut Vec<ExplosionVisual>,
    )
        requires
            c < TOTAL_MAP_TILES,
            safe_center(c as int, range as int),
            d < 4,
        ensures
            final(self)@.well_formed(),
            final(self)@.exit_gate_index == old(self)@.exit_gate_index,
            kinds(final(self)@.tiles) == kinds(old(self)@.tiles),
            forall|j: int|
                0 <= j < TOTAL_MAP_TILES ==> tile_after(
                    #[trigger] old(self)@.tiles[j],
                    final(self)@.tiles[j],
                    hits_floor_dir(kinds(old(self)@.tiles), c as int, range as int, d as int, j),
                    hits_wall_dir(kinds(old(self)@.tiles), c as int, range as int, d as int, j),
                ),
            final(visuals)@ == old(visuals)@ + ray_visuals(
                kinds(old(self)@.tiles),
                c as int,
                range as int,
                d as int,
                1,
            ),
            entry_indices(final(exploding)@) == entry_indices(old(exploding)@) + ray_found(
                old(self)@.tiles,
                c as int,
                range as int,
                d as int,
                1,
            ),
            final(exploding)@.len() >= old(exploding)@.len(),
            final(exploding)@.subrange(0, old(exploding)@.len() as int) == old(exploding)@,
            forall|k: int|
                old(exploding)@.len() <= k < final(exploding)@.len() ==> {
                    let (j, r) = #[trigger] final(exploding)@[k];
                    &&& j < TOTAL_MAP_TILES
                    &&& hits_floor_dir(kinds(old(self)@.tiles), c as int, range as int, d as int, j as int)
                    &&& old(self)@.tiles[j as int].has_bomb()
                    &&& bomb_range(old(self)@.tiles[j as int]) == r
                },
            forall|k1: int, k2: int|
                old(exploding)@.len() <= k1 < final(exploding)@.len() && old(exploding)@.len() <= k2
                    < final(exploding)@.len() && k1 != k2 ==> (#[trigger] final(exploding)@[k1]).0
                    != (#[trigger] final(exploding)@[k2]).0,
            forall|j: int|
                0 <= j < TOTAL_MAP_TILES && hits_floor_dir(
                    kinds(old(self)@.tiles),
                    c as int,
                    range as int,
                    d as int,
                    j,
                ) && (#[trigger] old(self)@.tiles[j]).has_bomb() ==> exists|k: int|
                    old(exploding)@.len() <= k < final(exploding)@.len() && (
                    #[trigger] final(exploding)@[k]).0 == j,
    {
        proof {
            use_type_invariant(&*self);
        }
        let ghost ts0 = self@.tiles;
        let ghost ks = kinds(self@.tiles);
        let ghost v0 = visuals@;
        let ghost e0 = exploding@;
        let ghost ci = c as int;
        let ghost di = d as int;
        let ghost ri = range as int;
        let ghost mut pre: Seq<ExplosionVisual> = Seq::empty();
        let ghost mut found: Seq<int> = Seq::empty();
        assert(entry_indices(exploding@) =~= entry_indices(e0) + found);
        let orientation = if d == 0 {
            ExplosionOrientation::Left
        } else if d == 1 {
            ExplosionOrientation::Right
        } else if d == 2 {
            ExplosionOrientation::Down
        } else {
            ExplosionOrientation::Up
        };
        let mut mult: u32 = 1;
        let mut prev: usize = c;
        let mut done = false;
        while mult <= range && !done
            invariant
                old(self)@.well_formed(),
                self@.well_formed(),
                self@.exit_gate_index == old(self)@.exit_gate_index,
                ts0 == old(self)@.tiles,
                ks == kinds(ts0),
                kinds(self@.tiles) == ks,
                e0 == old(exploding)@,
                v0 == old(visuals)@,
                ci == c,
                di == d,
                ri == range,
                c < TOTAL_MAP_TILES,
                d < 4,
                safe_center(ci, ri),
                orientation == ray_orientation(di),
                1 <= mult <= 286,
                mult <= range + 1,
                prev == ray_step(ci, di, mult - 1),
                0 <= prev < TOTAL_MAP_TILES,
                mult > 1 ==> ks[prev as int] == TileKind::Floor,
                done ==> mult <= range && ray_clear(ks, ci, di, mult as int) && ks[ray_step(
                    ci,
                    di,
                    mult as int,
                )] != TileKind::Floor && 0 <= ray_step(ci, di, mult as int) < TOTAL_MAP_TILES,
                !done ==> ray_clear(ks, ci, di, mult as int),
                visuals@ == v0 + pre,
                entry_indices(exploding@) == entry_indices(e0) + found,
                done ==> ray_found(ts0, ci, ri, di, 1) == found,
                !done ==> ray_found(ts0, ci, ri, di, 1) == found + ray_found(ts0, ci, ri, di, mult as int),
                done ==> ray_visuals(ks, ci, ri, di, 1) == pre,
                !done ==> ray_visuals(ks, ci, ri, di, 1) == pre + ray_visuals(ks, ci, ri, di, mult as int),
                forall|j: int|
                    0 <= j < TOTAL_MAP_TILES ==> tile_after(
                        #[trigger] ts0[j],
                        self@.tiles[j],
                        on_ray(ci, di, j, 1, mult - 1),
                        done && hits_wall_dir(ks, ci, ri, di, j),
                    ),
                exploding@.len() >= e0.len(),
                exploding@.subrange(0, e0.len() as int) == e0,
                forall|k: int|
                    e0.len() <= k < exploding@.len() ==> {
                        let (j, r) = #[trigger] exploding@[k];
                        &&& j < TOTAL_MAP_TILES
                        &&& on_ray(ci, di, j as int, 1, mult - 1)
                        &&& ts0[j as int].has_bomb()
                        &&& bomb_range(ts0[j as int]) == r
                    },
                forall|k1: int, k2: int|
                    e0.len() <= k1 < exploding@.len() && e0.len() <= k2 < exploding@.len() && k1
                        != k2 ==> (#[trigger] exploding@[k1]).0 != (#[trigger] exploding@[k2]).0,
                forall|j: int|
                    0 <= j < TOTAL_MAP_TILES && on_ray(ci, di, j, 1, mult - 1) && (
                    #[trigger] ts0[j]).has_bomb() ==> exists|k: int|
                        e0.len() <= k < exploding@.len() && (#[trigger] exploding@[k]).0 == j,
            decreases range + 1 - mult, (if done { 0int } else { 1int }),
        {
            proof {
                if mult > 1 {
                    assert(ks[prev as int] == tile_kind(self@.tiles[prev as int]));
                    if on_border(prev as int) {
                        assert(self@.tiles[prev as int].base is IndestructibleWall);
                    }
                }
            }
            let j = WorldMap::ray_next(prev, d);
            let ghost m = mult as int;
            proof {
                lemma_ray_index(ci, di, m);
                assert(ray_step(ci, di, m) == j);
            }
            let tile = self.tiles[j];
            assert(tile@ == self@.tiles[j as int]);
            assert(ks[j as int] == tile_kind(tile@));
            let ghost unfold = ray_visuals(ks, ci, ri, di, m);
            match tile.base_type() {
                BaseTile::Floor => {
                    let variant = if mult == range {
                        ExplosionVariant::End(orientation)
                    } else {
                        ExplosionVariant::Straight(orientation)
                    };
                    let v = ExplosionVisual::new(variant, WorldMap::index_to_tile_pos(j));
                    visuals.push(v);
                    let mut t = tile;
                    let ghost ex_before = exploding@;
                    let ghost found_before = found;
                    proof {
                        assert(tile_after(ts0[j as int], self@.tiles[j as int], on_ray(ci, di, j as int, 1, m - 1), false)) by {
                            lemma_ray_index(ci, di, m);
                        }
                        assert(tile_kind(ts0[j as int]) == TileKind::Floor);
                        assert(ray_found(ts0, ci, ri, di, m) == (if ts0[j as int].has_bomb() {
                            seq![j as int]
                        } else {
                            Seq::<int>::empty()
                        }) + ray_found(ts0, ci, ri, di, m + 1));
                    }
                    if let Some(b) = t.bomb_or_explosion() {
                        if let Some(bomb) = b.bomb() {
                            exploding.push((j, bomb.range));
                            proof {
                                assert(entry_indices(exploding@) =~= entry_indices(ex_before).push(j as int));
                                found = found.push(j as int);
                                assert(entry_indices(exploding@) =~= entry_indices(e0) + found);
                            }
                        }
                    }
                    proof {
                        assert(ray_found(ts0, ci, ri, di, 1) =~= found + ray_found(ts0, ci, ri, di, m + 1));
                    }
                    t.set_explosion(
                        ExplosionTile(Timer::new(BOMB_EXPLOSION_DURATION_NANOS, TimerMode::Once)),
                    );
                    t.remove_bonus();
                    let ghost prev_map = self@;
                    self.replace_tile(j, t);
                    proof {
                        assert(tile_after(ts0[j as int], self@.tiles[j as int], true, false));
                        assert forall|i: int|
                            0 <= i < TOTAL_MAP_TILES && on_border(i) implies (
                            #[trigger] self@.tiles[i]).base is IndestructibleWall by {
                            if i == j {
                                assert(prev_map.tiles[i].base is IndestructibleWall);
                            }
                        }
                        assert(kinds(self@.tiles) =~= ks) by {
                            assert forall|i: int| 0 <= i < ks.len() implies kinds(self@.tiles)[i]
                                == ks[i] by {
                                if i != j {
                                    assert(self@.tiles[i] == prev_map.tiles[i]);
                                }
                            }
                        }
                        pre = pre.push(v);
                        assert(visuals@ =~= v0 + pre);
                        if m < ri {
                            assert(unfold == seq![v] + ray_visuals(ks, ci, ri, di, m + 1));
                        } else {
                            assert(unfold == seq![v]);
                            assert(ray_visuals(ks, ci, ri, di, m + 1) == Seq::<ExplosionVisual>::empty());
                        }
                        assert(ray_visuals(ks, ci, ri, di, 1) =~= pre + ray_visuals(ks, ci, ri, di, m + 1));
                        assert forall|i: int|
                            0 <= i < TOTAL_MAP_TILES implies tile_after(
                            #[trigger] ts0[i],
                            self@.tiles[i],
                            on_ray(ci, di, i, 1, m),
                            false,
                        ) by {
                            if i != j {
                                assert(self@.tiles[i] == prev_map.tiles[i]);
                                if on_ray(ci, di, i, 1, m) {
                                    lemma_ray_index(ci, di, m);
                                    assert(ray_index_of(ci, di, i) != m);
                                }
                            }
                        }
                        assert forall|i: int|
                            0 <= i < TOTAL_MAP_TILES && on_ray(ci, di, i, 1, m) && (
                            #[trigger] ts0[i]).has_bomb() implies exists|k: int|
                            e0.len() <= k < exploding@.len() && (#[trigger] exploding@[k]).0 == i by {
                            if i == j {
                                assert(exploding@[exploding@.len() - 1].0 == j);
                            } else {
                                assert(on_ray(ci, di, i, 1, m - 1));
                                let k = choose|k: int|
                                    e0.len() <= k < ex_before.len() && (#[trigger] ex_before[k]).0 == i;
                                assert(exploding@[k] == ex_before[k]);
                            }
                        }
                        assert(exploding@.subrange(0, e0.len() as int) =~= e0);
                    }
                    prev = j;
                    mult = mult + 1;
                },
                BaseTile::IndestructibleWall => {
                    proof {
                        assert(ray_found(ts0, ci, ri, di, m) == Seq::<int>::empty());
                        assert(found + Seq::<int>::empty() =~= found);
                        assert(unfold == Seq::<ExplosionVisual>::empty());
                        assert(pre + unfold =~= pre);
                        assert forall|i: int| 0 <= i < TOTAL_MAP_TILES implies !hits_wall_dir(ks, ci, ri, di, i) by {
                            lemma_ray_blocked(ks, ci, ri, di, m, i);
                        }
                    }
                    done = true;
                },
                BaseTile::BreakingWall(_) => {
                    proof {
                        assert(ray_found(ts0, ci, ri, di, m) == Seq::<int>::empty());
                        assert(found + Seq::<int>::empty() =~= found);
                    }
                    let v = ExplosionVisual::new(
                        ExplosionVariant::End(orientation),
                        WorldMap::index_to_tile_pos(j),
                    );
                    visuals.push(v);
                    proof {
                        pre = pre.push(v);
                        assert(visuals@ =~= v0 + pre);
                        assert(unfold == seq![v]);
                        assert(ray_visuals(ks, ci, ri, di, 1) =~= pre);
                        assert forall|i: int| 0 <= i < TOTAL_MAP_TILES && hits_wall_dir(ks, ci, ri, di, i) implies i == j by {
                            lemma_ray_blocked(ks, ci, ri, di, m, i);
                        }
                        assert(!on_ray(ci, di, j as int, 1, m - 1));
                    }
                    done = true;
                },
                BaseTile::BasicWall => {
                    proof {
                        assert(ray_found(ts0, ci, ri, di, m) == Seq::<int>::empty());
                        assert(found + Seq::<int>::empty() =~= found);
                    }
                    let v = ExplosionVisual::new(
                        ExplosionVariant::End(orientation),
                        WorldMap::index_to_tile_pos(j),
                    );
                    visuals.push(v);
                    let mut t = tile;
                    t.break_wall(Timer::new(WALL_BREAK_DURATION_NANOS, TimerMode::Once));
                    let ghost prev_map = self@;
                    self.replace_tile(j, t);
                    proof {
                        pre = pre.push(v);
                        assert(visuals@ =~= v0 + pre);
                        assert(unfold == seq![v]);
                        assert(ray_visuals(ks, ci, ri, di, 1) =~= pre);
                        assert forall|i: int| 0 <= i < TOTAL_MAP_TILES && hits_wall_dir(ks, ci, ri, di, i) implies i == j by {
                            lemma_ray_blocked(ks, ci, ri, di, m, i);
                        }
                        assert(!on_ray(ci, di, j as int, 1, m - 1));
                        assert(hits_wall_dir(ks, ci, ri, di, j as int));
                        assert(tile_after(ts0[j as int], self@.tiles[j as int], false, true));
                        assert forall|i: int|
                            0 <= i < TOTAL_MAP_TILES && on_border(i) implies (
                            #[trigger] self@.tiles[i]).base is IndestructibleWall by {
                            if i == j {
                                assert(prev_map.tiles[i].base is IndestructibleWall);
                            }
                        }
                        assert(kinds(self@.tiles) =~= ks) by {
                            assert forall|i: int| 0 <= i < ks.len() implies kinds(self@.tiles)[i]
                                == ks[i] by {
                                if i != j {
                                    assert(self@.tiles[i] == prev_map.tiles[i]);
                                }
                            }
                        }
                    }
                    done = true;
                },
            }
        }
        proof {
            let mm = mult as int;
            assert forall|j: int| 0 <= j < TOTAL_MAP_TILES implies
                (on_ray(ci, di, j, 1, mm - 1) <==> hits_floor_dir(ks, ci, ri, di, j))
                && ((done && hits_wall_dir(ks, ci, ri, di, j)) <==> hits_wall_dir(ks, ci, ri, di, j)) by {
                if done {
                    lemma_ray_blocked(ks, ci, ri, di, mm, j);
                    if on_ray(ci, di, j, 1, mm - 1) {
                        lemma_clear_prefix_hit(ks, ci, ri, di, mm, j);
                    }
                } else {
                    if on_ray(ci, di, j, 1, mm - 1) {
                        lemma_clear_prefix_hit(ks, ci, ri, di, mm, j);
                    }
                    if hits_wall_dir(ks, ci, ri, di, j) {
                        lemma_ray_clear_floor(ks, ci, di, mm, ray_index_of(ci, di, j));
                    }
                }
            }
            if !done {
                assert(ray_found(ts0, ci, ri, di, mm) == Seq::<int>::empty());
                assert(found + Seq::<int>::empty() =~= found);
                assert(ray_visuals(ks, ci, ri, di, mm) == Seq::<ExplosionVisual>::empty());
                assert(pre + Seq::<ExplosionVisual>::empty() =~= pre);
            }
        }
    }

    /// Makes the bomb at `c` with range `range` explode: its center is drawn and its four rays
    /// are traced; the bombs they reach are queued in `exploding`.
    fn explode_center(
        &mut self,
        c: usize,
        range: u32,
        exploding: &mut Vec<(usize, u32)>,
        visuals: &mut Vec<ExplosionVisual>,
    )
        requires
            c < TOTAL_MAP_TILES,
            safe_center(c as int, range as int),
        ensures
            final(self)@.well_formed(),
            final(self)@.exit_gate_index == old(self)@.exit_gate_index,
            kinds(final(self)@.tiles) == kinds(old(self)@.tiles),
            forall|j: int|
                0 <= j < TOTAL_MAP_TILES ==> tile_after(
                    #[trigger] old(self)@.tiles[j],
                    final(self)@.tiles[j],
                    hits_floor(kinds(old(self)@.tiles), c as int, range as int, j),
                    hits_wall(kinds(old(self)@.tiles), c as int, range as int, j),
                ),
            final(visuals)@ == old(visuals)@ + center_visuals(
                kinds(old(self)@.tiles),
                c as int,
                range as int,
            ),
            entry_indices(final(exploding)@) == entry_indices(old(exploding)@) + center_found(
                old(self)@.tiles,
                c as int,
                range as int,
            ),
            final(exploding)@.len() >= old(exploding)@.len(),
            final(exploding)@.subrange(0, old(exploding)@.len() as int) == old(exploding)@,
            forall|k: int|
                old(exploding)@.len() <= k < final(exploding)@.len() ==> {
                    let (j, r) = #[trigger] final(exploding)@[k];
                    &&& j < TOTAL_MAP_TILES
                    &&& hits_floor(kinds(old(self)@.tiles), c as int, range as int, j as int)
                    &&& old(self)@.tiles[j as int].has_bomb()
                    &&& bomb_range(old(self)@.tiles[j as int]) == r
                },
            forall|k1: int, k2: int|
                old(exploding)@.len() <= k1 < final(exploding)@.len() && old(exploding)@.len() <= k2
                    < final(exploding)@.len() && k1 != k2 ==> (#[trigger] final(exploding)@[k1]).0
                    != (#[trigger] final(exploding)@[k2]).0,
            forall|j: int|
                0 <= j < TOTAL_MAP_TILES && hits_floor(
                    kinds(old(self)@.tiles),
                    c as int,
                    range as int,
                    j,
                ) && (#[trigger] old(self)@.tiles[j]).has_bomb() ==> exists|k: int|
                    old(exploding)@.len() <= k < final(exploding)@.len() && (
                    #[trigger] final(exploding)@[k]).0 == j,
    {
        proof {
            use_type_invariant(&*self);
        }
        let ghost ts0 = self@.tiles;
        let ghost ks = kinds(self@.tiles);
        let ghost e0 = exploding@;
        let ghost ci = c as int;
        let ghost ri = range as int;
        let center = ExplosionVisual::new(ExplosionVariant::Center, WorldMap::index_to_tile_pos(c));
        visuals.push(center);
        let ghost v1 = visuals@;
        assert(entry_indices(exploding@) =~= entry_indices(e0) + center_found_upto(ts0, ci, ri, 0));
        let mut d: usize = 0;
        while d < 4
            invariant
                old(self)@.well_formed(),
                self@.well_formed(),
                self@.exit_gate_index == old(self)@.exit_gate_index,
                ts0 == old(self)@.tiles,
                ks == kinds(ts0),
                kinds(self@.tiles) == ks,
                e0 == old(exploding)@,
                v1 == old(visuals)@.push(visual_at(ExplosionVariant::Center, ci)),
                ci == c,
                ri == range,
                c < TOTAL_MAP_TILES,
                safe_center(ci, ri),
                d <= 4,
                visuals@ == v1 + rays_visuals_upto(ks, ci, ri, d as int),
                entry_indices(exploding@) == entry_indices(e0) + center_found_upto(ts0, ci, ri, d as int),
                forall|j: int|
                    0 <= j < TOTAL_MAP_TILES ==> tile_after(
                        #[trigger] ts0[j],
                        self@.tiles[j],
                        hits_floor_upto(ks, ci, ri, d as int, j),
                        hits_wall_upto(ks, ci, ri, d as int, j),
                    ),
                exploding@.len() >= e0.len(),
                exploding@.subrange(0, e0.len() as int) == e0,
                forall|k: int|
                    e0.len() <= k < exploding@.len() ==> {
                        let (j, r) = #[trigger] exploding@[k];
                        &&& j < TOTAL_MAP_TILES
                        &&& hits_floor_upto(ks, ci, ri, d as int, j as int)
                        &&& ts0[j as int].has_bomb()
                        &&& bomb_range(ts0[j as int]) == r
                    },
                forall|k1: int, k2: int|
                    e0.len() <= k1 < exploding@.len() && e0.len() <= k2 < exploding@.len() && k1
                        != k2 ==> (#[trigger] exploding@[k1]).0 != (#[trigger] exploding@[k2]).0,
                forall|j: int|
                    0 <= j < TOTAL_MAP_TILES && hits_floor_upto(ks, ci, ri, d as int, j) && (
                    #[trigger] ts0[j]).has_bomb() ==> exists|k: int|
                        e0.len() <= k < exploding@.len() && (#[trigger] exploding@[k]).0 == j,
            decreases 4 - d,
        {
            let ghost s_before = self@.tiles;
            let ghost ex_before = exploding@;
            let ghost vis_before = visuals@;
            let ghost di = d as int;
            proof {
                let h = Set::new(|j: int| hits_floor_upto(kinds(ts0), ci, ri, di, j));
                lemma_masked_kinds(ts0, h);
                assert forall|j: int| 0 <= j < TOTAL_MAP_TILES && on_border(j) implies tile_kind(
                    #[trigger] s_before[j]) == TileKind::Solid by {
                    assert(s_before[j].base is IndestructibleWall);
                }
                assert forall|j: int| 0 <= j < TOTAL_MAP_TILES implies (#[trigger] s_before[j]).has_bomb()
                    == masked(ts0, h)[j].has_bomb() && tile_kind(s_before[j]) == tile_kind(masked(ts0, h)[j]) by {
                    assert(tile_after(ts0[j], s_before[j], hits_floor_upto(ks, ci, ri, di, j), hits_wall_upto(ks, ci, ri, di, j)));
                    assert(kinds(s_before)[j] == ks[j]);
                }
                lemma_ray_found_congruent(s_before, masked(ts0, h), ci, ri, di, 1);
            }
            self.explode_ray(c, range, d, exploding, visuals);
            proof {
                assert(entry_indices(exploding@) =~= entry_indices(e0) + center_found_upto(ts0, ci, ri, di + 1));
                assert(kinds(s_before) == ks);
                assert forall|j: int| 0 <= j < TOTAL_MAP_TILES implies tile_after(
                    #[trigger] ts0[j],
                    self@.tiles[j],
                    hits_floor_upto(ks, ci, ri, di + 1, j),
                    hits_wall_upto(ks, ci, ri, di + 1, j),
                ) by {
                    lemma_tile_after_compose(
                        ts0[j],
                        s_before[j],
                        self@.tiles[j],
                        hits_floor_upto(ks, ci, ri, di, j),
                        hits_wall_upto(ks, ci, ri, di, j),
                        hits_floor_dir(ks, ci, ri, di, j),
                        hits_wall_dir(ks, ci, ri, di, j),
                    );
                }
                assert(visuals@ =~= v1 + rays_visuals_upto(ks, ci, ri, di + 1));
                assert forall|k: int| e0.len() <= k < exploding@.len() implies {
                    let (j, r) = #[trigger] exploding@[k];
                    &&& j < TOTAL_MAP_TILES
                    &&& hits_floor_upto(ks, ci, ri, di + 1, j as int)
                    &&& ts0[j as int].has_bomb()
                    &&& bomb_range(ts0[j as int]) == r
                } by {
                    if k < ex_before.len() {
                        assert(exploding@[k] == ex_before[k]);
                    } else {
                        let j = exploding@[k].0 as int;
                        assert(s_before[j].has_bomb());
                        assert(tile_after(ts0[j], s_before[j], hits_floor_upto(ks, ci, ri, di, j), hits_wall_upto(ks, ci, ri, di, j)));
                    }
                }
                assert forall|k1: int, k2: int|
                    e0.len() <= k1 < exploding@.len() && e0.len() <= k2 < exploding@.len() && k1
                        != k2 implies (#[trigger] exploding@[k1]).0 != (#[trigger] exploding@[k2]).0 by {
                    if k1 < ex_before.len() && k2 < ex_before.len() {
                        assert(exploding@[k1] == ex_before[k1]);
                        assert(exploding@[k2] == ex_before[k2]);
                    } else if k1 < ex_before.len() {
                        assert(exploding@[k1] == ex_before[k1]);
                        let j = exploding@[k2].0 as int;
                        assert(s_before[j].has_bomb());
                        assert(tile_after(ts0[j], s_before[j], hits_floor_upto(ks, ci, ri, di, j), hits_wall_upto(ks, ci, ri, di, j)));
                    } else if k2 < ex_before.len() {
                        assert(exploding@[k2] == ex_before[k2]);
                        let j = exploding@[k1].0 as int;
                        assert(s_before[j].has_bomb());
                        assert(tile_after(ts0[j], s_before[j], hits_floor_upto(ks, ci, ri, di, j), hits_wall_upto(ks, ci, ri, di, j)));
                    }
                }
                assert forall|j: int|
                    0 <= j < TOTAL_MAP_TILES && hits_floor_upto(ks, ci, ri, di + 1, j) && (
                    #[trigger] ts0[j]).has_bomb() implies exists|k: int|
                        e0.len() <= k < exploding@.len() && (#[trigger] exploding@[k]).0 == j by {
                    if hits_floor_upto(ks, ci, ri, di, j) {
                        let k = choose|k: int| e0.len() <= k < ex_before.len() && (#[trigger] ex_before[k]).0 == j;
                        assert(exploding@[k] == ex_before[k]);
                    } else {
                        assert(tile_after(ts0[j], s_before[j], hits_floor_upto(ks, ci, ri, di, j), hits_wall_upto(ks, ci, ri, di, j)));
                        assert(s_before[j].has_bomb());
                    }
                }
                assert(exploding@.subrange(0, e0.len() as int) =~= e0) by {
                    assert(exploding@.subrange(0, ex_before.len() as int) == ex_before);
                    assert forall|k: int| 0 <= k < e0.len() implies exploding@[k] == e0[k] by {
                        assert(exploding@[k] == exploding@.subrange(0, ex_before.len() as int)[k]);
                        assert(ex_before[k] == ex_before.subrange(0, e0.len() as int)[k]);
                    }
                }
            }
            d = d + 1;
        }
        proof {
            reveal_with_fuel(rays_visuals_upto, 5);
            assert(rays_visuals_upto(ks, ci, ri, 0) =~= Seq::<ExplosionVisual>::empty());
            assert(rays_visuals_upto(ks, ci, ri, 4) =~= ray_visuals(ks, ci, ri, 0, 1) + ray_visuals(ks, ci, ri, 1, 1) + ray_visuals(ks, ci, ri, 2, 1) + ray_visuals(ks, ci, ri, 3, 1));
            assert(visuals@ =~= old(visuals)@ + center_visuals(ks, ci, ri));
            assert forall|j: int| hits_floor_upto(ks, ci, ri, 4, j) == hits_floor(ks, ci, ri, j) && hits_wall_upto(ks, ci, ri, 4, j) == hits_wall(ks, ci, ri, j) by {
                reveal_with_fuel(hits_floor_upto, 5);
                reveal_with_fuel(hits_wall_upto, 5);
            }
        }
    }

    /// Explodes every bomb whose fuse finished, and every bomb that the flames reach, round
    /// after round. Reached floor tiles get fresh flames and lose their power-up; a destructible
    /// wall that stops a ray starts crumbling. Returns the flames to draw, one group per exploded
    /// bomb (its center, then its left, right, down and up rays).
    pub fn explode_bombs(&mut self) -> (visuals: Vec<ExplosionVisual>)
        requires
            no_border_detonation(old(self)@.tiles),
        ensures
            final(self)@.well_formed(),
            final(self)@.exit_gate_index == old(self)@.exit_gate_index,
            specials_kept(old(self)@, final(self)@),
            forall|j: int|
                0 <= j < TOTAL_MAP_TILES ==> tile_after(
                    #[trigger] old(self)@.tiles[j],
                    final(self)@.tiles[j],
                    flamed(old(self)@.tiles, j),
                    broken(old(self)@.tiles, j),
                ),
            visuals@ == explosion_visuals(old(self)@.tiles),
            explosion_order(old(self)@.tiles).no_duplicates(),
            forall|c: int| #[trigger] explosion_order(old(self)@.tiles).contains(c) <==> exploded(old(self)@.tiles, c),
    {
        proof {
            use_type_invariant(&*self);
        }
        let ghost ts0 = self@.tiles;
        let ghost ks = kinds(self@.tiles);
        let mut exploding: Vec<(usize, u32)> = Vec::new();
        let mut i: usize = 0;
        while i < self.tiles.len()
            invariant
                self@ == old(self)@,
                ts0 == self@.tiles,
                old(self)@.well_formed(),
                no_border_detonation(ts0),
                i <= TOTAL_MAP_TILES,
                forall|k: int|
                    0 <= k < exploding@.len() ==> {
                        let (j, r) = #[trigger] exploding@[k];
                        &&& j < i
                        &&& finished_bomb(ts0[j as int])
                        &&& bomb_range(ts0[j as int]) == r
                    },
                forall|k1: int, k2: int|
                    0 <= k1 < k2 < exploding@.len() ==> (#[trigger] exploding@[k1]).0 < (
                    #[trigger] exploding@[k2]).0,
                forall|j: int| 0 <= j < i && #[trigger] finished_bomb(ts0[j]) ==> queued(exploding@, j),
                entry_indices(exploding@) == finished_upto(ts0, i as int),
            decreases self.tiles.len() - i,
        {
            let tile = &self.tiles[i];
            assert(tile@ == ts0[i as int]);
            let ghost ex_before = exploding@;
            if let Some(b) = tile.bomb_or_explosion() {
                if let Some(bomb) = b.bomb() {
                    if bomb.timer.is_finished() {
                        exploding.push((i, bomb.range));
                        assert(exploding@[exploding@.len() - 1].0 == i);
                        assert(entry_indices(exploding@) =~= entry_indices(ex_before).push(i as int));
                    }
                }
            }
            proof {
                assert(entry_indices(exploding@) == finished_upto(ts0, i + 1));
                assert forall|j: int| 0 <= j < i + 1 && #[trigger] finished_bomb(ts0[j]) implies queued(exploding@, j) by {
                    if j < i {
                        let k = choose|k: int| 0 <= k < ex_before.len() && (#[trigger] ex_before[k]).0 == j;
                        assert(exploding@[k] == ex_before[k]);
                    }
                }
            }
            i = i + 1;
        }
        proof {
            assert(first_round(ts0) == entry_indices(exploding@));
        }
        if exploding.len() == 0 {
            proof {
                self.lemma_explosion_end(ts0, Seq::empty(), Map::empty(), Seq::empty());
                assert(first_round(ts0) =~= Seq::<int>::empty());
                lemma_chain_stable(ts0, 0, TOTAL_MAP_TILES as nat);
                assert(explosion_order(ts0) =~= Seq::<int>::empty());
                assert(explosion_order(ts0).map_values(|c: int| center_visuals(ks, c, bomb_range(ts0[c]))) =~= Seq::<Seq<ExplosionVisual>>::empty());
                assert(explosion_visuals(ts0) =~= Seq::<ExplosionVisual>::empty());
            }
            let none: Vec<ExplosionVisual> = Vec::new();
            assert(none@ =~= explosion_visuals(ts0));
            return none;
        }
        let mut centers: Vec<(usize, u32)> = Vec::new();
        let mut new_visuals: Vec<ExplosionVisual> = Vec::new();
        let ghost mut order: Seq<int> = Seq::empty();
        let ghost mut rank: Map<int, nat> = Map::new(|j: int| queued(exploding@, j), |j: int| 0nat);
        proof {
            assert forall|k: int| 0 <= k < exploding@.len() implies #[trigger] rank.dom().contains(exploding@[k].0 as int) by {
                assert(queued(exploding@, exploding@[k].0 as int));
            }
            assert(order.map_values(|c: int| center_visuals(ks, c, bomb_range(ts0[c]))) =~= Seq::<Seq<ExplosionVisual>>::empty());
            assert(new_visuals@ =~= Seq::<ExplosionVisual>::empty());
            assert(order + entry_indices(exploding@) =~= first_round(ts0));
            assert forall|k: int| 0 <= k < exploding@.len() implies first_round(ts0).contains(
                (#[trigger] exploding@[k]).0 as int) || flamed_by(ts0, order, exploding@[k].0 as int) by {
                assert(entry_indices(exploding@)[k] == exploding@[k].0 as int);
            }
        }
        while exploding.len() > 0
            invariant
                chain_steps(ts0, order.len() as nat) == (order, order + entry_indices(exploding@)),
                forall|k: int|
                    0 <= k < exploding@.len() ==> first_round(ts0).contains((#[trigger] exploding@[k]).0 as int)
                        || flamed_by(ts0, order, exploding@[k].0 as int),
                old(self)@.well_formed(),
                self@.well_formed(),
                self@.exit_gate_index == old(self)@.exit_gate_index,
                ts0 == old(self)@.tiles,
                ks == kinds(ts0),
                kinds(self@.tiles) == ks,
                no_border_detonation(ts0),
                centers@.len() == 0,
                forall|j: int|
                    0 <= j < TOTAL_MAP_TILES ==> tile_after(
                        #[trigger] ts0[j],
                        self@.tiles[j],
                        flamed_by(ts0, order, j),
                        walled_by(ts0, order, j),
                    ),
                forall|k: int|
                    0 <= k < exploding@.len() ==> {
                        let (j, r) = #[trigger] exploding@[k];
                        &&& j < TOTAL_MAP_TILES
                        &&& ts0[j as int].has_bomb()
                        &&& bomb_range(ts0[j as int]) == r
                        &&& safe_center(j as int, r as int)
                        &&& !order.contains(j as int)
                        &&& rank.dom().contains(j as int)
                    },
                forall|k1: int, k2: int|
                    0 <= k1 < exploding@.len() && 0 <= k2 < exploding@.len() && k1 != k2 ==> (
                    #[trigger] exploding@[k1]).0 != (#[trigger] exploding@[k2]).0,
                order.no_duplicates(),
                forall|c: int|
                    #[trigger] order.contains(c) ==> 0 <= c < TOTAL_MAP_TILES && rank.dom().contains(c),
                rank_valid(ts0, rank),
                forall|c: int, j: int|
                    #![trigger order.contains(c), hits_floor(ks, c, bomb_range(ts0[c]), j)]
                    order.contains(c) && 0 <= j < TOTAL_MAP_TILES && hits_floor(ks, c, bomb_range(ts0[c]), j)
                        && ts0[j].has_bomb() ==> order.contains(j) || queued(exploding@, j),
                forall|j: int|
                    0 <= j < TOTAL_MAP_TILES && #[trigger] finished_bomb(ts0[j]) ==> order.contains(j)
                        || queued(exploding@, j),
                new_visuals@ == order.map_values(|c: int| center_visuals(ks, c, bomb_range(ts0[c]))).flatten(),
            decreases TOTAL_MAP_TILES - order.len(),
        {
            proof {
                lemma_order_len(order);
            }
            let ghost order_at_start = order;
            assert(order + entry_indices(exploding@) + popped_indices(centers@) =~= order + entry_indices(exploding@));
            // Move every queued bomb to the centers, setting flames on its tile.
            while exploding.len() > 0
                invariant
                    chain_steps(ts0, order.len() as nat) == (
                        order,
                        order + entry_indices(exploding@) + popped_indices(centers@),
                    ),
                    forall|k: int|
                        0 <= k < exploding@.len() ==> first_round(ts0).contains((#[trigger] exploding@[k]).0 as int)
                            || flamed_by(ts0, order, exploding@[k].0 as int),
                    forall|k: int|
                        0 <= k < centers@.len() ==> first_round(ts0).contains((#[trigger] centers@[k]).0 as int)
                            || flamed_by(ts0, order, centers@[k].0 as int),
                    old(self)@.well_formed(),
                    self@.well_formed(),
                    self@.exit_gate_index == old(self)@.exit_gate_index,
                    ts0 == old(self)@.tiles,
                    ks == kinds(ts0),
                    kinds(self@.tiles) == ks,
                    order == order_at_start,
                    order.len() <= TOTAL_MAP_TILES,
                    forall|j: int|
                        0 <= j < TOTAL_MAP_TILES ==> tile_after(
                            #[trigger] ts0[j],
                            self@.tiles[j],
                            flamed_by(ts0, order, j) || queued(centers@, j),
                            walled_by(ts0, order, j),
                        ),
                    forall|k: int|
                        0 <= k < exploding@.len() ==> {
                            let (j, r) = #[trigger] exploding@[k];
                            &&& j < TOTAL_MAP_TILES
                            &&& ts0[j as int].has_bomb()
                            &&& bomb_range(ts0[j as int]) == r
                            &&& safe_center(j as int, r as int)
                            &&& !order.contains(j as int)
                            &&& rank.dom().contains(j as int)
                            &&& !queued(centers@, j as int)
                        },
                    forall|k: int|
                        0 <= k < centers@.len() ==> {
                            let (j, r) = #[trigger] centers@[k];
                            &&& j < TOTAL_MAP_TILES
                            &&& ts0[j as int].has_bomb()
                            &&& bomb_range(ts0[j as int]) == r
                            &&& safe_center(j as int, r as int)
                            &&& !order.contains(j as int)
                            &&& rank.dom().contains(j as int)
                        },
                    forall|k1: int, k2: int|
                        0 <= k1 < exploding@.len() && 0 <= k2 < exploding@.len() && k1 != k2 ==> (
                        #[trigger] exploding@[k1]).0 != (#[trigger] exploding@[k2]).0,
                    forall|k1: int, k2: int|
                        0 <= k1 < centers@.len() && 0 <= k2 < centers@.len() && k1 != k2 ==> (
                        #[trigger] centers@[k1]).0 != (#[trigger] centers@[k2]).0,
                    centers@.len() > 0 || exploding@.len() > 0,
                    order.no_duplicates(),
                    forall|c: int|
                        #[trigger] order.contains(c) ==> 0 <= c < TOTAL_MAP_TILES && rank.dom().contains(c),
                    rank_valid(ts0, rank),
                    forall|c: int, j: int|
                        #![trigger order.contains(c), hits_floor(ks, c, bomb_range(ts0[c]), j)]
                        order.contains(c) && 0 <= j < TOTAL_MAP_TILES && hits_floor(ks, c, bomb_range(ts0[c]), j)
                            && ts0[j].has_bomb() ==> order.contains(j) || queued(exploding@, j) || queued(centers@, j),
                    forall|j: int|
                        0 <= j < TOTAL_MAP_TILES && #[trigger] finished_bomb(ts0[j]) ==> order.contains(j)
                            || queued(exploding@, j) || queued(centers@, j),
                    new_visuals@ == order.map_values(|c: int| center_visuals(ks, c, bomb_range(ts0[c]))).flatten(),
                decreases exploding.len(),
            {
                let ghost ex_before = exploding@;
                let ghost ce_before = centers@;
                let (i, range) = match exploding.pop() {
                    Some(entry) => entry,
                    None => (0, 0),
                };
                assert(ex_before[ex_before.len() - 1] == (i, range));
                centers.push((i, range));
                let mut t = self.tiles[i];
                assert(t@ == self@.tiles[i as int]);
                let ghost t_before = t@;
                t.set_explosion(ExplosionTile(Timer::new(BOMB_EXPLOSION_DURATION_NANOS, TimerMode::Once)));
                t.remove_bonus();
                let ghost prev_map = self@;
                self.replace_tile(i, t);
                proof {
                    assert(exploding@ =~= ex_before.drop_last());
                    lemma_move_keeps_pending(ex_before, ce_before, exploding@, centers@);
                    assert(order + entry_indices(exploding@) + popped_indices(centers@) =~= order + (
                    entry_indices(exploding@) + popped_indices(centers@)));
                    assert(order + entry_indices(ex_before) + popped_indices(ce_before) =~= order + (
                    entry_indices(ex_before) + popped_indices(ce_before)));
                    assert forall|k: int| 0 <= k < centers@.len() implies first_round(ts0).contains(
                        (#[trigger] centers@[k]).0 as int) || flamed_by(ts0, order, centers@[k].0 as int) by {
                        if k < ce_before.len() {
                            assert(centers@[k] == ce_before[k]);
                        } else {
                            assert(centers@[k] == ex_before[ex_before.len() - 1]);
                        }
                    }
                    assert forall|k: int| 0 <= k < exploding@.len() implies first_round(ts0).contains(
                        (#[trigger] exploding@[k]).0 as int) || flamed_by(ts0, order, exploding@[k].0 as int) by {
                        assert(exploding@[k] == ex_before[k]);
                    }
                    lemma_queue_pop(ex_before, exploding@);
                    assert(centers@.drop_last() =~= ce_before);
                    lemma_queue_push(ce_before, centers@);
                    assert forall|j: int|
                        0 <= j < TOTAL_MAP_TILES implies tile_after(
                            #[trigger] ts0[j],
                            self@.tiles[j],
                            flamed_by(ts0, order, j) || queued(centers@, j),
                            walled_by(ts0, order, j),
                        ) by {
                        if j == i {
                            lemma_tile_after_compose(ts0[j], t_before, self@.tiles[j], flamed_by(ts0, order, j) || queued(ce_before, j), walled_by(ts0, order, j), true, false);
                        } else {
                            assert(self@.tiles[j] == prev_map.tiles[j]);
                        }
                    }
                    assert forall|k: int| 0 <= k < exploding@.len() implies #[trigger] exploding@[k] == ex_before[k] by {}
                    assert forall|k: int| 0 <= k < exploding@.len() implies !queued(centers@, (#[trigger] exploding@[k]).0 as int) by {
                        assert(exploding@[k] == ex_before[k]);
                        assert(ex_before[k].0 != ex_before[ex_before.len() - 1].0);
                    }
                    assert forall|k1: int, k2: int|
                        0 <= k1 < centers@.len() && 0 <= k2 < centers@.len() && k1 != k2 implies (
                        #[trigger] centers@[k1]).0 != (#[trigger] centers@[k2]).0 by {
                        if k1 < ce_before.len() && k2 < ce_before.len() {
                            assert(centers@[k1] == ce_before[k1]);
                            assert(centers@[k2] == ce_before[k2]);
                        } else if k1 < ce_before.len() {
                            assert(centers@[k1] == ce_before[k1]);
                            assert(queued(ce_before, centers@[k1].0 as int));
                        } else if k2 < ce_before.len() {
                            assert(centers@[k2] == ce_before[k2]);
                            assert(queued(ce_before, centers@[k2].0 as int));
                        }
                    }
                    assert forall|k: int| 0 <= k < centers@.len() implies {
                        let (j, r) = #[trigger] centers@[k];
                        &&& j < TOTAL_MAP_TILES
                        &&& ts0[j as int].has_bomb()
                        &&& bomb_range(ts0[j as int]) == r
                        &&& safe_center(j as int, r as int)
                        &&& !order.contains(j as int)
                        &&& rank.dom().contains(j as int)
                    } by {
                        if k < ce_before.len() {
                            assert(centers@[k] == ce_before[k]);
                        }
                    }
                    assert forall|j: int| 0 <= j < TOTAL_MAP_TILES && on_border(j) implies (#[trigger] self@.tiles[j]).base is IndestructibleWall by {
                        if j == i {
                            assert(prev_map.tiles[j].base is IndestructibleWall);
                        }
                    }
                    assert(kinds(self@.tiles) =~= ks) by {
                        assert forall|j: int| 0 <= j < ks.len() implies kinds(self@.tiles)[j] == ks[j] by {
                            if j != i {
                                assert(self@.tiles[j] == prev_map.tiles[j]);
                            }
                        }
                    }
                }
            }
            assert(order + popped_indices(centers@) + entry_indices(exploding@) =~= order + entry_indices(exploding@)
                + popped_indices(centers@));
            // Trace the explosion of every center; the bombs their flames reach are queued.
            while centers.len() > 0
                invariant
                    chain_steps(ts0, order.len() as nat) == (
                        order,
                        order + popped_indices(centers@) + entry_indices(exploding@),
                    ),
                    forall|k: int|
                        0 <= k < centers@.len() ==> first_round(ts0).contains((#[trigger] centers@[k]).0 as int)
                            || flamed_by(ts0, order, centers@[k].0 as int),
                    old(self)@.well_formed(),
                    self@.well_formed(),
                    self@.exit_gate_index == old(self)@.exit_gate_index,
                    ts0 == old(self)@.tiles,
                    ks == kinds(ts0),
                    kinds(self@.tiles) == ks,
                    order.len() >= order_at_start.len(),
                    order.len() > order_at_start.len() || centers@.len() > 0,
                    forall|j: int|
                        0 <= j < TOTAL_MAP_TILES ==> tile_after(
                            #[trigger] ts0[j],
                            self@.tiles[j],
                            flamed_by(ts0, order, j) || queued(centers@, j),
                            walled_by(ts0, order, j),
                        ),
                    forall|k: int|
                        0 <= k < exploding@.len() ==> {
                            let (j, r) = #[trigger] exploding@[k];
                            &&& j < TOTAL_MAP_TILES
                            &&& ts0[j as int].has_bomb()
                            &&& bomb_range(ts0[j as int]) == r
                            &&& safe_center(j as int, r as int)
                            &&& !order.contains(j as int)
                            &&& rank.dom().contains(j as int)
                            &&& !queued(centers@, j as int)
                            &&& flamed_by(ts0, order, j as int)
                        },
                    forall|k: int|
                        0 <= k < centers@.len() ==> {
                            let (j, r) = #[trigger] centers@[k];
                            &&& j < TOTAL_MAP_TILES
                            &&& ts0[j as int].has_bomb()
                            &&& bomb_range(ts0[j as int]) == r
                            &&& safe_center(j as int, r as int)
                            &&& !order.contains(j as int)
                            &&& rank.dom().contains(j as int)
                        },
                    forall|k1: int, k2: int|
                        0 <= k1 < exploding@.len() && 0 <= k2 < exploding@.len() && k1 != k2 ==> (
                        #[trigger] exploding@[k1]).0 != (#[trigger] exploding@[k2]).0,
                    forall|k1: int, k2: int|
                        0 <= k1 < centers@.len() && 0 <= k2 < centers@.len() && k1 != k2 ==> (
                        #[trigger] centers@[k1]).0 != (#[trigger] centers@[k2]).0,
                    order.no_duplicates(),
                    forall|c: int|
                        #[trigger] order.contains(c) ==> 0 <= c < TOTAL_MAP_TILES && rank.dom().contains(c),
                    rank_valid(ts0, rank),
                    forall|c: int, j: int|
                        #![trigger order.contains(c), hits_floor(ks, c, bomb_range(ts0[c]), j)]
                        order.contains(c) && 0 <= j < TOTAL_MAP_TILES && hits_floor(ks, c, bomb_range(ts0[c]), j)
                            && ts0[j].has_bomb() ==> order.contains(j) || queued(exploding@, j) || queued(centers@, j),
                    forall|j: int|
                        0 <= j < TOTAL_MAP_TILES && #[trigger] finished_bomb(ts0[j]) ==> order.contains(j)
                            || queued(exploding@, j) || queued(centers@, j),
                    new_visuals@ == order.map_values(|c: int| center_visuals(ks, c, bomb_range(ts0[c]))).flatten(),
                decreases centers.len(),
            {
                let ghost ce_before = centers@;
                let ghost ex_before = exploding@;
                let ghost s_before = self@.tiles;
                let ghost order_before = order;
                let ghost vis_before = new_visuals@;
                let (index, range) = match centers.pop() {
                    Some(entry) => entry,
                    None => (0, 0),
                };
                assert(ce_before[ce_before.len() - 1] == (index, range));
                proof {
                    assert forall|j: int| 0 <= j < TOTAL_MAP_TILES implies (#[trigger] s_before[j]).has_bomb() == (
                        ts0[j].has_bomb() && !(flamed_by(ts0, order_before, j) || queued(ce_before, j)))
                        && tile_kind(s_before[j]) == tile_kind(ts0[j]) by {
                        assert(tile_after(ts0[j], s_before[j], flamed_by(ts0, order, j) || queued(ce_before, j), walled_by(ts0, order, j)));
                    }
                    assert forall|j: int| 0 <= j < TOTAL_MAP_TILES && on_border(j) implies tile_kind(#[trigger] s_before[j])
                        == TileKind::Solid by {
                        assert(s_before[j].base is IndestructibleWall);
                    }
                    assert(ce_before.last() == ce_before[ce_before.len() - 1]);
                }
                self.explode_center(index, range, &mut exploding, &mut new_visuals);
                proof {
                    let c = index as int;
                    let r = range as int;
                    assert forall|k: int| 0 <= k < ex_before.len() implies flamed_by(ts0, order_before, (
                    #[trigger] ex_before[k]).0 as int) by {}
                    lemma_process_keeps_queue(ts0, s_before, order_before, c, r, ce_before, centers@, ex_before, exploding@);
                    assert forall|k: int| 0 <= k < centers@.len() implies first_round(ts0).contains(
                        (#[trigger] centers@[k]).0 as int) || flamed_by(ts0, order_before.push(c), centers@[k].0 as int) by {
                        assert(centers@[k] == ce_before[k]);
                        assert(order_before.push(c).drop_last() =~= order_before);
                    }
                    lemma_queue_pop(ce_before, centers@);
                    order = order.push(c);
                    let new_rank = rank[c] + 1;
                    let old_rank = rank;
                    rank = Map::new(
                        |j: int| old_rank.dom().contains(j) || queued(exploding@, j),
                        |j: int| if old_rank.dom().contains(j) { old_rank[j] } else { new_rank },
                    );
                    lemma_center_step(ts0, s_before, self@.tiles, order_before, c, r, ce_before, centers@, ex_before, exploding@, old_rank, rank, vis_before, new_visuals@);
                }
            }
            proof {
                lemma_order_len(order);
                assert(order + popped_indices(centers@) + entry_indices(exploding@) =~= order + entry_indices(exploding@));
            }
        }
        proof {
            self.lemma_explosion_end(ts0, order, rank, new_visuals@);
            lemma_order_len(order);
            assert(order + entry_indices(exploding@) =~= order);
            lemma_chain_stable(ts0, order.len() as nat, TOTAL_MAP_TILES as nat);
            assert(explosion_order(ts0) == order);
        }
        new_visuals
    }

    /// When no bomb is queued any more, the exploded bombs are exactly the chain of explosions.
    proof fn lemma_explosion_end(
        &self,
        ts0: Seq<MapTileView>,
        order: Seq<int>,
        rank: Map<int, nat>,
        visuals: Seq<ExplosionVisual>,
    )
        requires
            ts0.len() == TOTAL_MAP_TILES,
            order.no_duplicates(),
            rank_valid(ts0, rank),
            forall|c: int|
                #[trigger] order.contains(c) ==> 0 <= c < TOTAL_MAP_TILES && rank.dom().contains(c),
            forall|c: int, j: int|
                #![trigger order.contains(c), hits_floor(kinds(ts0), c, bomb_range(ts0[c]), j)]
                order.contains(c) && 0 <= j < TOTAL_MAP_TILES && hits_floor(kinds(ts0), c, bomb_range(ts0[c]), j)
                    && ts0[j].has_bomb() ==> order.contains(j),
            forall|j: int|
                0 <= j < TOTAL_MAP_TILES && #[trigger] finished_bomb(ts0[j]) ==> order.contains(j),
            forall|j: int|
                0 <= j < TOTAL_MAP_TILES ==> tile_after(
                    #[trigger] ts0[j],
                    self@.tiles[j],
                    flamed_by(ts0, order, j),
                    walled_by(ts0, order, j),
                ),
            visuals == order.map_values(|c: int| center_visuals(kinds(ts0), c, bomb_range(ts0[c]))).flatten(),
        ensures
            forall|j: int|
                0 <= j < TOTAL_MAP_TILES ==> tile_after(
                    #[trigger] ts0[j],
                    self@.tiles[j],
                    flamed(ts0, j),
                    broken(ts0, j),
                ),
            forall|c: int| #[trigger] order.contains(c) <==> exploded(ts0, c),
    {
        assert forall|c: int| #[trigger] order.contains(c) <==> exploded(ts0, c) by {
            if order.contains(c) {
                assert(chain_round(ts0, rank[c]).contains(c));
            }
            if exploded(ts0, c) {
                let k = choose|k: nat| #[trigger] chain_round(ts0, k).contains(c);
                lemma_chain_complete(ts0, order, k);
            }
        }
        assert forall|j: int| 0 <= j < TOTAL_MAP_TILES implies tile_after(
            #[trigger] ts0[j],
            self@.tiles[j],
            flamed(ts0, j),
            broken(ts0, j),
        ) by {
            lemma_flamed_by(ts0, order, j);
            if flamed_by(ts0, order, j) {
                let c = choose|c: int| #[trigger] order.contains(c) && (c == j || hits_floor(kinds(ts0), c, bomb_range(ts0[c]), j));
                assert(exploded(ts0, c));
            }
            if flamed(ts0, j) {
                let c = choose|c: int| #[trigger] exploded(ts0, c) && (c == j || hits_floor(kinds(ts0), c, bomb_range(ts0[c]), j));
                assert(order.contains(c));
            }
            if walled_by(ts0, order, j) {
                let c = choose|c: int| #[trigger] order.contains(c) && hits_wall(kinds(ts0), c, bomb_range(ts0[c]), j);
                assert(exploded(ts0, c));
            }
            if broken(ts0, j) {
                let c = choose|c: int| #[trigger] exploded(ts0, c) && hits_wall(kinds(ts0), c, bomb_range(ts0[c]), j);
                assert(order.contains(c));
            }
        }
    }
}
} // verus!
