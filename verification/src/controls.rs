use vstd::prelude::*;

pub use crate::world_entities::Direction;

verus! {

/// The movement keys held down, oldest first, and whether a bomb was requested this frame.
#[derive(Debug, Clone, PartialEq, Eq, Hash)]
pub struct Controls {
    movement_directions: Vec<Direction>,
    pub place_bomb: bool,
}

/// Every direction but `direction`.
pub open spec fn other_than(direction: Direction) -> spec_fn(Direction) -> bool {
    |d: Direction| d != direction
}

/// The directions held after `direction` was pressed (`true`) or released (`false`): a newly
/// pressed direction goes to the end, a released one disappears, everything else keeps its
/// place.
pub open spec fn directions_after(held: Seq<Direction>, direction: Direction, is_pressed: bool) -> Seq<
    Direction,
> {
    if is_pressed {
        if held.contains(direction) {
            held
        } else {
            held.push(direction)
        }
    } else {
        held.filter(other_than(direction))
    }
}

proof fn lemma_filter_no_duplicates(s: Seq<Direction>, direction: Direction)
    requires
        s.no_duplicates(),
    ensures
        s.filter(other_than(direction)).no_duplicates(),
    decreases s.len(),
{
    reveal_with_fuel(Seq::filter, 1);
    if s.len() > 0 {
        let rest = s.drop_last();
        assert(rest.no_duplicates());
        lemma_filter_no_duplicates(rest, direction);
        let fr = rest.filter(other_than(direction));
        if s.last() != direction {
            assert forall|a: int, b: int| 0 <= a < b < fr.len() + 1 implies fr.push(s.last())[a] != fr.push(
                s.last(),
            )[b] by {
                if b == fr.len() {
                    assert(fr.contains(fr[a]));
                    rest.lemma_filter_contains_rev(other_than(direction), fr[a]);
                    let k = choose|k: int| 0 <= k < rest.len() && rest[k] == fr[a];
                    assert(s[k] == rest[k]);
                }
            }
        }
    }
}

/// The movement keys held down, oldest first, and whether a bomb was requested.
pub struct ControlsView {
    pub held: Seq<Direction>,
    pub place_bomb: bool,
}

impl View for Controls {
    type V = ControlsView;

    closed spec fn view(&self) -> ControlsView {
        ControlsView { held: self.movement_directions@, place_bomb: self.place_bomb }
    }
}

impl Controls {
    /// No direction is held twice.
    pub open spec fn well_formed(&self) -> bool {
        self@.held.no_duplicates()
    }

    /// Nothing held and no bomb requested.
    pub fn default() -> (c: Controls)
        ensures
            c@.held == Seq::<Direction>::empty(),
            !c@.place_bomb,
            c.well_formed(),
    {
        Controls { movement_directions: Vec::with_capacity(4), place_bomb: false }
    }

    /// Records that the key of `direction` is held down (`is_pressed`) or not.
    pub fn update_direction(&mut self, direction: Direction, is_pressed: bool)
        ensures
            final(self)@.held == directions_after(old(self)@.held, direction, is_pressed),
            final(self)@.place_bomb == old(self)@.place_bomb,
            old(self).well_formed() ==> final(self).well_formed(),
    {
        if is_pressed {
            let mut found = false;
            let mut i: usize = 0;
            while i < self.movement_directions.len()
                invariant
                    self.movement_directions@ == old(self).movement_directions@,
                    i <= self.movement_directions@.len(),
                    found <==> self.movement_directions@.subrange(0, i as int).contains(direction),
                decreases self.movement_directions.len() - i,
            {
                proof {
                    let s = self.movement_directions@;
                    let pre = s.subrange(0, i as int);
                    let next = s.subrange(0, i + 1);
                    assert(next =~= pre.push(s[i as int]));
                    assert forall|x: Direction| next.contains(x) <==> pre.contains(x) || s[i as int] == x by {
                        if next.contains(x) {
                            let k = choose|k: int| 0 <= k < next.len() && next[k] == x;
                            if k < i {
                                assert(pre[k] == x);
                            }
                        }
                        if pre.contains(x) {
                            let k = choose|k: int| 0 <= k < pre.len() && pre[k] == x;
                            assert(next[k] == x);
                        }
                        if s[i as int] == x {
                            assert(next[i as int] == x);
                        }
                    }
                }
                if self.movement_directions[i] == direction {
                    found = true;
                }
                i = i + 1;
            }
            proof {
                assert(self.movement_directions@.subrange(0, i as int) =~= self.movement_directions@);
            }
            if !found {
                self.movement_directions.push(direction);
                proof {
                    let s = old(self).movement_directions@;
                    if s.no_duplicates() {
                        assert forall|a: int, b: int|
                            0 <= a < b < s.len() + 1 implies self.movement_directions@[a]
                            != self.movement_directions@[b] by {
                            if b == s.len() {
                                assert(s.contains(s[a]));
                            }
                        }
                    }
                }
            }
        } else {
            let ghost old_held = self.movement_directions@;
            let mut kept: Vec<Direction> = Vec::new();
            let mut i: usize = 0;
            while i < self.movement_directions.len()
                invariant
                    self.movement_directions@ == old_held,
                    old_held == old(self).movement_directions@,
                    i <= old_held.len(),
                    kept@ == old_held.subrange(0, i as int).filter(other_than(direction)),
                decreases self.movement_directions.len() - i,
            {
                let d = self.movement_directions[i];
                proof {
                    let s = old_held;
                    assert(s.subrange(0, i + 1).drop_last() =~= s.subrange(0, i as int));
                    assert(s.subrange(0, i + 1).last() == d);
                    reveal_with_fuel(Seq::filter, 1);
                }
                if d != direction {
                    kept.push(d);
                }
                i = i + 1;
            }
            proof {
                assert(old_held.subrange(0, i as int) =~= old_held);
                if old_held.no_duplicates() {
                    lemma_filter_no_duplicates(old_held, direction);
                }
            }
            self.movement_directions = kept;
        }
    }

    /// The direction to move in: the most recently pressed direction still held.
    pub fn into_movement(&self) -> (r: Option<Direction>)
        ensures
            r == (if self@.held.len() == 0 {
                None
            } else {
                Some(self@.held.last())
            }),
    {
        if self.movement_directions.len() == 0 {
            None
        } else {
            Some(self.movement_directions[self.movement_directions.len() - 1])
        }
    }
}

/// The direction pressed last, among those held, is the one the character moves in.
pub proof fn lemma_newest_key_wins(held: Seq<Direction>, direction: Direction)
    requires
        !held.contains(direction),
    ensures
        directions_after(held, direction, true).last() == direction,
{
}

/// A released direction is no longer held, and releasing it keeps the order of the others.
pub proof fn lemma_release_forgets(held: Seq<Direction>, direction: Direction)
    ensures
        !directions_after(held, direction, false).contains(direction),
        forall|d: Direction|
            d != direction ==> (held.contains(d) <==> #[trigger] directions_after(held, direction, false).contains(d)),
{
    let f = directions_after(held, direction, false);
    if f.contains(direction) {
        held.lemma_filter_contains_rev(other_than(direction), direction);
    }
    assert forall|d: Direction| d != direction implies (held.contains(d) <==> #[trigger] f.contains(d)) by {
        if held.contains(d) {
            let k = choose|k: int| 0 <= k < held.len() && held[k] == d;
            held.lemma_filter_contains(other_than(direction), k);
        }
        if f.contains(d) {
            held.lemma_filter_contains_rev(other_than(direction), d);
        }
    }
}

/// Pressing a direction that was not held and then releasing it gives back the directions
/// held before.
pub proof fn lemma_release_undoes_press(held: Seq<Direction>, direction: Direction)
    requires
        !held.contains(direction),
    ensures
        directions_after(directions_after(held, direction, true), direction, false) == held,
{
    held.lemma_filter_push(direction, other_than(direction));
    lemma_filter_keeps_all(held, direction);
}

/// Filtering out a direction that does not occur keeps the sequence.
proof fn lemma_filter_keeps_all(s: Seq<Direction>, direction: Direction)
    requires
        !s.contains(direction),
    ensures
        s.filter(other_than(direction)) == s,
    decreases s.len(),
{
    if s.len() == 0 {
        assert(s.filter(other_than(direction)) =~= s);
    } else {
        let rest = s.drop_last();
        assert(s == rest.push(s.last()));
        assert(!rest.contains(direction)) by {
            if rest.contains(direction) {
                let k = choose|k: int| 0 <= k < rest.len() && rest[k] == direction;
                assert(s[k] == direction);
            }
        }
        lemma_filter_keeps_all(rest, direction);
        rest.lemma_filter_push(s.last(), other_than(direction));
        assert(s[s.len() - 1] != direction);
    }
}

} // verus!
