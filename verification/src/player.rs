//! The player: a position, one provisional pending move, and an ordered,
//! duplicate-permitting inventory.
//!
//! Movement follows a two-phase protocol: a directional command records a
//! pending target, and a later resolution either commits it (the player
//! moves) or cancels it (the player stays). Removing an item deletes only
//! the first matching instance, so two keys can coexist.

use vstd::prelude::*;

use crate::types::ItemType;
use crate::types::Position;

verus! {

pub struct Player {
    pub pos: Position,
    pub pending_move: Option<Position>,
    pub inventory: Vec<ItemType>,
}

impl Player {
    pub fn new() -> (r: Player)
        ensures
            r.pos == (Position { row: 0i16, col: 0i16 }),
            r.pending_move is None,
            r.inventory@ == Seq::<ItemType>::empty(),
    {
        Player { pos: Position { row: 0, col: 0 }, pending_move: None, inventory: Vec::new() }
    }

    /// Relocate the player and discard any pending move.
    pub fn reset_position(&mut self, pos: Position)
        ensures
            final(self).pos == pos,
            final(self).pending_move is None,
            final(self).inventory == old(self).inventory,
    {
        self.pos = pos;
        self.pending_move = None;
    }

    pub fn move_up(&mut self)
        requires
            old(self).pos.row > i16::MIN,
        ensures
            final(self).pending_move == Some(
                Position { row: (old(self).pos.row - 1) as i16, col: old(self).pos.col },
            ),
            final(self).pos == old(self).pos,
            final(self).inventory == old(self).inventory,
    {
        self.pending_move = Some(Position { row: self.pos.row - 1, col: self.pos.col });
    }

    pub fn move_down(&mut self)
        requires
            old(self).pos.row < i16::MAX,
        ensures
            final(self).pending_move == Some(
                Position { row: (old(self).pos.row + 1) as i16, col: old(self).pos.col },
            ),
            final(self).pos == old(self).pos,
            final(self).inventory == old(self).inventory,
    {
        self.pending_move = Some(Position { row: self.pos.row + 1, col: self.pos.col });
    }

    pub fn move_left(&mut self)
        requires
            old(self).pos.col > i16::MIN,
        ensures
            final(self).pending_move == Some(
                Position { row: old(self).pos.row, col: (old(self).pos.col - 1) as i16 },
            ),
            final(self).pos == old(self).pos,
            final(self).inventory == old(self).inventory,
    {
        self.pending_move = Some(Position { row: self.pos.row, col: self.pos.col - 1 });
    }

    pub fn move_right(&mut self)
        requires
            old(self).pos.col < i16::MAX,
        ensures
            final(self).pending_move == Some(
                Position { row: old(self).pos.row, col: (old(self).pos.col + 1) as i16 },
            ),
            final(self).pos == old(self).pos,
            final(self).inventory == old(self).inventory,
    {
        self.pending_move = Some(Position { row: self.pos.row, col: self.pos.col + 1 });
    }

    pub fn get_pending_move(&self) -> (r: Option<Position>)
        ensures
            r == self.pending_move,
    {
        self.pending_move
    }

    /// Apply the pending move, if any, and clear it.
    pub fn commit_move(&mut self)
        ensures
            final(self).pending_move is None,
            final(self).pos == (match old(self).pending_move {
                Some(p) => p,
                None => old(self).pos,
            }),
            final(self).inventory == old(self).inventory,
    {
        if let Some(new_pos) = self.pending_move {
            self.pos = new_pos;
        }
        self.pending_move = None;
    }

    /// Discard the pending move; the player stays where it was.
    pub fn cancel_move(&mut self)
        ensures
            final(self).pending_move is None,
            final(self).pos == old(self).pos,
            final(self).inventory == old(self).inventory,
    {
        self.pending_move = None;
    }

    pub fn add_item(&mut self, item: ItemType)
        ensures
            final(self).inventory@ == old(self).inventory@.push(item),
            final(self).pos == old(self).pos,
            final(self).pending_move == old(self).pending_move,
    {
        self.inventory.push(item);
    }

    pub fn has_item(&self, item: ItemType) -> (r: bool)
        ensures
            r == self.inventory@.contains(item),
    {
        let n = self.inventory.len();
        let mut i: usize = 0;
        while i < n
            invariant
                i <= n,
                n == self.inventory@.len(),
                forall|j: int| 0 <= j < i ==> self.inventory@[j] != item,
            decreases n - i,
        {
            if self.inventory[i] == item {
                assert(self.inventory@[i as int] == item);
                return true;
            }
            i = i + 1;
        }
        false
    }

    /// Remove the first matching instance of `item`, if one is held.
    #[verifier::loop_isolation(false)]
    pub fn remove_item(&mut self, item: ItemType)
        ensures
            final(self).inventory@ == old(self).inventory@.remove_value(item),
            final(self).pos == old(self).pos,
            final(self).pending_move == old(self).pending_move,
    {
        let ghost p0 = *self;
        let ghost inv0 = self.inventory@;
        let n = self.inventory.len();
        let mut i: usize = 0;
        while i < n
            invariant
                i <= n,
                n == self.inventory@.len(),
                *self == p0,
                inv0 == p0.inventory@,
                forall|j: int| 0 <= j < i ==> self.inventory@[j] != item,
            decreases n - i,
        {
            if self.inventory[i] == item {
                proof {
                    inv0.index_of_first_ensures(item);
                    assert(inv0.contains(item)) by {
                        assert(inv0[i as int] == item);
                    }
                    assert(inv0.index_of_first(item) == Some(i as int));
                }
                self.inventory.remove(i);
                return;
            }
            i = i + 1;
        }
        proof {
            inv0.index_of_first_ensures(item);
            assert(!inv0.contains(item));
        }
    }
}

} // verus!
