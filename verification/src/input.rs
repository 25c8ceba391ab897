//! Input snapshot: which logical keys are currently held, as reported by
//! the host's press and release events.  The host maps physical key codes
//! to these logical identifiers before they reach the engine.

use vstd::prelude::*;

verus! {

/// Logical key identifiers, one per action the engine reacts to.
#[derive(Clone, Copy, PartialEq, Eq, Structural, Debug)]
pub enum Key {
    /// Move the player left.
    Left,
    /// Move the player right.
    Right,
    /// Make the player jump while grounded.
    Jump,
    /// Fire a projectile towards the pointer.
    Fire,
    /// Toggle between edit and play mode.
    Escape,
    /// Edit: destroy the entity under the pointer.
    Delete,
    /// Edit: held to drag out a new block rectangle.
    Draw,
    /// Edit: turn the entity under the pointer into the player.
    MakePlayer,
    /// Edit: turn the entity under the pointer into an enemy.
    MakeEnemy,
    /// Edit: mark the entity under the pointer as the pending portal entry.
    MakePortalIn,
    /// Edit: make the entity under the pointer the exit of the pending
    /// portal entry.
    MakePortalOut,
    /// Edit: ask the host to save the entity list.
    Save,
    /// Edit: ask the host to load the entity list.
    Load,
    /// Edit: pan the camera left.
    PanLeft,
    /// Edit: pan the camera right.
    PanRight,
    /// Edit: pan the camera up.
    PanUp,
    /// Edit: pan the camera down.
    PanDown,
}

/// The set of currently held keys, in press order, without duplicates.
pub struct Input {
    pub keys: Vec<Key>,
}

/// The held keys with every occurrence of `key` removed, order kept.
pub open spec fn without_key(s: Seq<Key>, key: Key) -> Seq<Key> {
    s.filter(|k: Key| k != key)
}

impl Input {
    pub fn new() -> (r: Input)
        ensures
            r.keys@ =~= Seq::<Key>::empty(),
    {
        Input { keys: Vec::new() }
    }

    pub fn is_pressed(&self, key: &Key) -> (r: bool)
        ensures
            r == self.keys@.contains(*key),
    {
        let mut i: usize = 0;
        while i < self.keys.len()
            invariant
                i <= self.keys@.len(),
                forall|j: int| 0 <= j < i ==> self.keys@[j] != *key,
            decreases self.keys@.len() - i,
        {
            if self.keys[i] == *key {
                return true;
            }
            i += 1;
        }
        false
    }

    pub fn press(&mut self, key: Key)
        ensures
            final(self).keys@ == (if old(self).keys@.contains(key) {
                old(self).keys@
            } else {
                old(self).keys@.push(key)
            }),
    {
        if !self.is_pressed(&key) {
            self.keys.push(key);
        }
    }

    pub fn release(&mut self, key: &Key)
        ensures
            final(self).keys@ == without_key(old(self).keys@, *key),
    {
        let mut kept: Vec<Key> = Vec::new();
        let mut i: usize = 0;
        proof {
            reveal_with_fuel(Seq::<_>::filter, 1);
            assert(self.keys@.subrange(0, 0) =~= Seq::<Key>::empty());
        }
        while i < self.keys.len()
            invariant
                i <= self.keys@.len(),
                kept@ == without_key(self.keys@.subrange(0, i as int), *key),
            decreases self.keys@.len() - i,
        {
            let k = self.keys[i];
            proof {
                reveal_with_fuel(Seq::<_>::filter, 2);
                assert(self.keys@.subrange(0, i + 1).drop_last() =~= self.keys@.subrange(
                    0,
                    i as int,
                ));
                assert(self.keys@.subrange(0, i + 1).last() == k);
            }
            if k != *key {
                kept.push(k);
            }
            i += 1;
        }
        proof {
            assert(self.keys@.subrange(0, self.keys@.len() as int) =~= self.keys@);
        }
        self.keys = kept;
    }
}

} // verus!
