//! The host-facing key-state array.  The host's input layer translates
//! its own key events into logical key indices 0x0..=0xF and records
//! presses and releases here; the interpreter core reads the same
//! 16-cell layout during skip-on-key and await-key instructions.

use vstd::prelude::*;

verus! {

/// A 16-slot array of key states, one cell per logical key, where a
/// nonzero cell means "currently pressed".
pub struct Keypad {
    pub key: Vec<u8>,
}

impl Keypad {
    /// The key array always holds exactly sixteen cells.
    pub open spec fn wf(self) -> bool {
        self.key@.len() == 16
    }

    /// All sixteen keys start released.
    pub fn new() -> (r: Keypad)
        ensures
            r.wf(),
            forall|i: int| 0 <= i < 16 ==> r.key@[i] == 0,
    {
        let mut key: Vec<u8> = Vec::new();
        let mut i: usize = 0;
        while i < 16
            invariant
                i <= 16,
                key@.len() == i,
                forall|j: int| 0 <= j < i ==> key@[j] == 0,
            decreases 16 - i,
        {
            key.push(0);
            i = i + 1;
        }
        Keypad { key }
    }

    /// Records the state of one logical key; an index outside the
    /// sixteen-key layout is ignored, as an unmapped key event is.
    pub fn press(&mut self, index: usize, state: u8)
        requires
            old(self).wf(),
        ensures
            final(self).wf(),
            index < 16 ==> final(self).key@ == old(self).key@.update(index as int, state),
            index >= 16 ==> final(self).key@ == old(self).key@,
    {
        if index < 16 {
            self.key[index] = state;
        }
    }
}

} // verus!
