//! The keypad snapshot: cleared and repopulated once per loop iteration
//! from whatever input source drives the machine.
use vstd::prelude::*;

use crate::cpu::Cpu;
use crate::machine::KEYBOARD_SIZE;
use crate::machine::Machine;

verus! {

impl Cpu {
    /// Release every key.
    pub fn clear_keyboard(&mut self)
        requires
            old(self)@.wf(),
        ensures
            final(self)@.wf(),
            final(self)@.keys =~= Seq::new(KEYBOARD_SIZE as nat, |k: int| false),
            final(self)@ == (Machine { keys: final(self)@.keys, ..old(self)@ }),
    {
        self.keyboard = [false; 16];
        proof {
            assert(self@.keys =~= Seq::new(KEYBOARD_SIZE as nat, |k: int| false));
        }
    }

    /// Press or release one key of the fresh snapshot.
    pub fn set_key(&mut self, key: usize, down: bool)
        requires
            old(self)@.wf(),
            key < KEYBOARD_SIZE,
        ensures
            final(self)@.wf(),
            final(self)@.keys == old(self)@.keys.update(key as int, down),
            final(self)@ == (Machine { keys: final(self)@.keys, ..old(self)@ }),
    {
        self.keyboard[key] = down;
    }

    /// Record that the input source asked the machine to halt.
    pub fn request_quit(&mut self)
        requires
            old(self)@.wf(),
        ensures
            final(self)@.wf(),
            final(self)@ == old(self)@.halted(),
    {
        self.quit = true;
    }

    /// Acknowledge a render pass: the display is no longer dirty.
    pub fn mark_rendered(&mut self)
        requires
            old(self)@.wf(),
        ensures
            final(self)@.wf(),
            final(self)@ == (Machine { redraw: false, ..old(self)@ }),
    {
        self.display_redraw = false;
    }
}

} // verus!
