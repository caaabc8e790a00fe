//! The signal protocol between the render/input loop and the instruction
//! loop. The render loop runs at 60 Hz and owns nothing of the machine
//! state: it asks for every change through a signal, and the instruction
//! loop applies them with `apply_signal` before each tick. This is what
//! keeps the two timers decrementing at the render loop's cadence, however
//! fast instructions execute.

use vstd::prelude::*;

use crate::vm::{Status, VmView, VM};

verus! {

/// A request from the render/input loop to the instruction loop.
#[derive(Clone, Copy, Debug, PartialEq, Eq, Structural)]
pub enum Signal {
    /// Take one off the delay timer (sent once per render iteration).
    DecrementDelayTimer,
    /// Take one off the sound timer (sent once per render iteration).
    DecrementSoundTimer,
    /// Stop the machine: a one-way transition.
    Terminate,
    /// The keypad mask sampled from the keyboard, bit `i` = key `i` down.
    SendKeys(u16),
}

/// The machine after one signal: each timer decrement saturates at zero,
/// `Terminate` moves the status, `SendKeys` replaces the keypad mask.
/// Nothing else of the state moves.
pub open spec fn spec_apply_signal(v: VmView, signal: Signal) -> VmView {
    match signal {
        Signal::DecrementDelayTimer => VmView {
            delay_timer: if v.delay_timer > 0 {
                (v.delay_timer - 1) as u8
            } else {
                0u8
            },
            ..v
        },
        Signal::DecrementSoundTimer => VmView {
            sound_timer: if v.sound_timer > 0 {
                (v.sound_timer - 1) as u8
            } else {
                0u8
            },
            ..v
        },
        Signal::Terminate => VmView { status: Status::Terminated, ..v },
        Signal::SendKeys(keys) => VmView { keys, ..v },
    }
}

impl VM {
    /// Applies one delivered signal; the new state is exactly
    /// `spec_apply_signal` of the old one.
    pub fn apply_signal(&mut self, signal: Signal)
        ensures
            final(self)@ == spec_apply_signal(old(self)@, signal),
    {
        match signal {
            Signal::DecrementDelayTimer => {
                if self.delay_timer > 0 {
                    self.delay_timer = self.delay_timer - 1;
                }
            },
            Signal::DecrementSoundTimer => {
                if self.sound_timer > 0 {
                    self.sound_timer = self.sound_timer - 1;
                }
            },
            Signal::Terminate => {
                self.status = Status::Terminated;
            },
            Signal::SendKeys(keys) => {
                self.keys = keys;
            },
        }
        proof {
            assert(final(self)@ =~= spec_apply_signal(old(self)@, signal));
        }
    }
}

} // verus!
