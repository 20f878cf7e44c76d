//! The monophonic tone-envelope player. A trigger points `counter` at a
//! segment of the fixed `freqs` table; each per-frame poll emits one command
//! for the external tone generator and steps the counter until the segment
//! is spent.

use vstd::prelude::*;

verus! {

/// What one per-frame poll asks of the tone generator.
#[derive(Copy, Clone, PartialEq, Eq, Structural, Debug)]
pub enum ToneCmd {
    /// No envelope is playing: leave the generator alone.
    Idle,
    /// The envelope just ended: silence the generator.
    Stop,
    /// Keep the generator on and program this frequency, in hertz.
    Play(u32),
}

pub struct Sound {
    pub counter: u16,
    pub counter_end: u16,
    pub active: bool,
    pub freqs: [u32; 6],
}

impl Sound {
    /// The envelope segment always stays inside the six-entry table.
    pub open spec fn wf(self) -> bool {
        self.counter_end < 6
    }

    /// A fresh, silent player. Slots 0..3 hold the fixed "destroy" tones;
    /// slots 3..5 are rewritten with fresh draws on every "shoot" trigger.
    pub fn new() -> (s: Sound)
        ensures
            s.counter == 0,
            s.counter_end == 3,
            !s.active,
            s.freqs@ =~= seq![800u32, 900u32, 1000u32, 3700u32, 2900u32, 2600u32],
            s.wf(),
    {
        Sound { counter: 0u16, counter_end: 3, active: false, freqs: [
            800u32,
            900u32,
            1000u32,
            3700u32,
            2900u32,
            2600u32,
        ] }
    }

    /// Arm the envelope `[start, end]`. Re-triggering while active simply
    /// overwrites the segment in place; nothing queues.
    pub fn trigger(&mut self, start: u16, end: u16)
        requires
            end < 6,
        ensures
            final(self).counter == start,
            final(self).counter_end == end,
            final(self).active,
            final(self).freqs == old(self).freqs,
            final(self).wf(),
    {
        self.counter = start;
        self.counter_end = end;
        self.active = true;
    }

    /// One per-frame poll. While inactive it asks nothing. While active it
    /// plays `freqs[counter]` and steps the counter, until the counter has
    /// passed the segment end: then it deactivates and asks for silence.
    pub fn poll(&mut self) -> (cmd: ToneCmd)
        requires
            old(self).wf(),
        ensures
            final(self).wf(),
            final(self).counter_end == old(self).counter_end,
            final(self).freqs == old(self).freqs,
            !old(self).active ==> cmd == ToneCmd::Idle && *final(self) == *old(self),
            old(self).active && old(self).counter > old(self).counter_end ==> {
                &&& cmd == ToneCmd::Stop
                &&& !final(self).active
                &&& final(self).counter == 0
            },
            old(self).active && old(self).counter <= old(self).counter_end ==> {
                &&& cmd == ToneCmd::Play(old(self).freqs@[old(self).counter as int])
                &&& final(self).active
                &&& final(self).counter == old(self).counter + 1
            },
    {
        if self.active {
            if self.counter > self.counter_end {
                self.counter = 0;
                self.active = false;
                ToneCmd::Stop
            } else {
                let hz = self.freqs[self.counter as usize];
                self.counter = self.counter + 1;
                ToneCmd::Play(hz)
            }
        } else {
            ToneCmd::Idle
        }
    }
}

} // verus!
