//! The whole machine, and one iteration of the loop that drives it.

use vstd::prelude::*;
use crate::audio::{Audio, count_down_by, lemma_ticks};
use crate::cpu::{
    Cpu,
    StepError,
    REGISTER_COUNT,
    all_same,
    mem_same,
    regs_same,
    step_fault,
    step_spec,
};
use crate::display::{Display, blank};
use crate::input::{Input, KEY_COUNT};
use crate::memory::{Memory, MEMORY_SIZE, PROGRAM_START, initial_ram};

verus! {

/// `n` successful steps from (`c0`, `m0`, `d0`, `a0`) to (`c1`, `m1`, `d1`,
/// `a1`) under keypad snapshot `inp`, each with some random byte.
pub open spec fn runs(
    c0: Cpu,
    m0: Memory,
    d0: Display,
    a0: Audio,
    inp: Input,
    n: nat,
    c1: Cpu,
    m1: Memory,
    d1: Display,
    a1: Audio,
) -> bool
    decreases n,
{
    if n == 0 {
        all_same(c0, m0, d0, a0, c1, m1, d1, a1)
    } else {
        exists|c: Cpu, m: Memory, d: Display, a: Audio, rnd: u8|
            runs(c0, m0, d0, a0, inp, (n - 1) as nat, c, m, d, a) && step_fault(c, m) is None
                && #[trigger] step_spec(c, m, d, a, inp, rnd, c1, m1, d1, a1)
    }
}

/// A CHIP-8 machine: processor, memory, screen, keypad and timers. It stops
/// running at the first fault.
pub struct Chip8 {
    pub cpu: Cpu,
    pub memory: Memory,
    pub display: Display,
    pub input: Input,
    pub audio: Audio,
    pub running: bool,
}

impl Chip8 {
    /// A machine in its power-on state, running: execution starts at
    /// `PROGRAM_START`, registers, screen, keys and timers are clear, the
    /// font is loaded and the stack is empty.
    pub fn new() -> (r: Chip8)
        ensures
            r.running,
            r.cpu.pc == PROGRAM_START,
            r.cpu.i == 0,
            forall|k: int| 0 <= k < REGISTER_COUNT ==> #[trigger] r.cpu.v@[k] == 0,
            forall|a: int| 0 <= a < MEMORY_SIZE ==> #[trigger] r.memory.ram@[a] == initial_ram(a),
            r.memory.stack@ == Seq::<u16>::empty(),
            blank(r.display.vram@),
            r.display.is_dirty,
            forall|k: int| 0 <= k < KEY_COUNT ==> !#[trigger] r.input.state@[k],
            r.audio.delay_timer == 0,
            r.audio.sound_timer == 0,
    {
        Chip8 {
            cpu: Cpu::new(),
            memory: Memory::new(),
            display: Display::new(),
            input: Input::new(),
            audio: Audio::new(),
            running: true,
        }
    }

    /// One iteration of the driver's loop: takes the keypad snapshot `keys`,
    /// runs `steps` instructions under it, then ticks the timers `ticks`
    /// times, and returns the frame to show if the screen changed. At the
    /// first fault the machine stops running and the fault is returned; a
    /// machine that has stopped does nothing and returns `Ok(None)`.
    pub fn run(&mut self, keys: [bool; 16], steps: u32, ticks: u32) -> (r: Result<
        Option<[u8; 256]>,
        StepError,
    >)
        ensures
            !old(self).running ==> r == Ok::<Option<[u8; 256]>, StepError>(None) && *final(self)
                == *old(self),
            old(self).running ==> final(self).input.state == keys,
            old(self).running && r is Ok ==> final(self).running && exists|
                c: Cpu,
                m: Memory,
                d: Display,
                a: Audio,
            |
                {
                    &&& #[trigger] runs(
                        old(self).cpu,
                        old(self).memory,
                        old(self).display,
                        old(self).audio,
                        final(self).input,
                        steps as nat,
                        c,
                        m,
                        d,
                        a,
                    )
                    &&& regs_same(c, final(self).cpu)
                    &&& mem_same(m, final(self).memory)
                    &&& final(self).display.vram@ == d.vram@
                    &&& !final(self).display.is_dirty
                    &&& r == Ok::<Option<[u8; 256]>, StepError>(
                        if d.is_dirty {
                            Some(d.vram)
                        } else {
                            None
                        },
                    )
                    &&& final(self).audio.delay_timer == count_down_by(a.delay_timer, ticks as nat)
                    &&& final(self).audio.sound_timer == count_down_by(a.sound_timer, ticks as nat)
                },
            old(self).running ==> (r matches Err(e) ==> !final(self).running && exists|
                n: nat,
                c: Cpu,
                m: Memory,
                d: Display,
                a: Audio,
            |
                {
                    &&& n < steps
                    &&& #[trigger] runs(
                        old(self).cpu,
                        old(self).memory,
                        old(self).display,
                        old(self).audio,
                        final(self).input,
                        n,
                        c,
                        m,
                        d,
                        a,
                    )
                    &&& step_fault(c, m) == Some(e)
                    &&& all_same(
                        c,
                        m,
                        d,
                        a,
                        final(self).cpu,
                        final(self).memory,
                        final(self).display,
                        final(self).audio,
                    )
                }),
    {
        if !self.running {
            return Ok(None);
        }
        self.input.set_state(keys);
        let ghost c0 = self.cpu;
        let ghost m0 = self.memory;
        let ghost d0 = self.display;
        let ghost a0 = self.audio;
        let mut k: u32 = 0;
        while k < steps
            invariant
                k <= steps,
                old(self).running,
                c0 == old(self).cpu,
                m0 == old(self).memory,
                d0 == old(self).display,
                a0 == old(self).audio,
                self.running,
                self.input.state == keys,
                runs(
                    c0,
                    m0,
                    d0,
                    a0,
                    self.input,
                    k as nat,
                    self.cpu,
                    self.memory,
                    self.display,
                    self.audio,
                ),
            decreases steps - k,
        {
            let ghost cb = self.cpu;
            let ghost mb = self.memory;
            let ghost db = self.display;
            let ghost ab = self.audio;
            let res = self.cpu.step(
                &mut self.memory,
                &mut self.display,
                &self.input,
                &mut self.audio,
            );
            let ghost rnd = choose|rnd: u8|
                step_spec(
                    cb,
                    mb,
                    db,
                    ab,
                    self.input,
                    rnd,
                    self.cpu,
                    self.memory,
                    self.display,
                    self.audio,
                );
            match res {
                Ok(()) => {
                    proof {
                        assert(step_spec(
                            cb,
                            mb,
                            db,
                            ab,
                            self.input,
                            rnd,
                            self.cpu,
                            self.memory,
                            self.display,
                            self.audio,
                        ));
                        assert(runs(
                            c0,
                            m0,
                            d0,
                            a0,
                            self.input,
                            (k + 1) as nat,
                            self.cpu,
                            self.memory,
                            self.display,
                            self.audio,
                        ));
                    }
                },
                Err(e) => {
                    self.running = false;
                    proof {
                        assert(runs(c0, m0, d0, a0, self.input, k as nat, cb, mb, db, ab));
                        assert(step_fault(cb, mb) == Some(e));
                        assert(all_same(
                            cb,
                            mb,
                            db,
                            ab,
                            self.cpu,
                            self.memory,
                            self.display,
                            self.audio,
                        ));
                    }
                    return Err(e);
                },
            }
            k = k + 1;
        }
        let ghost cm = self.cpu;
        let ghost mm = self.memory;
        let ghost dm = self.display;
        let ghost am = self.audio;
        let mut t: u32 = 0;
        while t < ticks
            invariant
                t <= ticks,
                self.cpu == cm,
                self.memory == mm,
                self.display == dm,
                self.running,
                self.input.state == keys,
                self.audio.delay_timer == count_down_by(am.delay_timer, t as nat),
                self.audio.sound_timer == count_down_by(am.sound_timer, t as nat),
            decreases ticks - t,
        {
            proof {
                lemma_ticks(am.delay_timer, t as nat);
                lemma_ticks(am.sound_timer, t as nat);
            }
            self.audio.tick();
            t = t + 1;
        }
        let frame = self.display.update();
        Ok(frame)
    }
}

} // verus!
