//! A verified interpreter core for an 8-bit retro virtual machine:
//! a byte-addressable memory, a register file, a call stack, and a
//! monochrome bitmap display driven by a fetch-decode-execute cycle.

pub mod display;
pub mod font;
pub mod processor;

use vstd::prelude::*;
use crate::display::pixel_at;
use crate::font::{font_data, font_seq};
use crate::processor::{Cpu, CpuState, Fault, initial_state, state_wf, step_result, uses_randomness};

verus! {

/// The memory of a freshly constructed machine: the glyph bytes in the
/// reserved region, zero elsewhere.
pub open spec fn booted_memory() -> Seq<u8> {
    Seq::new(4096, |i: int| if i < 80 { font_seq()[i] } else { 0u8 })
}

/// `mem` with the program image placed at the program region's base.
pub open spec fn loaded_memory(mem: Seq<u8>, rom: Seq<u8>) -> Seq<u8> {
    Seq::new(
        4096,
        |i: int| if 0x200 <= i < 0x200 + rom.len() {
            rom[i - 0x200]
        } else {
            mem[i]
        },
    )
}

/// The whole virtual machine: a CPU that owns memory, registers,
/// stack, program counter and display.
pub struct Chip8 {
    processor: Cpu,
}

impl View for Chip8 {
    type V = CpuState;

    closed spec fn view(&self) -> CpuState {
        self.processor@
    }
}

impl Chip8 {
    pub open spec fn wf(&self) -> bool {
        state_wf(self@)
    }

    /// A machine ready to accept a program: zeroed state with the
    /// glyph data placed in the reserved memory region.
    pub fn new() -> (r: Chip8)
        ensures
            r.wf(),
            r@ == (CpuState { memory: booted_memory(), ..initial_state() }),
    {
        let mut processor = Cpu::new();
        let font = font_data();
        proof {
            assert(Seq::new(4096, |k: int| if k < 0 { font_seq()[k] } else { 0u8 })
                =~= initial_state().memory);
        }
        let mut i: usize = 0;
        while i < 80
            invariant
                processor.wf(),
                i <= 80,
                font@ == font_seq(),
                font@.len() == 80,
                processor@ == (CpuState {
                    memory: Seq::new(4096, |k: int| if k < i { font_seq()[k] } else { 0u8 }),
                    ..initial_state()
                }),
            decreases 80 - i,
        {
            processor.edit_memory(i, font[i]);
            proof {
                assert(Seq::new(4096, |k: int| if k < i { font_seq()[k] } else { 0u8 }).update(
                    i as int,
                    font_seq()[i as int],
                ) =~= Seq::new(4096, |k: int| if k < i + 1 { font_seq()[k] } else { 0u8 }));
            }
            i = i + 1;
        }
        proof {
            assert(Seq::new(4096, |k: int| if k < 80 { font_seq()[k] } else { 0u8 })
                =~= booted_memory());
        }
        Chip8 { processor }
    }

    /// Place a program image at the program region's base.  An image
    /// larger than the region — the memory above the reserved 512
    /// bytes — is a fault, reported before execution ever begins, and
    /// loads nothing.
    pub fn load_rom(&mut self, rom: Vec<u8>) -> (r: Result<(), Fault>)
        requires
            old(self).wf(),
        ensures
            final(self).wf(),
            rom@.len() > 0xFFF - 0x200 ==> r == Err::<(), Fault>(Fault::RomTooLarge)
                && final(self)@ == old(self)@,
            rom@.len() <= 0xFFF - 0x200 ==> r == Ok::<(), Fault>(()) && final(self)@ == (CpuState {
                memory: loaded_memory(old(self)@.memory, rom@),
                ..old(self)@
            }),
    {
        if rom.len() > 0xFFF - 0x200 {
            return Err(Fault::RomTooLarge);
        }
        proof {
            assert(Seq::new(
                4096,
                |k: int| if 0x200 <= k < 0x200 { rom@[k - 0x200] } else { old(self)@.memory[k] },
            ) =~= old(self)@.memory);
        }
        let mut i: usize = 0;
        while i < rom.len()
            invariant
                self.wf(),
                i <= rom@.len(),
                rom@.len() <= 0xFFF - 0x200,
                self@ == (CpuState {
                    memory: Seq::new(
                        4096,
                        |k: int| if 0x200 <= k < 0x200 + i {
                            rom@[k - 0x200]
                        } else {
                            old(self)@.memory[k]
                        },
                    ),
                    ..old(self)@
                }),
            decreases rom@.len() - i,
        {
            self.processor.edit_memory(0x200 + i, rom[i]);
            proof {
                assert(Seq::new(
                    4096,
                    |k: int| if 0x200 <= k < 0x200 + i {
                        rom@[k - 0x200]
                    } else {
                        old(self)@.memory[k]
                    },
                ).update(0x200 + i as int, rom@[i as int]) =~= Seq::new(
                    4096,
                    |k: int| if 0x200 <= k < 0x200 + (i + 1) {
                        rom@[k - 0x200]
                    } else {
                        old(self)@.memory[k]
                    },
                ));
            }
            i = i + 1;
        }
        proof {
            assert(Seq::new(
                4096,
                |k: int| if 0x200 <= k < 0x200 + rom@.len() {
                    rom@[k - 0x200]
                } else {
                    old(self)@.memory[k]
                },
            ) =~= loaded_memory(old(self)@.memory, rom@));
        }
        Ok(())
    }

    /// Run one fetch-decode-execute cycle.
    pub fn tick(&mut self) -> (r: Result<(), Fault>)
        requires
            old(self).wf(),
        ensures
            final(self).wf(),
            exists|b: u8| step_result(old(self)@, final(self)@, r, b),
            !uses_randomness(old(self)@) ==> forall|b: u8|
                step_result(old(self)@, final(self)@, r, b),
    {
        let r = self.processor.process_instruction();
        proof {
            let b = choose|b: u8| step_result(old(self).processor@, self.processor@, r, b);
            assert(step_result(old(self)@, self@, r, b));
        }
        r
    }

    /// Read the pixel at column `xcor mod 64`, row `ycor mod 32` of
    /// the display, for an external presentation layer.
    pub fn get_pixel(&self, xcor: u8, ycor: u8) -> (r: bool)
        requires
            self.wf(),
        ensures
            r == pixel_at(self@.screen, xcor, ycor),
    {
        self.processor.get_pixel(xcor, ycor)
    }

    /// A pure projection of the display for an external presentation
    /// layer: for each of the 32 rows, the 64 pixel states left to
    /// right.
    pub fn render(&self) -> (r: Vec<Vec<bool>>)
        requires
            self.wf(),
        ensures
            r@.len() == 32,
            forall|j: int| 0 <= j < 32 ==> (#[trigger] r@[j])@.len() == 64,
            forall|i: u8, j: u8| i < 64 && j < 32 ==> r@[j as int]@[i as int] == pixel_at(
                self@.screen,
                i,
                j,
            ),
    {
        self.processor.render()
    }

    /// Record whether a key is currently down; the keyboard
    /// collaborator calls this as input state changes.
    pub fn set_key(&mut self, key: usize, pressed: bool)
        requires
            old(self).wf(),
            key < 16,
        ensures
            final(self).wf(),
            final(self)@ == (CpuState { keys: old(self)@.keys.update(key as int, pressed), ..old(self)@ }),
    {
        self.processor.set_key(key, pressed);
    }
}

} // verus!
