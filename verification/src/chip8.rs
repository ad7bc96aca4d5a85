//! The machine itself: memory, registers, program counter, call stack,
//! timers, framebuffer and keypad snapshot, with the fetch/decode/execute
//! cycle and the per-frame schedule.
use crate::Fault;
use crate::decode::Instruction;
use crate::decode::decode;
use crate::decode::spec_decode;
use crate::decode::wf_instr;
use crate::display::Display;
use crate::semantics::VmState;
use crate::semantics::coll_partial;
use crate::semantics::dec_timer;
use crate::semantics::draw_hits;
use crate::semantics::draw_visited;
use crate::semantics::draw_collision;
use crate::semantics::drawn_fb;
use crate::semantics::font_data;
use crate::semantics::frame_end;
use crate::semantics::frame_matches;
use crate::semantics::lemma_coll_full;
use crate::semantics::lemma_coll_row_roll;
use crate::semantics::lemma_run_steps_congruence;
use crate::semantics::lemma_run_steps_fault_stays;
use crate::semantics::init_state;
use crate::semantics::loaded_mem;
use crate::semantics::loaded_regs;
use crate::semantics::mem_at;
use crate::semantics::outcome_matches;
use crate::semantics::spec_execute;
use crate::semantics::spec_fetch;
use crate::semantics::spec_run_steps;
use crate::semantics::spec_step;
use crate::semantics::sprite_bit;
use crate::semantics::sprite_seq;
use crate::semantics::state_wf;
use crate::semantics::stored_mem;
use crate::stack::Stack;
use crate::timers::Timers;
use vstd::prelude::*;

verus! {

/// The fixed instruction budget of one 60 Hz frame: instructions per second
/// divided by frames per second.
pub const INSTRUCTIONS_PER_FRAME: usize = 600 / 60;

/// Relies on rand::random: a fresh byte from the thread-local generator,
/// uniformly distributed. Nothing is promised of its value.
#[verifier::external_body]
fn random_byte() -> u8 {
    rand::random()
}

/// The whole machine state: 4096 bytes of memory, the 64x32 framebuffer,
/// the program counter, the index register, the call stack, the two timers,
/// the 16 variable registers, and the current keypad snapshot.
pub struct Chip8 {
    memory: [u8; 4096],
    display: Display,
    pc: u16,
    i_register: u16,
    stack: Stack,
    timers: Timers,
    variable_registers: [u8; 16],
    key_states: [bool; 16],
}

impl View for Chip8 {
    type V = VmState;

    /// The machine as its abstract state.
    closed spec fn view(&self) -> VmState {
        VmState {
            memory: self.memory@,
            fb: self.display@,
            pc: self.pc,
            i: self.i_register,
            stack: self.stack@,
            delay: self.timers.dt_register,
            sound: self.timers.st_register,
            regs: self.variable_registers@,
            keys: self.key_states@,
        }
    }
}

impl Chip8 {
    /// The machine is well formed: its call stack respects its capacity,
    /// and every component has its fixed size.
    pub closed spec fn wf(&self) -> bool {
        self.stack.wf() && state_wf(self@)
    }

    /// A new machine: zeroed memory with the font glyphs loaded at
    /// 0x050..0x0A0, the program counter at 0x200, and everything else
    /// empty, zero or dark.
    pub fn default() -> (r: Self)
        ensures
            r.wf(),
            r@ == init_state(),
    {
        let mut chip8 = Chip8 {
            memory: [0; 4096],
            display: Display::default(),
            pc: 0x200,
            i_register: 0,
            stack: Stack::default(),
            timers: Timers::default(),
            variable_registers: [0; 16],
            key_states: [false; 16],
        };
        chip8.load_fonts();
        proof {
            assert(chip8@ =~~= init_state());
        }
        chip8
    }

    /// Copy the font glyphs into memory at 0x050..0x0A0; nothing else
    /// changes.
    fn load_fonts(&mut self)
        requires
            old(self).wf(),
        ensures
            final(self).wf(),
            final(self)@ == (VmState { memory: final(self)@.memory, ..old(self)@ }),
            forall|a: int|
                0x50 <= a < 0xA0 ==> final(self)@.memory[a] == font_data()[a - 0x50],
            forall|a: int|
                0 <= a < 4096 && !(0x50 <= a < 0xA0) ==> final(self)@.memory[a] == old(
                    self,
                )@.memory[a],
    {
        let fonts: [u8; 80] = [
            0xF0, 0x90, 0x90, 0x90, 0xF0,
            0x20, 0x60, 0x20, 0x20, 0x70,
            0xF0, 0x10, 0xF0, 0x80, 0xF0,
            0xF0, 0x10, 0xF0, 0x10, 0xF0,
            0x90, 0x90, 0xF0, 0x10, 0x10,
            0xF0, 0x80, 0xF0, 0x10, 0xF0,
            0xF0, 0x80, 0xF0, 0x90, 0xF0,
            0xF0, 0x10, 0x20, 0x40, 0x40,
            0xF0, 0x90, 0xF0, 0x90, 0xF0,
            0xF0, 0x90, 0xF0, 0x10, 0xF0,
            0xF0, 0x90, 0xF0, 0x90, 0x90,
            0xE0, 0x90, 0xE0, 0x90, 0xE0,
            0xF0, 0x80, 0x80, 0x80, 0xF0,
            0xE0, 0x90, 0x90, 0x90, 0xE0,
            0xF0, 0x80, 0xF0, 0x80, 0xF0,
            0xF0, 0x80, 0xF0, 0x80, 0x80,
        ];
        proof {
            assert(fonts@ =~= font_data());
        }
        let mut k: usize = 0;
        while k < 80
            invariant
                old(self).wf(),
                k <= 80,
                fonts@ == font_data(),
                self.wf(),
                self@ == (VmState { memory: self@.memory, ..old(self)@ }),
                forall|a: int| 0x50 <= a < 0x50 + k ==> self@.memory[a] == font_data()[a - 0x50],
                forall|a: int|
                    0 <= a < 4096 && !(0x50 <= a < 0x50 + k) ==> self@.memory[a] == old(
                        self,
                    )@.memory[a],
            decreases 80 - k,
        {
            self.memory[0x50 + k] = fonts[k];
            k = k + 1;
        }
    }

    /// Copy a program image into memory starting at 0x200, truncated to the
    /// 3584 bytes available there; nothing else changes.
    pub fn load_rom(&mut self, rom: &[u8])
        requires
            old(self).wf(),
        ensures
            final(self).wf(),
            final(self)@ == (VmState {
                memory: loaded_mem(old(self)@.memory, rom@),
                ..old(self)@
            }),
    {
        let limit: usize = if rom.len() < 3584 {
            rom.len()
        } else {
            3584
        };
        let mut k: usize = 0;
        while k < limit
            invariant
                old(self).wf(),
                limit == if rom@.len() < 3584 {
                    rom@.len() as int
                } else {
                    3584
                },
                k <= limit,
                self.wf(),
                self@ == (VmState { memory: self@.memory, ..old(self)@ }),
                forall|a: int|
                    0x200 <= a < 0x200 + k ==> self@.memory[a] == rom@[a - 0x200],
                forall|a: int|
                    0 <= a < 4096 && !(0x200 <= a < 0x200 + k) ==> self@.memory[a] == old(
                        self,
                    )@.memory[a],
            decreases limit - k,
        {
            self.memory[0x200 + k] = rom[k];
            k = k + 1;
        }
        proof {
            assert(self@.memory =~= loaded_mem(old(self)@.memory, rom@));
            assert(self@ =~~= (VmState {
                memory: loaded_mem(old(self)@.memory, rom@),
                ..old(self)@
            }));
        }
    }

    /// Combine the two bytes at `pc` big-endian into an opcode and advance
    /// `pc` by 2.
    pub fn fetch_opcode(&mut self) -> (op: u16)
        requires
            old(self).wf(),
        ensures
            final(self).wf(),
            op == spec_fetch(old(self)@).0,
            final(self)@ == spec_fetch(old(self)@).1,
    {
        let high_byte = self.memory[(self.pc as usize) % 4096];
        let low_byte = self.memory[((self.pc as usize) + 1) % 4096];
        self.pc = self.pc.wrapping_add(2);
        proof {
            assert(self@ =~~= spec_fetch(old(self)@).1);
        }
        ((high_byte as u16) << 8u16) | (low_byte as u16)
    }

    /// Replace the keypad snapshot; nothing else changes.
    pub fn update_keys(&mut self, keys: [bool; 16])
        requires
            old(self).wf(),
        ensures
            final(self).wf(),
            final(self)@ == (VmState { keys: keys@, ..old(self)@ }),
    {
        self.key_states = keys;
        proof {
            assert(self@ =~~= (VmState { keys: keys@, ..old(self)@ }));
        }
    }

    /// Decrement each nonzero timer by one; nothing else changes.
    pub fn tick_timers(&mut self)
        requires
            old(self).wf(),
        ensures
            final(self).wf(),
            final(self)@ == (VmState {
                delay: dec_timer(old(self)@.delay),
                sound: dec_timer(old(self)@.sound),
                ..old(self)@
            }),
    {
        self.timers.decrement_timers();
        proof {
            assert(self@ =~~= (VmState {
                delay: dec_timer(old(self)@.delay),
                sound: dec_timer(old(self)@.sound),
                ..old(self)@
            }));
        }
    }

    /// Execute one decoded instruction against the machine state. The state
    /// becomes exactly what the instruction's semantics prescribe, for some
    /// fresh random byte; for every instruction but the random one the byte
    /// is irrelevant and the effect is fixed. A call onto a full stack or a
    /// return from an empty one reports the fault and changes nothing.
    #[verifier::rlimit(100)]
    pub fn execute_instr(&mut self, instr: Instruction) -> (r: Result<(), Fault>)
        requires
            old(self).wf(),
            wf_instr(instr),
        ensures
            final(self).wf(),
            exists|rnd: u8|
                #[trigger] outcome_matches(final(self)@, spec_execute(old(self)@, instr, rnd), r),
            !(instr is Rand) ==> outcome_matches(
                final(self)@,
                spec_execute(old(self)@, instr, 0),
                r,
            ),
    {
        match instr {
            Instruction::ClearScreen => {
                self.display.clear();
                proof {
                    assert(self@ =~~= spec_execute(old(self)@, instr, 0).0);
                    assert(outcome_matches(self@, spec_execute(old(self)@, instr, 0), Ok::<(), Fault>(())));
                }
                Ok(())
            },
            Instruction::Return => {
                match self.stack.pop() {
                    Ok(addr) => {
                        self.pc = addr;
                        proof {
                            assert(self@ =~~= spec_execute(old(self)@, instr, 0).0);
                            assert(outcome_matches(self@, spec_execute(old(self)@, instr, 0), Ok::<(), Fault>(())));
                        }
                        Ok(())
                    },
                    Err(e) => {
                        proof {
                            assert(self@ =~~= old(self)@);
                            assert(outcome_matches(self@, spec_execute(old(self)@, instr, 0), Err::<(), Fault>(e)));
                        }
                        Err(e)
                    },
                }
            },
            Instruction::Jump(a) => {
                self.pc = a;
                proof {
                    assert(self@ =~~= spec_execute(old(self)@, instr, 0).0);
                    assert(outcome_matches(self@, spec_execute(old(self)@, instr, 0), Ok::<(), Fault>(())));
                }
                Ok(())
            },
            Instruction::Call(a) => {
                match self.stack.push(self.pc) {
                    Ok(_) => {
                        self.pc = a;
                        proof {
                            assert(self@ =~~= spec_execute(old(self)@, instr, 0).0);
                            assert(outcome_matches(self@, spec_execute(old(self)@, instr, 0), Ok::<(), Fault>(())));
                        }
                        Ok(())
                    },
                    Err(e) => {
                        proof {
                            assert(self@ =~~= old(self)@);
                            assert(outcome_matches(self@, spec_execute(old(self)@, instr, 0), Err::<(), Fault>(e)));
                        }
                        Err(e)
                    },
                }
            },
            Instruction::SkipEqImm(x, nn) => {
                if self.variable_registers[x as usize] == nn {
                    self.pc = self.pc.wrapping_add(2);
                }
                proof {
                    assert(self@ =~~= spec_execute(old(self)@, instr, 0).0);
                    assert(outcome_matches(self@, spec_execute(old(self)@, instr, 0), Ok::<(), Fault>(())));
                }
                Ok(())
            },
            Instruction::SkipNeImm(x, nn) => {
                if self.variable_registers[x as usize] != nn {
                    self.pc = self.pc.wrapping_add(2);
                }
                proof {
                    assert(self@ =~~= spec_execute(old(self)@, instr, 0).0);
                    assert(outcome_matches(self@, spec_execute(old(self)@, instr, 0), Ok::<(), Fault>(())));
                }
                Ok(())
            },
            Instruction::SkipEqReg(x, y) => {
                if self.variable_registers[x as usize] == self.variable_registers[y as usize] {
                    self.pc = self.pc.wrapping_add(2);
                }
                proof {
                    assert(self@ =~~= spec_execute(old(self)@, instr, 0).0);
                    assert(outcome_matches(self@, spec_execute(old(self)@, instr, 0), Ok::<(), Fault>(())));
                }
                Ok(())
            },
            Instruction::SetImm(x, nn) => {
                self.variable_registers[x as usize] = nn;
                proof {
                    assert(self@ =~~= spec_execute(old(self)@, instr, 0).0);
                    assert(outcome_matches(self@, spec_execute(old(self)@, instr, 0), Ok::<(), Fault>(())));
                }
                Ok(())
            },
            Instruction::AddImm(x, nn) => {
                let a = self.variable_registers[x as usize];
                self.variable_registers[x as usize] = a.wrapping_add(nn);
                proof {
                    assert(self@ =~~= spec_execute(old(self)@, instr, 0).0);
                    assert(outcome_matches(self@, spec_execute(old(self)@, instr, 0), Ok::<(), Fault>(())));
                }
                Ok(())
            },
            Instruction::CopyReg(x, y) => {
                self.variable_registers[x as usize] = self.variable_registers[y as usize];
                proof {
                    assert(self@ =~~= spec_execute(old(self)@, instr, 0).0);
                    assert(outcome_matches(self@, spec_execute(old(self)@, instr, 0), Ok::<(), Fault>(())));
                }
                Ok(())
            },
            Instruction::OrReg(x, y) => {
                let a = self.variable_registers[x as usize];
                let b = self.variable_registers[y as usize];
                self.variable_registers[x as usize] = a | b;
                proof {
                    assert(self@ =~~= spec_execute(old(self)@, instr, 0).0);
                    assert(outcome_matches(self@, spec_execute(old(self)@, instr, 0), Ok::<(), Fault>(())));
                }
                Ok(())
            },
            Instruction::AndReg(x, y) => {
                let a = self.variable_registers[x as usize];
                let b = self.variable_registers[y as usize];
                self.variable_registers[x as usize] = a & b;
                proof {
                    assert(self@ =~~= spec_execute(old(self)@, instr, 0).0);
                    assert(outcome_matches(self@, spec_execute(old(self)@, instr, 0), Ok::<(), Fault>(())));
                }
                Ok(())
            },
            Instruction::XorReg(x, y) => {
                let a = self.variable_registers[x as usize];
                let b = self.variable_registers[y as usize];
                self.variable_registers[x as usize] = a ^ b;
                proof {
                    assert(self@ =~~= spec_execute(old(self)@, instr, 0).0);
                    assert(outcome_matches(self@, spec_execute(old(self)@, instr, 0), Ok::<(), Fault>(())));
                }
                Ok(())
            },
            Instruction::AddReg(x, y) => {
                let a = self.variable_registers[x as usize];
                let b = self.variable_registers[y as usize];
                let carry: u8 = if (a as u16) + (b as u16) > 255 {
                    1
                } else {
                    0
                };
                self.variable_registers[15] = carry;
                self.variable_registers[x as usize] = a.wrapping_add(b);
                proof {
                    assert(self@ =~~= spec_execute(old(self)@, instr, 0).0);
                    assert(outcome_matches(self@, spec_execute(old(self)@, instr, 0), Ok::<(), Fault>(())));
                }
                Ok(())
            },
            Instruction::SubReg(x, y) => {
                let a = self.variable_registers[x as usize];
                let b = self.variable_registers[y as usize];
                let no_borrow: u8 = if a < b {
                    0
                } else {
                    1
                };
                self.variable_registers[15] = no_borrow;
                self.variable_registers[x as usize] = a.wrapping_sub(b);
                proof {
                    assert(self@ =~~= spec_execute(old(self)@, instr, 0).0);
                    assert(outcome_matches(self@, spec_execute(old(self)@, instr, 0), Ok::<(), Fault>(())));
                }
                Ok(())
            },
            Instruction::ShiftRight(x) => {
                let a = self.variable_registers[x as usize];
                self.variable_registers[x as usize] = a >> 1u8;
                self.variable_registers[15] = a & 1;
                proof {
                    assert(self@ =~~= spec_execute(old(self)@, instr, 0).0);
                    assert(outcome_matches(self@, spec_execute(old(self)@, instr, 0), Ok::<(), Fault>(())));
                }
                Ok(())
            },
            Instruction::SubFrom(x, y) => {
                let a = self.variable_registers[x as usize];
                let b = self.variable_registers[y as usize];
                let no_borrow: u8 = if b < a {
                    0
                } else {
                    1
                };
                self.variable_registers[15] = no_borrow;
                self.variable_registers[x as usize] = b.wrapping_sub(a);
                proof {
                    assert(self@ =~~= spec_execute(old(self)@, instr, 0).0);
                    assert(outcome_matches(self@, spec_execute(old(self)@, instr, 0), Ok::<(), Fault>(())));
                }
                Ok(())
            },
            Instruction::ShiftLeft(x) => {
                let a = self.variable_registers[x as usize];
                self.variable_registers[x as usize] = a << 1u8;
                self.variable_registers[15] = a >> 7u8;
                proof {
                    assert(self@ =~~= spec_execute(old(self)@, instr, 0).0);
                    assert(outcome_matches(self@, spec_execute(old(self)@, instr, 0), Ok::<(), Fault>(())));
                }
                Ok(())
            },
            Instruction::SetIndex(a) => {
                self.i_register = a;
                proof {
                    assert(self@ =~~= spec_execute(old(self)@, instr, 0).0);
                    assert(outcome_matches(self@, spec_execute(old(self)@, instr, 0), Ok::<(), Fault>(())));
                }
                Ok(())
            },
            Instruction::JumpOffset(a) => {
                self.pc = a + (self.variable_registers[0] as u16);
                proof {
                    assert(self@ =~~= spec_execute(old(self)@, instr, 0).0);
                    assert(outcome_matches(self@, spec_execute(old(self)@, instr, 0), Ok::<(), Fault>(())));
                }
                Ok(())
            },
            Instruction::Rand(x, nn) => {
                let rb = random_byte();
                self.variable_registers[x as usize] = nn & rb;
                proof {
                    assert(self@ =~~= spec_execute(old(self)@, instr, rb).0);
                    assert(outcome_matches(self@, spec_execute(old(self)@, instr, rb), Ok(())));
                }
                Ok(())
            },
            Instruction::Draw(x, y, n) => {
                let x_cord = self.variable_registers[x as usize] % 64;
                let y_cord = self.variable_registers[y as usize] % 32;
                self.variable_registers[15] = 0;
                self.draw_sprite_to_display(n, x_cord, y_cord);
                proof {
                    assert(self@ =~~= spec_execute(old(self)@, instr, 0).0);
                    assert(outcome_matches(self@, spec_execute(old(self)@, instr, 0), Ok::<(), Fault>(())));
                }
                Ok(())
            },
            Instruction::SkipKeyDown(x) => {
                let key = self.variable_registers[x as usize] % 16;
                if self.key_states[key as usize] {
                    self.pc = self.pc.wrapping_add(2);
                }
                proof {
                    assert(self@ =~~= spec_execute(old(self)@, instr, 0).0);
                    assert(outcome_matches(self@, spec_execute(old(self)@, instr, 0), Ok::<(), Fault>(())));
                }
                Ok(())
            },
            Instruction::SkipKeyUp(x) => {
                let key = self.variable_registers[x as usize] % 16;
                if !self.key_states[key as usize] {
                    self.pc = self.pc.wrapping_add(2);
                }
                proof {
                    assert(self@ =~~= spec_execute(old(self)@, instr, 0).0);
                    assert(outcome_matches(self@, spec_execute(old(self)@, instr, 0), Ok::<(), Fault>(())));
                }
                Ok(())
            },
            Instruction::ReadDelay(x) => {
                self.variable_registers[x as usize] = self.timers.dt_register;
                proof {
                    assert(self@ =~~= spec_execute(old(self)@, instr, 0).0);
                    assert(outcome_matches(self@, spec_execute(old(self)@, instr, 0), Ok::<(), Fault>(())));
                }
                Ok(())
            },
            Instruction::WaitKey(x) => {
                let mut idx: usize = 0;
                while idx < 16 && !self.key_states[idx]
                    invariant
                        idx <= 16,
                        self == old(self),
                        forall|j: int| 0 <= j < idx ==> !self@.keys[j],
                        idx < 16 ==> self@.keys[idx as int] == self.key_states@[idx as int],
                    decreases 16 - idx,
                {
                    idx = idx + 1;
                }
                if idx < 16 {
                    proof {
                        crate::semantics::lemma_first_key_found(self@.keys, 0, idx as int);
                    }
                    self.variable_registers[x as usize] = idx as u8;
                } else {
                    proof {
                        crate::semantics::lemma_first_key_none(self@.keys, 0);
                    }
                    self.pc = self.pc.wrapping_sub(2);
                }
                proof {
                    assert(self@ =~~= spec_execute(old(self)@, instr, 0).0);
                    assert(outcome_matches(self@, spec_execute(old(self)@, instr, 0), Ok::<(), Fault>(())));
                }
                Ok(())
            },
            Instruction::SetDelay(x) => {
                self.timers.dt_register = self.variable_registers[x as usize];
                proof {
                    assert(self@ =~~= spec_execute(old(self)@, instr, 0).0);
                    assert(outcome_matches(self@, spec_execute(old(self)@, instr, 0), Ok::<(), Fault>(())));
                }
                Ok(())
            },
            Instruction::SetSound(x) => {
                self.timers.st_register = self.variable_registers[x as usize];
                proof {
                    assert(self@ =~~= spec_execute(old(self)@, instr, 0).0);
                    assert(outcome_matches(self@, spec_execute(old(self)@, instr, 0), Ok::<(), Fault>(())));
                }
                Ok(())
            },
            Instruction::AddIndex(x) => {
                let v = self.variable_registers[x as usize];
                self.i_register = self.i_register.wrapping_add(v as u16);
                proof {
                    assert(self@ =~~= spec_execute(old(self)@, instr, 0).0);
                    assert(outcome_matches(self@, spec_execute(old(self)@, instr, 0), Ok::<(), Fault>(())));
                }
                Ok(())
            },
            Instruction::FontChar(x) => {
                self.point_i_to_character(x);
                proof {
                    assert(self@ =~~= spec_execute(old(self)@, instr, 0).0);
                    assert(outcome_matches(self@, spec_execute(old(self)@, instr, 0), Ok::<(), Fault>(())));
                }
                Ok(())
            },
            Instruction::StoreDigits(x) => {
                let v = self.variable_registers[x as usize];
                let i0 = self.i_register as usize;
                self.memory[(i0 + 2) % 4096] = v % 10;
                self.memory[(i0 + 1) % 4096] = (v / 10) % 10;
                self.memory[i0 % 4096] = v / 100;
                proof {
                    assert(self@ =~~= spec_execute(old(self)@, instr, 0).0);
                    assert(outcome_matches(self@, spec_execute(old(self)@, instr, 0), Ok::<(), Fault>(())));
                }
                Ok(())
            },
            Instruction::StoreRegs(x) => {
                let cnt = (x as usize) + 1;
                let mut k: usize = 0;
                while k < cnt
                    invariant
                        old(self).wf(),
                        cnt == x + 1,
                        cnt <= 16,
                        k <= cnt,
                        self.wf(),
                        self@ == (VmState { memory: self@.memory, ..old(self)@ }),
                        self@.memory == stored_mem(
                            old(self)@.memory,
                            old(self)@.regs,
                            old(self)@.i,
                            k as int,
                        ),
                    decreases cnt - k,
                {
                    let addr = ((self.i_register as usize) + k) % 4096;
                    self.memory[addr] = self.variable_registers[k];
                    k = k + 1;
                }
                proof {
                    assert(self@ =~~= spec_execute(old(self)@, instr, 0).0);
                    assert(outcome_matches(self@, spec_execute(old(self)@, instr, 0), Ok::<(), Fault>(())));
                }
                Ok(())
            },
            Instruction::LoadRegs(x) => {
                let cnt = (x as usize) + 1;
                let mut k: usize = 0;
                while k < cnt
                    invariant
                        old(self).wf(),
                        cnt == x + 1,
                        cnt <= 16,
                        k <= cnt,
                        self.wf(),
                        self@ == (VmState { regs: self@.regs, ..old(self)@ }),
                        self@.regs == loaded_regs(
                            old(self)@.regs,
                            old(self)@.memory,
                            old(self)@.i,
                            k as int,
                        ),
                    decreases cnt - k,
                {
                    let addr = ((self.i_register as usize) + k) % 4096;
                    self.variable_registers[k] = self.memory[addr];
                    k = k + 1;
                }
                proof {
                    assert(self@ =~~= spec_execute(old(self)@, instr, 0).0);
                    assert(outcome_matches(self@, spec_execute(old(self)@, instr, 0), Ok::<(), Fault>(())));
                }
                Ok(())
            },
            Instruction::Unknown => {
                proof {
                    assert(self@ =~~= spec_execute(old(self)@, instr, 0).0);
                    assert(outcome_matches(self@, spec_execute(old(self)@, instr, 0), Ok::<(), Fault>(())));
                }
                Ok(())
            },
        }
    }

    /// Decode and execute one raw opcode.
    pub fn execute_opcode(&mut self, opcode: u16) -> (r: Result<(), Fault>)
        requires
            old(self).wf(),
        ensures
            final(self).wf(),
            exists|rnd: u8|
                #[trigger] outcome_matches(
                    final(self)@,
                    spec_execute(old(self)@, spec_decode(opcode), rnd),
                    r,
                ),
            !(spec_decode(opcode) is Rand) ==> outcome_matches(
                final(self)@,
                spec_execute(old(self)@, spec_decode(opcode), 0),
                r,
            ),
    {
        let instr = decode(opcode);
        self.execute_instr(instr)
    }

    /// One fetch-decode-execute cycle.
    #[verifier::rlimit(60)]
    pub fn step(&mut self) -> (r: Result<(), Fault>)
        requires
            old(self).wf(),
        ensures
            final(self).wf(),
            exists|rnd: u8|
                #[trigger] outcome_matches(final(self)@, spec_step(old(self)@, rnd), r),
            !(spec_decode(spec_fetch(old(self)@).0) is Rand) ==> outcome_matches(
                final(self)@,
                spec_step(old(self)@, 0),
                r,
            ),
    {
        let opcode = self.fetch_opcode();
        let ghost mid = self@;
        let r = self.execute_opcode(opcode);
        proof {
            let rnd = choose|rnd: u8|
                outcome_matches(self@, spec_execute(mid, spec_decode(opcode), rnd), r);
            assert(outcome_matches(self@, spec_step(old(self)@, rnd), r));
            if !(spec_decode(opcode) is Rand) {
                assert(outcome_matches(self@, spec_step(old(self)@, 0), r));
            }
        }
        r
    }

    /// Point the index register at the 5-byte font glyph for the digit in
    /// the low nibble of register `x`: the glyphs sit 5 bytes apart from
    /// 0x050 on.
    fn point_i_to_character(&mut self, x: u8)
        requires
            old(self).wf(),
            x < 16,
        ensures
            final(self).wf(),
            final(self)@ == (VmState {
                i: (0x50 + 5 * (old(self)@.regs[x as int] % 16)) as u16,
                ..old(self)@
            }),
    {
        let c = self.variable_registers[x as usize] % 16;
        self.i_register = 0x50 + 5 * (c as u16);
        proof {
            assert(self@ =~~= (VmState {
                i: (0x50 + 5 * (old(self)@.regs[x as int] % 16)) as u16,
                ..old(self)@
            }));
        }
    }

    /// XOR-blit an `n`-row sprite, read from memory at `I`, onto the
    /// framebuffer at `(x_cord, y_cord)`, clipping at the right and bottom
    /// edges. The flag register becomes 1 if any lit pixel is turned off,
    /// and is otherwise left alone.
    fn draw_sprite_to_display(&mut self, n: u8, x_cord: u8, y_cord: u8)
        requires
            old(self).wf(),
            n < 16,
            x_cord < 64,
            y_cord < 32,
        ensures
            final(self).wf(),
            ({
                let sprite = sprite_seq(old(self)@.memory, old(self)@.i, n as nat);
                let coll = draw_collision(old(self)@.fb, sprite, x_cord as int, y_cord as int);
                final(self)@ == (VmState {
                    fb: drawn_fb(old(self)@.fb, sprite, x_cord as int, y_cord as int),
                    regs: if coll {
                        old(self)@.regs.update(15, 1u8)
                    } else {
                        old(self)@.regs
                    },
                    ..old(self)@
                })
            }),
    {
        let ghost pre = self@;
        let ghost sprite = sprite_seq(pre.memory, pre.i, n as nat);
        let x0 = x_cord as usize;
        let y0 = y_cord as usize;
        let rows: usize = if (n as usize) < 32 - y0 {
            n as usize
        } else {
            32 - y0
        };
        let cols: usize = if 64 - x0 > 8 {
            8
        } else {
            64 - x0
        };
        let mut row: usize = 0;
        while row < rows
            invariant
                self.wf(),
                pre == old(self)@,
                sprite == sprite_seq(pre.memory, pre.i, n as nat),
                sprite.len() == n,
                n < 16,
                x0 == x_cord as int,
                y0 == y_cord as int,
                x0 < 64,
                y0 < 32,
                rows == if (n as int) < 32 - y0 {
                    n as int
                } else {
                    32 - y0
                },
                cols == if 64 - x0 > 8 {
                    8int
                } else {
                    64 - x0
                },
                row <= rows,
                self@ == (VmState { fb: self@.fb, regs: self@.regs, ..pre }),
                forall|py: int, px: int|
                    0 <= py < 32 && 0 <= px < 64 ==> #[trigger] self@.fb[py][px] == (if draw_visited(
                        x0 as int,
                        y0 as int,
                        row as int,
                        0,
                        px,
                        py,
                    ) && draw_hits(sprite, x0 as int, y0 as int, px, py) {
                        !pre.fb[py][px]
                    } else {
                        pre.fb[py][px]
                    }),
                self@.regs == (if coll_partial(pre.fb, sprite, x0 as int, y0 as int, row as int, 0) {
                    pre.regs.update(15, 1u8)
                } else {
                    pre.regs
                }),
            decreases rows - row,
        {
            let yy = y0 + row;
            let sprite_byte = self.memory[((self.i_register as usize) + row) % 4096];
            proof {
                assert(sprite_byte == sprite[row as int]);
            }
            let mut col: usize = 0;
            while col < cols
                invariant
                    self.wf(),
                    pre == old(self)@,
                    sprite == sprite_seq(pre.memory, pre.i, n as nat),
                    sprite.len() == n,
                    n < 16,
                    x0 == x_cord as int,
                    y0 == y_cord as int,
                    x0 < 64,
                    y0 < 32,
                    rows == if (n as int) < 32 - y0 {
                        n as int
                    } else {
                        32 - y0
                    },
                    cols == if 64 - x0 > 8 {
                        8int
                    } else {
                        64 - x0
                    },
                    row < rows,
                    yy == y0 + row,
                    sprite_byte == sprite[row as int],
                    col <= cols,
                    self@ == (VmState { fb: self@.fb, regs: self@.regs, ..pre }),
                    forall|py: int, px: int|
                        0 <= py < 32 && 0 <= px < 64 ==> #[trigger] self@.fb[py][px] == (
                        if draw_visited(x0 as int, y0 as int, row as int, col as int, px, py)
                            && draw_hits(sprite, x0 as int, y0 as int, px, py) {
                            !pre.fb[py][px]
                        } else {
                            pre.fb[py][px]
                        }),
                    self@.regs == (if coll_partial(
                        pre.fb,
                        sprite,
                        x0 as int,
                        y0 as int,
                        row as int,
                        col as int,
                    ) {
                        pre.regs.update(15, 1u8)
                    } else {
                        pre.regs
                    }),
                decreases cols - col,
            {
                let sh: u8 = (7 - col) as u8;
                let pixel_bit = (sprite_byte >> sh) & 1;
                let xx = x0 + col;
                proof {
                    assert((pixel_bit == 1) == sprite_bit(sprite[row as int], col as int));
                }
                let ghost fb0 = self@.fb;
                let mut rowarr = self.display.frame_buffer[yy];
                proof {
                    assert(rowarr@ =~= fb0[yy as int]);
                    assert(!draw_visited(x0 as int, y0 as int, row as int, col as int, xx as int, yy as int));
                    assert(fb0[yy as int][xx as int] == pre.fb[yy as int][xx as int]);
                }
                if pixel_bit == 1 && rowarr[xx] {
                    rowarr[xx] = false;
                    self.display.frame_buffer[yy] = rowarr;
                    self.variable_registers[15] = 1;
                    proof {
                        assert(draw_hits(sprite, x0 as int, y0 as int, xx as int, yy as int));
                        assert(pre.fb[yy as int][xx as int]);
                        assert(draw_visited(x0 as int, y0 as int, row as int, col + 1, xx as int, yy as int));
                        assert(coll_partial(
                            pre.fb,
                            sprite,
                            x0 as int,
                            y0 as int,
                            row as int,
                            col + 1,
                        ));
                    }
                } else if pixel_bit == 1 {
                    rowarr[xx] = true;
                    self.display.frame_buffer[yy] = rowarr;
                }
                proof {
                    assert forall|py: int| 0 <= py < 32 && py != yy implies self@.fb[py] == fb0[py] by {
                    }
                    assert forall|px: int| 0 <= px < 64 && px != xx implies self@.fb[yy as int][px]
                        == fb0[yy as int][px] by {
                    }
                    assert(self@.fb[yy as int][xx as int] == (if pixel_bit == 1 {
                        !fb0[yy as int][xx as int]
                    } else {
                        fb0[yy as int][xx as int]
                    }));
                    assert forall|py: int, px: int| 0 <= py < 32 && 0 <= px < 64 implies #[trigger] self@.fb[py][px]
                        == (if draw_visited(x0 as int, y0 as int, row as int, col + 1, px, py)
                            && draw_hits(sprite, x0 as int, y0 as int, px, py) {
                            !pre.fb[py][px]
                        } else {
                            pre.fb[py][px]
                        }) by {
                        if py == yy as int && px == xx as int {
                            assert(draw_visited(x0 as int, y0 as int, row as int, col + 1, px, py));
                            assert(draw_hits(sprite, x0 as int, y0 as int, px, py) == (pixel_bit
                                == 1));
                        } else {
                            assert(self@.fb[py][px] == fb0[py][px]);
                            assert(draw_visited(x0 as int, y0 as int, row as int, col + 1, px, py)
                                == draw_visited(x0 as int, y0 as int, row as int, col as int, px, py));
                        }
                    }
                    if !coll_partial(pre.fb, sprite, x0 as int, y0 as int, row as int, col + 1) {
                        assert(!coll_partial(
                            pre.fb,
                            sprite,
                            x0 as int,
                            y0 as int,
                            row as int,
                            col as int,
                        ));
                    }
                }
                col = col + 1;
            }
            proof {
                lemma_coll_row_roll(pre.fb, sprite, x0 as int, y0 as int, row as int, cols as int);
                assert forall|py: int, px: int| 0 <= py < 32 && 0 <= px < 64 implies #[trigger] self@.fb[py][px]
                    == (if draw_visited(x0 as int, y0 as int, row + 1, 0, px, py) && draw_hits(
                        sprite,
                        x0 as int,
                        y0 as int,
                        px,
                        py,
                    ) {
                        !pre.fb[py][px]
                    } else {
                        pre.fb[py][px]
                    }) by {
                    assert((draw_visited(x0 as int, y0 as int, row + 1, 0, px, py) && draw_hits(
                        sprite,
                        x0 as int,
                        y0 as int,
                        px,
                        py,
                    )) == (draw_visited(x0 as int, y0 as int, row as int, cols as int, px, py)
                        && draw_hits(sprite, x0 as int, y0 as int, px, py)));
                }
            }
            row = row + 1;
        }
        proof {
            lemma_coll_full(pre.fb, sprite, x_cord as int, y_cord as int, rows as int);
            let coll = draw_collision(pre.fb, sprite, x_cord as int, y_cord as int);
            assert forall|py: int| 0 <= py < 32 implies self@.fb[py] =~= drawn_fb(
                pre.fb,
                sprite,
                x_cord as int,
                y_cord as int,
            )[py] by {
                assert forall|px: int| 0 <= px < 64 implies self@.fb[py][px] == drawn_fb(
                    pre.fb,
                    sprite,
                    x_cord as int,
                    y_cord as int,
                )[py][px] by {
                    assert(self@.fb[py][px] == (if draw_visited(
                        x_cord as int,
                        y_cord as int,
                        rows as int,
                        0,
                        px,
                        py,
                    ) && draw_hits(sprite, x_cord as int, y_cord as int, px, py) {
                        !pre.fb[py][px]
                    } else {
                        pre.fb[py][px]
                    }));
                }
            }
            assert(self@.fb =~~= drawn_fb(pre.fb, sprite, x_cord as int, y_cord as int));
            assert(self@ =~~= (VmState {
                fb: drawn_fb(pre.fb, sprite, x_cord as int, y_cord as int),
                regs: if draw_collision(pre.fb, sprite, x_cord as int, y_cord as int) {
                    pre.regs.update(15, 1u8)
                } else {
                    pre.regs
                },
                ..pre
            }));
        }
    }

    /// Run one frame: execute the fixed instruction budget, then replace
    /// the keypad snapshot and decrement both timers once. A fault stops
    /// the frame at once and is reported, leaving the machine as the
    /// faulting step left it.
    pub fn run_frame(&mut self, keys: [bool; 16]) -> (r: Result<(), Fault>)
        requires
            old(self).wf(),
        ensures
            final(self).wf(),
            exists|rs: Seq<u8>|
                rs.len() == INSTRUCTIONS_PER_FRAME && #[trigger] frame_matches(
                    old(self)@,
                    final(self)@,
                    rs,
                    keys@,
                    r,
                ),
    {
        let ghost pre = self@;
        let ghost mut trace: Seq<u8> = Seq::empty();
        let mut j: usize = 0;
        while j < INSTRUCTIONS_PER_FRAME
            invariant
                self.wf(),
                pre == old(self)@,
                j <= INSTRUCTIONS_PER_FRAME,
                trace.len() == j,
                spec_run_steps(pre, trace, j as nat).0 == self@,
                spec_run_steps(pre, trace, j as nat).1 is None,
            decreases INSTRUCTIONS_PER_FRAME - j,
        {
            let ghost mid = self@;
            let res = self.step();
            proof {
                let rnd = choose|rnd: u8| outcome_matches(self@, spec_step(mid, rnd), res);
                lemma_run_steps_congruence(pre, trace, trace.push(rnd), j as nat);
                trace = trace.push(rnd);
                assert(trace[j as int] == rnd);
                assert(spec_run_steps(pre, trace, (j + 1) as nat) == spec_step(mid, rnd));
            }
            match res {
                Err(e) => {
                    proof {
                        let pad = Seq::new(
                            (INSTRUCTIONS_PER_FRAME - j - 1) as nat,
                            |q: int| 0u8,
                        );
                        let rs_full = trace + pad;
                        assert(forall|q: int|
                            0 <= q < trace.len() ==> rs_full[q] == trace[q]);
                        lemma_run_steps_congruence(pre, trace, rs_full, (j + 1) as nat);
                        lemma_run_steps_fault_stays(
                            pre,
                            rs_full,
                            (j + 1) as nat,
                            INSTRUCTIONS_PER_FRAME as nat,
                        );
                        assert(rs_full.len() == INSTRUCTIONS_PER_FRAME);
                        assert(frame_matches(pre, self@, rs_full, keys@, res));
                    }
                    return Err(e);
                },
                Ok(_) => {},
            }
            j = j + 1;
        }
        self.update_keys(keys);
        self.tick_timers();
        proof {
            let s1 = spec_run_steps(pre, trace, trace.len()).0;
            assert(self@ =~~= frame_end(s1, keys@));
            assert(frame_matches(pre, self@, trace, keys@, Ok::<(), Fault>(())));
        }
        Ok(())
    }

    /// Read one variable register.
    pub fn reg(&self, x: u8) -> (v: u8)
        requires
            x < 16,
        ensures
            v == self@.regs[x as int],
    {
        self.variable_registers[x as usize]
    }

    /// The current program counter.
    pub fn pc(&self) -> (v: u16)
        ensures
            v == self@.pc,
    {
        self.pc
    }

    /// The current index register.
    pub fn index_register(&self) -> (v: u16)
        ensures
            v == self@.i,
    {
        self.i_register
    }

    /// The current delay timer.
    pub fn delay_timer(&self) -> (v: u8)
        ensures
            v == self@.delay,
    {
        self.timers.dt_register
    }

    /// The current sound timer.
    pub fn sound_timer(&self) -> (v: u8)
        ensures
            v == self@.sound,
    {
        self.timers.st_register
    }

    /// Read one memory cell; the address is masked into the memory range.
    pub fn read_memory(&self, addr: u16) -> (b: u8)
        ensures
            b == mem_at(self@.memory, addr as int),
    {
        self.memory[(addr as usize) % 4096]
    }

    /// How many return addresses the call stack currently holds.
    pub fn stack_depth(&self) -> (d: usize)
        requires
            self.wf(),
        ensures
            d == self@.stack.len(),
    {
        self.stack.len()
    }

    /// Read one pixel of the framebuffer.
    pub fn pixel(&self, x: usize, y: usize) -> (p: bool)
        requires
            x < 64,
            y < 32,
        ensures
            p == self@.fb[y as int][x as int],
    {
        self.display.pixel(x, y)
    }

    /// The framebuffer, for a renderer.
    pub fn display(&self) -> (d: &Display)
        ensures
            d@ == self@.fb,
    {
        &self.display
    }
}

} // verus!
