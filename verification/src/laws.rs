//! Laws of the instruction semantics: properties that hold of every machine
//! state, proved once and for all.
use crate::Fault;
use crate::decode::Instruction;
use crate::decode::spec_decode;
use crate::semantics::VmState;
use crate::semantics::draw_collision;
use crate::semantics::draw_hits;
use crate::semantics::drawn_fb;
use crate::semantics::lemma_first_key_none;
use crate::semantics::spec_execute;
use crate::semantics::spec_fetch;
use crate::semantics::spec_step;
use crate::semantics::sprite_seq;
use crate::semantics::state_wf;
use crate::semantics::wrap16;
use crate::semantics::wrap8;
use vstd::prelude::*;

verus! {

/// Setting a register to an immediate yields exactly that immediate in the
/// register, for every register, every immediate and every starting state.
pub proof fn lemma_set_imm_read_back(s: VmState, x: u8, nn: u8, rnd: u8)
    requires
        state_wf(s),
        x < 16,
    ensures
        spec_execute(s, Instruction::SetImm(x, nn), rnd).0.regs[x as int] == nn,
        spec_execute(s, Instruction::SetImm(x, nn), rnd).1 is None,
{
}

/// Adding an immediate to a register wraps around eight bits and touches
/// no flag: every other register, the flag register included, stays as it
/// was.
pub proof fn lemma_add_imm_wraps_no_flag(s: VmState, x: u8, nn: u8, rnd: u8)
    requires
        state_wf(s),
        x < 16,
        x != 15,
    ensures
        spec_execute(s, Instruction::AddImm(x, nn), rnd).0.regs[x as int] == wrap8(
            s.regs[x as int] + nn,
        ),
        spec_execute(s, Instruction::AddImm(x, nn), rnd).0.regs[15] == s.regs[15],
        spec_execute(s, Instruction::AddImm(x, nn), rnd).1 is None,
{
}

/// A call followed by a return restores the program counter to the
/// instruction after the call site and leaves the call stack as it was,
/// whenever the stack has room — so calls nest to depth 16; a call with
/// all 16 slots in use is a fault that changes nothing.
pub proof fn lemma_call_return_round_trip(s: VmState, a: u16, r1: u8, r2: u8)
    requires
        state_wf(s),
    ensures
        s.stack.len() < 16 ==> ({
            let called = spec_execute(s, Instruction::Call(a), r1);
            let returned = spec_execute(called.0, Instruction::Return, r2);
            &&& called.1 is None
            &&& called.0.pc == a
            &&& returned.1 is None
            &&& returned.0.pc == s.pc
            &&& returned.0.stack == s.stack
        }),
        s.stack.len() == 16 ==> spec_execute(s, Instruction::Call(a), r1) == (
            s,
            Some(Fault::StackOverflow),
        ),
{
    if s.stack.len() < 16 {
        assert(s.stack.push(s.pc).drop_last() =~= s.stack);
    }
}

/// Drawing the same sprite at the same location twice restores the
/// framebuffer that stood before the first draw: the second blit flips back
/// exactly the pixels the first one flipped. The second draw reports a
/// collision precisely when some in-bounds sprite pixel was dark before —
/// that is, when the first draw lit anything.
pub proof fn lemma_draw_double_xor(s: VmState, x: u8, y: u8, n: u8, r1: u8, r2: u8)
    requires
        state_wf(s),
        x < 16,
        y < 16,
        x != 15,
        y != 15,
        n < 16,
    ensures
        ({
            let x0 = (s.regs[x as int] % 64) as int;
            let y0 = (s.regs[y as int] % 32) as int;
            let sprite = sprite_seq(s.memory, s.i, n as nat);
            let once = spec_execute(s, Instruction::Draw(x, y, n), r1).0;
            let twice = spec_execute(once, Instruction::Draw(x, y, n), r2).0;
            &&& twice.fb == s.fb
            &&& twice.regs[15] == (if exists|px: int, py: int|
                0 <= px < 64 && 0 <= py < 32 && #[trigger] draw_hits(sprite, x0, y0, px, py)
                    && !s.fb[py][px] {
                1u8
            } else {
                0u8
            })
        }),
{
    let x0 = (s.regs[x as int] % 64) as int;
    let y0 = (s.regs[y as int] % 32) as int;
    let sprite = sprite_seq(s.memory, s.i, n as nat);
    let once = spec_execute(s, Instruction::Draw(x, y, n), r1).0;
    let twice = spec_execute(once, Instruction::Draw(x, y, n), r2).0;
    assert(once.fb == drawn_fb(s.fb, sprite, x0, y0));
    assert(once.memory == s.memory && once.i == s.i);
    assert(once.regs[x as int] == s.regs[x as int] && once.regs[y as int] == s.regs[y as int]);
    assert forall|py: int| 0 <= py < 32 implies twice.fb[py] =~= s.fb[py] by {
        assert forall|px: int| 0 <= px < 64 implies twice.fb[py][px] == s.fb[py][px] by {
            assert(once.fb[py][px] == (if draw_hits(sprite, x0, y0, px, py) {
                !s.fb[py][px]
            } else {
                s.fb[py][px]
            }));
        }
    }
    assert(twice.fb =~~= s.fb);
    if exists|px: int, py: int|
        0 <= px < 64 && 0 <= py < 32 && #[trigger] draw_hits(sprite, x0, y0, px, py)
            && !s.fb[py][px] {
        let (px, py) = choose|px: int, py: int|
            0 <= px < 64 && 0 <= py < 32 && #[trigger] draw_hits(sprite, x0, y0, px, py)
                && !s.fb[py][px];
        assert(once.fb[py][px]);
        assert(draw_collision(once.fb, sprite, x0, y0));
    } else {
        if draw_collision(once.fb, sprite, x0, y0) {
            let (px, py) = choose|px: int, py: int|
                0 <= px < 64 && 0 <= py < 32 && #[trigger] draw_hits(sprite, x0, y0, px, py)
                    && once.fb[py][px];
            assert(!s.fb[py][px]);
            assert(false);
        }
    }
}

/// With no key held, the blocking key-wait instruction leaves the machine
/// exactly where it was: the fetch advances the program counter and the
/// instruction rewinds it, so stepping any number of times does not move
/// past it until a key is held.
pub proof fn lemma_wait_key_blocks(s: VmState, rnd: u8)
    requires
        state_wf(s),
        spec_decode(spec_fetch(s).0) is WaitKey,
        forall|k: int| 0 <= k < 16 ==> !s.keys[k],
    ensures
        spec_step(s, rnd) == (s, None::<Fault>),
{
    lemma_first_key_none(s.keys, 0);
    assert(wrap16(wrap16(s.pc + 2) - 2) == s.pc);
    assert(spec_step(s, rnd).0 =~~= s);
}

/// Stepping the blocking key-wait twice in a row with no key held still
/// leaves the program counter (and the whole machine) where it was: the
/// program does not advance until a key becomes held.
pub proof fn lemma_wait_key_blocks_twice(s: VmState, r1: u8, r2: u8)
    requires
        state_wf(s),
        spec_decode(spec_fetch(s).0) is WaitKey,
        forall|k: int| 0 <= k < 16 ==> !s.keys[k],
    ensures
        spec_step(spec_step(s, r1).0, r2).0 == s,
        spec_step(spec_step(s, r1).0, r2).0.pc == s.pc,
{
    lemma_wait_key_blocks(s, r1);
    lemma_wait_key_blocks(s, r2);
}

} // verus!
