//! The mathematical model of the machine: an abstract state, and the exact
//! effect of fetching and of executing each instruction on it.
use crate::Fault;
use crate::decode::Instruction;
use crate::decode::spec_decode;
use vstd::prelude::*;

verus! {

/// The abstract machine state: every component the instructions read or
/// write, as plain mathematical values.
#[verifier::ext_equal]
pub ghost struct VmState {
    /// 4096 bytes of addressable memory.
    pub memory: Seq<u8>,
    /// The 64x32 monochrome framebuffer, as 32 rows of 64 pixel states.
    pub fb: Seq<Seq<bool>>,
    /// The program counter.
    pub pc: u16,
    /// The index register `I`.
    pub i: u16,
    /// The call stack of return addresses, bottom first.
    pub stack: Seq<u16>,
    /// The delay timer.
    pub delay: u8,
    /// The sound timer.
    pub sound: u8,
    /// The 16 variable registers `V[0]..V[0xF]`.
    pub regs: Seq<u8>,
    /// Which of the 16 logical keys are currently held.
    pub keys: Seq<bool>,
}

/// Every component has its fixed size, and the call stack respects its
/// capacity.
pub open spec fn state_wf(s: VmState) -> bool {
    &&& s.memory.len() == 4096
    &&& s.fb.len() == 32
    &&& forall|y: int| 0 <= y < 32 ==> (#[trigger] s.fb[y]).len() == 64
    &&& s.regs.len() == 16
    &&& s.keys.len() == 16
    &&& s.stack.len() <= 16
}

/// Addition truncated to 16 bits (the result of `v` taken modulo 2^16, for
/// any `v` within one wrap of the 16-bit range).
pub open spec fn wrap16(v: int) -> u16 {
    if v > 0xFFFF {
        (v - 0x10000) as u16
    } else if v < 0 {
        (v + 0x10000) as u16
    } else {
        v as u16
    }
}

/// Arithmetic truncated to 8 bits (the result of `v` taken modulo 2^8, for
/// any `v` within one wrap of the 8-bit range).
pub open spec fn wrap8(v: int) -> u8 {
    if v > 0xFF {
        (v - 0x100) as u8
    } else if v < 0 {
        (v + 0x100) as u8
    } else {
        v as u8
    }
}

/// Every memory access masks its address into the 4096-byte range; no access
/// is ever out of bounds.
pub open spec fn mem_at(mem: Seq<u8>, a: int) -> u8 {
    mem[a % 4096]
}

/// An all-dark framebuffer.
pub open spec fn blank_fb() -> Seq<Seq<bool>> {
    Seq::new(32, |y: int| Seq::new(64, |x: int| false))
}

/// The state with register `x` set to `v`.
pub open spec fn with_reg(s: VmState, x: int, v: u8) -> VmState {
    VmState { regs: s.regs.update(x, v), ..s }
}

/// The state with the next instruction skipped when `c` holds.
pub open spec fn skip_if(s: VmState, c: bool) -> VmState {
    if c {
        VmState { pc: wrap16(s.pc + 2), ..s }
    } else {
        s
    }
}

/// Bit `k` of a sprite byte, most significant first (`k` in 0..8).
pub open spec fn sprite_bit(b: u8, k: int) -> bool {
    (b >> ((7 - k) as u8)) & 1 == 1
}

/// The `n` sprite bytes at memory addresses `I`, `I+1`, ..., masked into
/// the memory range.
pub open spec fn sprite_seq(mem: Seq<u8>, i: u16, n: nat) -> Seq<u8> {
    Seq::new(n, |r: int| mem_at(mem, i + r))
}

/// Whether pixel `(px, py)` lies in the drawn region of a sprite blitted at
/// `(x0, y0)`: covered by a sprite row, within the first 8 columns, with the
/// sprite bit set. Rows and columns never wrap past the framebuffer edge.
pub open spec fn draw_hits(sprite: Seq<u8>, x0: int, y0: int, px: int, py: int) -> bool {
    &&& y0 <= py < y0 + sprite.len()
    &&& x0 <= px < x0 + 8
    &&& sprite_bit(sprite[py - y0], px - x0)
}

/// The framebuffer after XOR-blitting `sprite` at `(x0, y0)`: each hit pixel
/// flips, every other pixel keeps its state.
pub open spec fn drawn_fb(fb0: Seq<Seq<bool>>, sprite: Seq<u8>, x0: int, y0: int) -> Seq<
    Seq<bool>,
> {
    Seq::new(
        32,
        |py: int|
            Seq::new(
                64,
                |px: int|
                    if draw_hits(sprite, x0, y0, px, py) {
                        !fb0[py][px]
                    } else {
                        fb0[py][px]
                    },
            ),
    )
}

/// Whether blitting `sprite` at `(x0, y0)` turns any lit pixel off: some
/// in-bounds pixel is hit while already lit.
pub open spec fn draw_collision(fb0: Seq<Seq<bool>>, sprite: Seq<u8>, x0: int, y0: int) -> bool {
    exists|px: int, py: int|
        0 <= px < 64 && 0 <= py < 32 && #[trigger] draw_hits(sprite, x0, y0, px, py) && fb0[py][px]
}

/// Whether a pixel has been visited once the blit has finished every sprite
/// row before `r` and, on row `r` itself, every column before `c`.
pub open spec fn draw_visited(x0: int, y0: int, r: int, c: int, px: int, py: int) -> bool {
    py < y0 + r || (py == y0 + r && px < x0 + c)
}

/// Whether the blit has turned a lit pixel off within the visited region:
/// every sprite row before `r`, and the first `c` columns of row `r`.
pub open spec fn coll_partial(
    fb0: Seq<Seq<bool>>,
    sprite: Seq<u8>,
    x0: int,
    y0: int,
    r: int,
    c: int,
) -> bool {
    exists|px: int, py: int|
        0 <= px < 64 && 0 <= py < 32 && draw_visited(x0, y0, r, c, px, py) && #[trigger] draw_hits(
            sprite,
            x0,
            y0,
            px,
            py,
        ) && fb0[py][px]
}

/// Finishing a row's in-bounds columns visits exactly as much as starting
/// the next row: every hit pixel of a row lies among its first
/// `min(8, 64 - x0)` columns.
pub proof fn lemma_coll_row_roll(
    fb0: Seq<Seq<bool>>,
    sprite: Seq<u8>,
    x0: int,
    y0: int,
    r: int,
    cols: int,
)
    requires
        0 <= x0 < 64,
        cols == if 64 - x0 > 8 {
            8int
        } else {
            64 - x0
        },
    ensures
        coll_partial(fb0, sprite, x0, y0, r + 1, 0) == coll_partial(fb0, sprite, x0, y0, r, cols),
{
    if coll_partial(fb0, sprite, x0, y0, r + 1, 0) {
        let (px, py) = choose|px: int, py: int|
            0 <= px < 64 && 0 <= py < 32 && draw_visited(x0, y0, r + 1, 0, px, py)
                && #[trigger] draw_hits(sprite, x0, y0, px, py) && fb0[py][px];
        assert(draw_visited(x0, y0, r, cols, px, py));
    }
    if coll_partial(fb0, sprite, x0, y0, r, cols) {
        let (px, py) = choose|px: int, py: int|
            0 <= px < 64 && 0 <= py < 32 && draw_visited(x0, y0, r, cols, px, py)
                && #[trigger] draw_hits(sprite, x0, y0, px, py) && fb0[py][px];
        assert(draw_visited(x0, y0, r + 1, 0, px, py));
    }
}

/// Once every in-bounds sprite row is visited, a partial collision is the
/// draw's collision: rows clipped at the bottom edge can hit nothing.
pub proof fn lemma_coll_full(fb0: Seq<Seq<bool>>, sprite: Seq<u8>, x0: int, y0: int, rows: int)
    requires
        0 <= y0 < 32,
        rows == if sprite.len() < 32 - y0 {
            sprite.len() as int
        } else {
            32 - y0
        },
    ensures
        coll_partial(fb0, sprite, x0, y0, rows, 0) == draw_collision(fb0, sprite, x0, y0),
{
    if coll_partial(fb0, sprite, x0, y0, rows, 0) {
        let (px, py) = choose|px: int, py: int|
            0 <= px < 64 && 0 <= py < 32 && draw_visited(x0, y0, rows, 0, px, py)
                && #[trigger] draw_hits(sprite, x0, y0, px, py) && fb0[py][px];
        assert(draw_collision(fb0, sprite, x0, y0));
    }
    if draw_collision(fb0, sprite, x0, y0) {
        let (px, py) = choose|px: int, py: int|
            0 <= px < 64 && 0 <= py < 32 && #[trigger] draw_hits(sprite, x0, y0, px, py)
                && fb0[py][px];
        assert(draw_visited(x0, y0, rows, 0, px, py));
    }
}

/// The smallest held key index at or above `k`, if any (keys are scanned in
/// ascending order).
pub open spec fn first_key_from(keys: Seq<bool>, k: int) -> Option<u8>
    decreases 16 - k,
{
    if k < 0 || k >= 16 {
        None
    } else if keys[k] {
        Some(k as u8)
    } else {
        first_key_from(keys, k + 1)
    }
}

/// Memory after storing the first `k` registers `V[0]..V[k-1]` at addresses
/// `I`, `I+1`, ..., each masked into the memory range, in ascending order.
pub open spec fn stored_mem(mem: Seq<u8>, regs: Seq<u8>, i: u16, k: int) -> Seq<u8>
    decreases k,
{
    if k <= 0 {
        mem
    } else {
        stored_mem(mem, regs, i, k - 1).update((i + (k - 1)) % 4096, regs[k - 1])
    }
}

/// Registers after loading the first `k` registers `V[0]..V[k-1]` from
/// addresses `I`, `I+1`, ..., each masked into the memory range, in
/// ascending order.
pub open spec fn loaded_regs(regs: Seq<u8>, mem: Seq<u8>, i: u16, k: int) -> Seq<u8>
    decreases k,
{
    if k <= 0 {
        regs
    } else {
        loaded_regs(regs, mem, i, k - 1).update(k - 1, mem_at(mem, i + (k - 1)))
    }
}

/// The effect of one decoded instruction on the machine state, given the
/// fresh random byte `rnd` the random instruction would draw: the state
/// after the instruction, and the fault if the instruction is a call onto a
/// full stack or a return from an empty one (a faulting instruction leaves
/// the state as it was).
pub open spec fn spec_execute(s: VmState, instr: Instruction, rnd: u8) -> (VmState, Option<
    Fault,
>) {
    match instr {
        Instruction::ClearScreen => (VmState { fb: blank_fb(), ..s }, None),
        Instruction::Return => if s.stack.len() == 0 {
            (s, Some(Fault::StackUnderflow))
        } else {
            (VmState { pc: s.stack.last(), stack: s.stack.drop_last(), ..s }, None)
        },
        Instruction::Jump(a) => (VmState { pc: a, ..s }, None),
        Instruction::Call(a) => if s.stack.len() >= 16 {
            (s, Some(Fault::StackOverflow))
        } else {
            (VmState { pc: a, stack: s.stack.push(s.pc), ..s }, None)
        },
        Instruction::SkipEqImm(x, nn) => (skip_if(s, s.regs[x as int] == nn), None),
        Instruction::SkipNeImm(x, nn) => (skip_if(s, s.regs[x as int] != nn), None),
        Instruction::SkipEqReg(x, y) => (
            skip_if(s, s.regs[x as int] == s.regs[y as int]),
            None,
        ),
        Instruction::SetImm(x, nn) => (with_reg(s, x as int, nn), None),
        Instruction::AddImm(x, nn) => (
            with_reg(s, x as int, wrap8(s.regs[x as int] + nn)),
            None,
        ),
        Instruction::CopyReg(x, y) => (with_reg(s, x as int, s.regs[y as int]), None),
        Instruction::OrReg(x, y) => (
            with_reg(s, x as int, s.regs[x as int] | s.regs[y as int]),
            None,
        ),
        Instruction::AndReg(x, y) => (
            with_reg(s, x as int, s.regs[x as int] & s.regs[y as int]),
            None,
        ),
        Instruction::XorReg(x, y) => (
            with_reg(s, x as int, s.regs[x as int] ^ s.regs[y as int]),
            None,
        ),
        Instruction::AddReg(x, y) => {
            let a = s.regs[x as int];
            let b = s.regs[y as int];
            let carry: u8 = if a + b > 255 {
                1
            } else {
                0
            };
            (VmState { regs: s.regs.update(15, carry).update(x as int, wrap8(a + b)), ..s }, None)
        },
        Instruction::SubReg(x, y) => {
            let a = s.regs[x as int];
            let b = s.regs[y as int];
            let no_borrow: u8 = if a < b {
                0
            } else {
                1
            };
            (
                VmState { regs: s.regs.update(15, no_borrow).update(x as int, wrap8(a - b)), ..s },
                None,
            )
        },
        Instruction::ShiftRight(x) => {
            let a = s.regs[x as int];
            (VmState { regs: s.regs.update(x as int, a >> 1u8).update(15, a & 1), ..s }, None)
        },
        Instruction::SubFrom(x, y) => {
            let a = s.regs[x as int];
            let b = s.regs[y as int];
            let no_borrow: u8 = if b < a {
                0
            } else {
                1
            };
            (
                VmState { regs: s.regs.update(15, no_borrow).update(x as int, wrap8(b - a)), ..s },
                None,
            )
        },
        Instruction::ShiftLeft(x) => {
            let a = s.regs[x as int];
            (VmState { regs: s.regs.update(x as int, a << 1u8).update(15, a >> 7u8), ..s }, None)
        },
        Instruction::SetIndex(a) => (VmState { i: a, ..s }, None),
        Instruction::JumpOffset(a) => (VmState { pc: wrap16(a + s.regs[0]), ..s }, None),
        Instruction::Rand(x, nn) => (with_reg(s, x as int, nn & rnd), None),
        Instruction::Draw(x, y, n) => {
            let x0 = s.regs[x as int] % 64;
            let y0 = s.regs[y as int] % 32;
            let sprite = sprite_seq(s.memory, s.i, n as nat);
            let coll = draw_collision(s.fb, sprite, x0 as int, y0 as int);
            (
                VmState {
                    fb: drawn_fb(s.fb, sprite, x0 as int, y0 as int),
                    regs: s.regs.update(
                        15,
                        if coll {
                            1u8
                        } else {
                            0u8
                        },
                    ),
                    ..s
                },
                None,
            )
        },
        Instruction::SkipKeyDown(x) => (
            skip_if(s, s.keys[(s.regs[x as int] % 16) as int]),
            None,
        ),
        Instruction::SkipKeyUp(x) => (
            skip_if(s, !s.keys[(s.regs[x as int] % 16) as int]),
            None,
        ),
        Instruction::ReadDelay(x) => (with_reg(s, x as int, s.delay), None),
        Instruction::WaitKey(x) => (
            match first_key_from(s.keys, 0) {
                Some(k) => with_reg(s, x as int, k),
                None => VmState { pc: wrap16(s.pc - 2), ..s },
            },
            None,
        ),
        Instruction::SetDelay(x) => (VmState { delay: s.regs[x as int], ..s }, None),
        Instruction::SetSound(x) => (VmState { sound: s.regs[x as int], ..s }, None),
        Instruction::AddIndex(x) => (VmState { i: wrap16(s.i + s.regs[x as int]), ..s }, None),
        Instruction::FontChar(x) => (
            VmState { i: (0x50 + 5 * (s.regs[x as int] % 16)) as u16, ..s },
            None,
        ),
        Instruction::StoreDigits(x) => {
            let v = s.regs[x as int];
            let m = s.memory.update(((s.i + 2) % 4096) as int, (v % 10) as u8).update(
                ((s.i + 1) % 4096) as int,
                ((v / 10) % 10) as u8,
            ).update((s.i % 4096) as int, (v / 100) as u8);
            (VmState { memory: m, ..s }, None)
        },
        Instruction::StoreRegs(x) => (
            VmState { memory: stored_mem(s.memory, s.regs, s.i, x + 1), ..s },
            None,
        ),
        Instruction::LoadRegs(x) => (
            VmState { regs: loaded_regs(s.regs, s.memory, s.i, x + 1), ..s },
            None,
        ),
        Instruction::Unknown => (s, None),
    }
}

/// Fetching combines the two bytes at `pc` big-endian into an opcode and
/// advances `pc` by 2, wrapping.
pub open spec fn spec_fetch(s: VmState) -> (u16, VmState) {
    (
        ((mem_at(s.memory, s.pc as int) as u16) << 8u16) | (mem_at(s.memory, s.pc + 1) as u16),
        VmState { pc: wrap16(s.pc + 2), ..s },
    )
}

/// One fetch-decode-execute cycle, given the random byte a random
/// instruction would draw.
pub open spec fn spec_step(s: VmState, rnd: u8) -> (VmState, Option<Fault>) {
    let (op, s1) = spec_fetch(s);
    spec_execute(s1, spec_decode(op), rnd)
}

/// `k` fetch-decode-execute cycles, the `j`-th drawing random byte `rs[j]`,
/// stopping at the first fault.
pub open spec fn spec_run_steps(s: VmState, rs: Seq<u8>, k: nat) -> (VmState, Option<Fault>)
    decreases k,
{
    if k == 0 {
        (s, None)
    } else {
        let prev = spec_run_steps(s, rs, (k - 1) as nat);
        if prev.1 is Some {
            prev
        } else {
            spec_step(prev.0, rs[k - 1])
        }
    }
}

/// A timer decrement: down by one, saturating at zero.
pub open spec fn dec_timer(t: u8) -> u8 {
    if t > 0 {
        (t - 1) as u8
    } else {
        0
    }
}

/// The end-of-frame housekeeping: the key snapshot is replaced and both
/// timers decrement once.
pub open spec fn frame_end(s: VmState, keys: Seq<bool>) -> VmState {
    VmState { keys: keys, delay: dec_timer(s.delay), sound: dec_timer(s.sound), ..s }
}

/// How a whole frame's outcome shows up on a machine, given the random
/// bytes `rs` its steps would draw: if every step of the budget runs clean,
/// the state is the run's result with the end-of-frame housekeeping applied
/// and the call reports success; a fault stops the frame at once, is
/// reported, and leaves the machine as the faulting step left it.
pub open spec fn frame_matches(
    pre: VmState,
    post: VmState,
    rs: Seq<u8>,
    keys: Seq<bool>,
    r: Result<(), Fault>,
) -> bool {
    let (s1, f) = spec_run_steps(pre, rs, rs.len());
    match f {
        Some(e) => r == Err::<(), Fault>(e) && post == s1,
        None => r == Ok::<(), Fault>(()) && post == frame_end(s1, keys),
    }
}

/// The 16 built-in 4x5-pixel hexadecimal glyphs, 5 bytes per digit.
pub open spec fn font_data() -> Seq<u8> {
    seq![
        0xF0u8, 0x90, 0x90, 0x90, 0xF0,
        0x20, 0x60, 0x20, 0x20, 0x70,
        0xF0, 0x10, 0xF0, 0x80, 0xF0,
        0xF0, 0x10, 0xF0, 0x10, 0xF0,
        0x90, 0x90, 0xF0, 0x10, 0x10,
        0xF0, 0x80, 0xF0, 0x10, 0xF0,
        0xF0, 0x80, 0xF0, 0x90, 0xF0,
        0xF0, 0x10, 0x20, 0x40, 0x40,
        0xF0, 0x90, 0xF0, 0x90, 0xF0,
        0xF0, 0x90, 0xF0, 0x10, 0xF0,
        0xF0, 0x90, 0xF0, 0x90, 0x90,
        0xE0, 0x90, 0xE0, 0x90, 0xE0,
        0xF0, 0x80, 0x80, 0x80, 0xF0,
        0xE0, 0x90, 0x90, 0x90, 0xE0,
        0xF0, 0x80, 0xF0, 0x80, 0xF0,
        0xF0, 0x80, 0xF0, 0x80, 0x80,
    ]
}

/// The machine as constructed: memory all zero but for the font glyphs at
/// 0x050..0x0A0, the program counter at the program region's start, and
/// everything else empty, zero or dark.
pub open spec fn init_state() -> VmState {
    VmState {
        memory: Seq::new(
            4096,
            |a: int|
                if 0x50 <= a < 0xA0 {
                    font_data()[a - 0x50]
                } else {
                    0u8
                },
        ),
        fb: blank_fb(),
        pc: 0x200,
        i: 0,
        stack: Seq::empty(),
        delay: 0,
        sound: 0,
        regs: Seq::new(16, |k: int| 0u8),
        keys: Seq::new(16, |k: int| false),
    }
}

/// Memory after a program image is copied in at 0x200, truncated to the
/// 3584 bytes available there; everything below 0x200 is untouched.
pub open spec fn loaded_mem(mem: Seq<u8>, rom: Seq<u8>) -> Seq<u8> {
    Seq::new(
        4096,
        |a: int|
            if 0x200 <= a < 0x200 + rom.len() && a < 4096 {
                rom[a - 0x200]
            } else {
                mem[a]
            },
    )
}

/// How an execution step's outcome shows up on a machine: the state becomes
/// the specified post-state and the call reports exactly the specified
/// fault, if any.
pub open spec fn outcome_matches(post: VmState, o: (VmState, Option<Fault>), r: Result<
    (),
    Fault,
>) -> bool {
    &&& post == o.0
    &&& match o.1 {
        Some(e) => r == Err::<(), Fault>(e),
        None => r == Ok::<(), Fault>(()),
    }
}


/// An ascending scan that reaches a held key `i` with every key below it
/// (from `k` on) up, reports exactly that key.
pub proof fn lemma_first_key_found(keys: Seq<bool>, k: int, i: int)
    requires
        0 <= k <= i < 16,
        keys[i],
        forall|j: int| k <= j < i ==> !keys[j],
    ensures
        first_key_from(keys, k) == Some(i as u8),
    decreases i - k,
{
    if k < i {
        lemma_first_key_found(keys, k + 1, i);
    }
}

/// An ascending scan over keys that are all up reports none.
pub proof fn lemma_first_key_none(keys: Seq<bool>, k: int)
    requires
        0 <= k <= 16,
        forall|j: int| k <= j < 16 ==> !keys[j],
    ensures
        first_key_from(keys, k) is None,
    decreases 16 - k,
{
    if k < 16 {
        lemma_first_key_none(keys, k + 1);
    }
}

/// A run looks only at the random bytes it draws: two byte sequences that
/// agree on the first `k` entries give the same `k`-step run.
pub proof fn lemma_run_steps_congruence(s: VmState, rs1: Seq<u8>, rs2: Seq<u8>, k: nat)
    requires
        forall|j: int| 0 <= j < k ==> rs1[j] == rs2[j],
    ensures
        spec_run_steps(s, rs1, k) == spec_run_steps(s, rs2, k),
    decreases k,
{
    if k > 0 {
        lemma_run_steps_congruence(s, rs1, rs2, (k - 1) as nat);
    }
}

/// A run that faults is over: running any further steps changes nothing.
pub proof fn lemma_run_steps_fault_stays(s: VmState, rs: Seq<u8>, k1: nat, k2: nat)
    requires
        k1 <= k2,
        spec_run_steps(s, rs, k1).1 is Some,
    ensures
        spec_run_steps(s, rs, k2) == spec_run_steps(s, rs, k1),
    decreases k2,
{
    if k2 > k1 {
        lemma_run_steps_fault_stays(s, rs, k1, (k2 - 1) as nat);
    }
}

} // verus!
