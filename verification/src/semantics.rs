//! The mathematical model of the machine: the glyph table, the decoding
//! of 16-bit instruction words, and one predicate per instruction that
//! relates the state before a step to the state after it.  The
//! single-step operation's contract is stated entirely in terms of
//! these definitions.

use vstd::prelude::*;

use crate::cpu::Cpu;
use crate::cpu::StepError;

verus! {

/// The built-in glyph table: sixteen glyphs of five bytes each, one
/// glyph per hexadecimal digit, each byte one 4-pixel-wide row with
/// the four significant bits highest, most significant bit first.
pub open spec fn spec_fontset() -> Seq<u8> {
    seq![
        0xF0u8, 0x90, 0x90, 0x90, 0xF0, // 0
        0x20, 0x60, 0x20, 0x20, 0x70, // 1
        0xF0, 0x10, 0xF0, 0x80, 0xF0, // 2
        0xF0, 0x10, 0xF0, 0x10, 0xF0, // 3
        0x90, 0x90, 0xF0, 0x10, 0x10, // 4
        0xF0, 0x80, 0xF0, 0x10, 0xF0, // 5
        0xF0, 0x80, 0xF0, 0x90, 0xF0, // 6
        0xF0, 0x10, 0x20, 0x40, 0x40, // 7
        0xF0, 0x90, 0xF0, 0x90, 0xF0, // 8
        0xF0, 0x90, 0xF0, 0x10, 0xF0, // 9
        0xF0, 0x90, 0xF0, 0x90, 0x90, // A
        0xE0, 0x90, 0xE0, 0x90, 0xE0, // B
        0xF0, 0x80, 0x80, 0x80, 0xF0, // C
        0xE0, 0x90, 0x90, 0x90, 0xE0, // D
        0xF0, 0x80, 0xF0, 0x80, 0xF0, // E
        0xF0, 0x80, 0xF0, 0x80, 0x80, // F
    ]
}

/// The instruction word fetched at the current program counter:
/// two consecutive bytes, high byte first.
pub open spec fn spec_fetch(s: Cpu) -> u16 {
    ((s.memory@[s.pc as int] as u16) << 8) | (s.memory@[s.pc as int + 1] as u16)
}

/// The top-level opcode family: the high nibble of the word.
pub open spec fn family(w: u16) -> u16 {
    w >> 12
}

/// The register index in the second nibble of the word.
pub open spec fn xr(w: u16) -> int {
    ((w >> 8) & 0xF) as int
}

/// The register index in the third nibble of the word.
pub open spec fn yr(w: u16) -> int {
    ((w >> 4) & 0xF) as int
}

/// The 12-bit immediate address in the low bits of the word.
pub open spec fn nnn(w: u16) -> u16 {
    w & 0x0FFF
}

/// The 8-bit immediate in the low byte of the word.
pub open spec fn kk(w: u16) -> u8 {
    (w & 0xFF) as u8
}

/// The 4-bit immediate in the low nibble of the word.
pub open spec fn nib(w: u16) -> u16 {
    w & 0xF
}

/// Whether the word matches one of the machine's 35 instructions.
pub open spec fn valid_word(w: u16) -> bool {
    if family(w) == 0x0 {
        nib(w) == 0x0 || nib(w) == 0xE
    } else if family(w) == 0x8 {
        nib(w) <= 0x7 || nib(w) == 0xE
    } else if family(w) == 0xE {
        kk(w) == 0x9E || kk(w) == 0xA1
    } else if family(w) == 0xF {
        kk(w) == 0x07 || kk(w) == 0x0A || kk(w) == 0x15 || kk(w) == 0x18 || kk(w) == 0x1E
            || kk(w) == 0x29 || kk(w) == 0x33 || kk(w) == 0x55 || kk(w) == 0x65
    } else {
        true
    }
}

/// Whether the instruction's own data accesses would leave the
/// machine's fixed bounds: sprite rows or register blocks read or
/// written past the end of the address space, or a key index beyond
/// the sixteen-key layout.
pub open spec fn data_out_of_bounds(s: Cpu, w: u16) -> bool {
    if family(w) == 0xD {
        nib(w) > 0 && s.ir as int + nib(w) as int > 4096
    } else if family(w) == 0xE {
        s.v@[xr(w)] > 15
    } else if family(w) == 0xF && kk(w) == 0x33 {
        s.ir as int + 2 > 4095
    } else if family(w) == 0xF && (kk(w) == 0x55 || kk(w) == 0x65) {
        s.ir as int + xr(w) > 4095
    } else {
        false
    }
}

/// The fatal condition a step starting from state `s` runs into, if
/// any.  `None` means the step succeeds.
pub open spec fn step_err(s: Cpu) -> Option<StepError> {
    if s.pc as int + 1 >= 4096 {
        Some(StepError::OutOfBounds)
    } else {
        let w = spec_fetch(s);
        if !valid_word(w) {
            Some(StepError::UnknownOpcode { opcode: w, fam: (w & 0xF000) as u16 })
        } else if family(w) == 0x0 && nib(w) == 0xE && s.sp == 0 {
            Some(StepError::StackUnderflow)
        } else if family(w) == 0x2 && s.sp == 16 {
            Some(StepError::StackOverflow)
        } else if data_out_of_bounds(s, w) {
            Some(StepError::OutOfBounds)
        } else {
            None
        }
    }
}

/// A countdown timer after one cycle: one less while positive,
/// floored at zero.
pub open spec fn dec(t: u8) -> u8 {
    if t > 0 {
        (t - 1) as u8
    } else {
        0
    }
}

/// What every instruction leaves alone: the key-state array is never
/// written by a step, and the latched instruction word is the fetch.
pub open spec fn step_base(pre: Cpu, post: Cpu) -> bool {
    &&& post.key@ == pre.key@
    &&& post.opcode == spec_fetch(pre)
}

/// The end-of-step timer tick for an instruction that does not itself
/// write a timer: both timers count down, and the beep flag is raised
/// exactly on the cycle where the sound timer goes from 1 to 0.
pub open spec fn ticked(pre: Cpu, post: Cpu) -> bool {
    &&& post.delay_timer == dec(pre.delay_timer)
    &&& post.sound_timer == dec(pre.sound_timer)
    &&& post.beep_flag == (pre.beep_flag || pre.sound_timer == 1)
}

pub open spec fn regs_same(pre: Cpu, post: Cpu) -> bool {
    post.v@ == pre.v@
}

pub open spec fn mem_same(pre: Cpu, post: Cpu) -> bool {
    post.memory@ == pre.memory@
}

pub open spec fn gfx_same(pre: Cpu, post: Cpu) -> bool {
    &&& post.gfx@ == pre.gfx@
    &&& post.draw_flag == pre.draw_flag
}

pub open spec fn stack_same(pre: Cpu, post: Cpu) -> bool {
    &&& post.stack@ == pre.stack@
    &&& post.sp == pre.sp
}

pub open spec fn ir_same(pre: Cpu, post: Cpu) -> bool {
    post.ir == pre.ir
}

/// The frame shared by most instructions: memory, display, stack, and
/// address register untouched, the standard timer tick, and the step
/// basics.
pub open spec fn std_frame(pre: Cpu, post: Cpu) -> bool {
    &&& mem_same(pre, post)
    &&& gfx_same(pre, post)
    &&& stack_same(pre, post)
    &&& ir_same(pre, post)
    &&& ticked(pre, post)
    &&& step_base(pre, post)
}

/// 8-bit addition that wraps modulo 256.
pub open spec fn add_wrap(a: u8, b: u8) -> u8 {
    if a + b > 255 {
        (a + b - 256) as u8
    } else {
        (a + b) as u8
    }
}

/// 8-bit subtraction that wraps modulo 256.
pub open spec fn sub_wrap(a: u8, b: u8) -> u8 {
    if a - b < 0 {
        (a - b + 256) as u8
    } else {
        (a - b) as u8
    }
}

/// The carry flag of an 8-bit addition: 1 exactly when the true sum
/// exceeds 255.
pub open spec fn carry8(a: u8, b: u8) -> u8 {
    if a + b > 255 {
        1
    } else {
        0
    }
}

/// The borrow flag of `a - b` in this architecture's inverted
/// polarity: 0 exactly when a borrow occurs (`b > a`), else 1.
pub open spec fn noborrow8(a: u8, b: u8) -> u8 {
    if b > a {
        0
    } else {
        1
    }
}

/// 0x00E0: zero every display cell, raise the redraw flag.
pub open spec fn sem_clear(pre: Cpu, post: Cpu) -> bool {
    &&& post.gfx@.len() == 2048
    &&& forall|i: int| 0 <= i < 2048 ==> post.gfx@[i] == 0
    &&& post.draw_flag
    &&& post.pc == pre.pc + 2
    &&& regs_same(pre, post)
    &&& mem_same(pre, post)
    &&& stack_same(pre, post)
    &&& ir_same(pre, post)
    &&& ticked(pre, post)
    &&& step_base(pre, post)
}

/// 0x00EE: pop the return address (the call instruction's own
/// address) and resume two bytes past it.
pub open spec fn sem_ret(pre: Cpu, post: Cpu) -> bool {
    &&& post.pc == pre.stack@[pre.sp - 1] + 2
    &&& post.sp == pre.sp - 1
    &&& post.stack@ == pre.stack@
    &&& regs_same(pre, post)
    &&& mem_same(pre, post)
    &&& gfx_same(pre, post)
    &&& ir_same(pre, post)
    &&& ticked(pre, post)
    &&& step_base(pre, post)
}

/// 0x1NNN: jump; the counter is set to the 12-bit address and nothing
/// further is added this step.
pub open spec fn sem_jump(pre: Cpu, post: Cpu) -> bool {
    &&& post.pc == nnn(spec_fetch(pre))
    &&& regs_same(pre, post)
    &&& std_frame(pre, post)
}

/// 0x2NNN: push the call instruction's own address and enter the
/// subroutine.
pub open spec fn sem_call(pre: Cpu, post: Cpu) -> bool {
    &&& post.stack@ == pre.stack@.update(pre.sp as int, pre.pc)
    &&& post.sp == pre.sp + 1
    &&& post.pc == nnn(spec_fetch(pre))
    &&& regs_same(pre, post)
    &&& mem_same(pre, post)
    &&& gfx_same(pre, post)
    &&& ir_same(pre, post)
    &&& ticked(pre, post)
    &&& step_base(pre, post)
}

/// The four conditional skips and the two key skips: advance by 4 when
/// the condition holds, else by 2.
pub open spec fn sem_skip(pre: Cpu, post: Cpu, cond: bool) -> bool {
    &&& post.pc == pre.pc + (if cond {
        4int
    } else {
        2int
    })
    &&& regs_same(pre, post)
    &&& std_frame(pre, post)
}

/// 0x6XNN: set a register to an immediate.
pub open spec fn sem_set_imm(pre: Cpu, post: Cpu) -> bool {
    let w = spec_fetch(pre);
    &&& post.v@ == pre.v@.update(xr(w), kk(w))
    &&& post.pc == pre.pc + 2
    &&& std_frame(pre, post)
}

/// 0x7XNN: add an immediate to a register, wrapping, with no flag
/// effect.
pub open spec fn sem_add_imm(pre: Cpu, post: Cpu) -> bool {
    let w = spec_fetch(pre);
    &&& post.v@ == pre.v@.update(xr(w), add_wrap(pre.v@[xr(w)], kk(w)))
    &&& post.pc == pre.pc + 2
    &&& std_frame(pre, post)
}

/// 0x8XY0: copy one register into another.
pub open spec fn sem_mov(pre: Cpu, post: Cpu) -> bool {
    let w = spec_fetch(pre);
    &&& post.v@ == pre.v@.update(xr(w), pre.v@[yr(w)])
    &&& post.pc == pre.pc + 2
    &&& std_frame(pre, post)
}

/// 0x8XY1: bitwise OR into the destination register.
pub open spec fn sem_or(pre: Cpu, post: Cpu) -> bool {
    let w = spec_fetch(pre);
    &&& post.v@ == pre.v@.update(xr(w), pre.v@[xr(w)] | pre.v@[yr(w)])
    &&& post.pc == pre.pc + 2
    &&& std_frame(pre, post)
}

/// 0x8XY2: bitwise AND into the destination register.
pub open spec fn sem_and(pre: Cpu, post: Cpu) -> bool {
    let w = spec_fetch(pre);
    &&& post.v@ == pre.v@.update(xr(w), pre.v@[xr(w)] & pre.v@[yr(w)])
    &&& post.pc == pre.pc + 2
    &&& std_frame(pre, post)
}

/// 0x8XY3: bitwise XOR into the destination register.
pub open spec fn sem_xor(pre: Cpu, post: Cpu) -> bool {
    let w = spec_fetch(pre);
    &&& post.v@ == pre.v@.update(xr(w), pre.v@[xr(w)] ^ pre.v@[yr(w)])
    &&& post.pc == pre.pc + 2
    &&& std_frame(pre, post)
}

/// 0x8XY4: add with carry.  The flag register receives the carry of
/// the pre-add operand values first; the wrapping add then reads the
/// registers with that flag already written, which is observable when
/// the destination or source is the flag register itself.
pub open spec fn sem_addc(pre: Cpu, post: Cpu) -> bool {
    let w = spec_fetch(pre);
    let v1 = pre.v@.update(15, carry8(pre.v@[xr(w)], pre.v@[yr(w)]));
    &&& post.v@ == v1.update(xr(w), add_wrap(v1[xr(w)], v1[yr(w)]))
    &&& post.pc == pre.pc + 2
    &&& std_frame(pre, post)
}

/// 0x8XY5: subtract the source from the destination; the flag receives
/// the architecture's inverted borrow first, computed from the pre-write
/// operand values.
pub open spec fn sem_sub(pre: Cpu, post: Cpu) -> bool {
    let w = spec_fetch(pre);
    let v1 = pre.v@.update(15, noborrow8(pre.v@[xr(w)], pre.v@[yr(w)]));
    &&& post.v@ == v1.update(xr(w), sub_wrap(v1[xr(w)], v1[yr(w)]))
    &&& post.pc == pre.pc + 2
    &&& std_frame(pre, post)
}

/// 0x8XY7: reverse subtraction (destination = source - destination)
/// with the same inverted borrow polarity.
pub open spec fn sem_rsub(pre: Cpu, post: Cpu) -> bool {
    let w = spec_fetch(pre);
    let v1 = pre.v@.update(15, if pre.v@[xr(w)] > pre.v@[yr(w)] {
        0u8
    } else {
        1u8
    });
    &&& post.v@ == v1.update(xr(w), sub_wrap(v1[yr(w)], v1[xr(w)]))
    &&& post.pc == pre.pc + 2
    &&& std_frame(pre, post)
}

/// 0x8XY6: shift right by one; the flag receives the pre-shift least
/// significant bit first.
pub open spec fn sem_shr(pre: Cpu, post: Cpu) -> bool {
    let w = spec_fetch(pre);
    let v1 = pre.v@.update(15, pre.v@[xr(w)] & 1);
    &&& post.v@ == v1.update(xr(w), v1[xr(w)] >> 1u8)
    &&& post.pc == pre.pc + 2
    &&& std_frame(pre, post)
}

/// 0x8XYE: shift left by one; the flag receives the pre-shift most
/// significant bit first.
pub open spec fn sem_shl(pre: Cpu, post: Cpu) -> bool {
    let w = spec_fetch(pre);
    let v1 = pre.v@.update(15, pre.v@[xr(w)] >> 7u8);
    &&& post.v@ == v1.update(xr(w), v1[xr(w)] << 1u8)
    &&& post.pc == pre.pc + 2
    &&& std_frame(pre, post)
}

/// 0xANNN: set the address register to a 12-bit immediate.
pub open spec fn sem_set_ir(pre: Cpu, post: Cpu) -> bool {
    &&& post.ir == nnn(spec_fetch(pre))
    &&& regs_same(pre, post)
    &&& mem_same(pre, post)
    &&& gfx_same(pre, post)
    &&& stack_same(pre, post)
    &&& ticked(pre, post)
    &&& step_base(pre, post)
    &&& post.pc == pre.pc + 2
}

/// 0xBNNN: absolute jump to the 12-bit immediate plus register 0.
pub open spec fn sem_jump0(pre: Cpu, post: Cpu) -> bool {
    &&& post.pc == nnn(spec_fetch(pre)) + pre.v@[0]
    &&& regs_same(pre, post)
    &&& std_frame(pre, post)
}

/// 0xCXNN: set a register to a random byte masked by the immediate.
/// `rnd` is whatever byte the host's randomness source produced.
pub open spec fn sem_rand(pre: Cpu, rnd: u8, post: Cpu) -> bool {
    let w = spec_fetch(pre);
    &&& post.v@ == pre.v@.update(xr(w), rnd & kk(w))
    &&& post.pc == pre.pc + 2
    &&& std_frame(pre, post)
}

/// One sprite bit: bit `c` of a row byte, most significant first.
pub open spec fn sprite_bit(row: u8, c: int) -> bool {
    row & (0x80u8 >> (c as u8)) != 0
}

/// XOR one sprite bit into the display at linear cell `pos`, threading
/// the collision flag.  A cell whose linear offset is out of range is
/// silently dropped; a collision is a 1 cell being flipped to 0.
pub open spec fn put_pixel(g: Seq<u8>, vf: bool, pos: int, on: bool) -> (Seq<u8>, bool) {
    if on && pos < 2048 {
        (g.update(pos, g[pos] ^ 1), vf || g[pos] == 1)
    } else {
        (g, vf)
    }
}

/// Draw the columns `c..8` of one sprite row whose cells start at
/// linear offset `base + x`.
pub open spec fn draw_row(g: Seq<u8>, vf: bool, row: u8, x: int, base: int, c: int) -> (
    Seq<u8>,
    bool,
)
    decreases 8 - c,
{
    if c < 0 || c >= 8 {
        (g, vf)
    } else {
        let p = put_pixel(g, vf, x + c + base, sprite_bit(row, c));
        draw_row(p.0, p.1, row, x, base, c + 1)
    }
}

/// Draw the rows `r..n` of a sprite read from memory at the address
/// register, at display coordinates (x, y), row-major 64 cells wide.
pub open spec fn draw_sprite(
    g: Seq<u8>,
    vf: bool,
    mem: Seq<u8>,
    ir: int,
    x: int,
    y: int,
    n: int,
    r: int,
) -> (Seq<u8>, bool)
    decreases n - r,
{
    if r < 0 || r >= n {
        (g, vf)
    } else {
        let p = draw_row(g, vf, mem[ir + r], x, 64 * (y + r), 0);
        draw_sprite(p.0, p.1, mem, ir, x, y, n, r + 1)
    }
}

/// The display and collision flag a draw instruction produces from
/// state `pre`.
pub open spec fn draw_result(pre: Cpu) -> (Seq<u8>, bool) {
    let w = spec_fetch(pre);
    draw_sprite(
        pre.gfx@,
        false,
        pre.memory@,
        pre.ir as int,
        pre.v@[xr(w)] as int,
        pre.v@[yr(w)] as int,
        nib(w) as int,
        0,
    )
}

/// 0xDXYN: draw a sprite of N rows; the flag register reports whether
/// any cell was flipped from 1 to 0; the redraw flag is raised; the
/// address register is not modified.
pub open spec fn sem_draw(pre: Cpu, post: Cpu) -> bool {
    let res = draw_result(pre);
    &&& post.gfx@ == res.0
    &&& post.v@ == pre.v@.update(15, if res.1 {
        1u8
    } else {
        0u8
    })
    &&& post.draw_flag
    &&& post.pc == pre.pc + 2
    &&& mem_same(pre, post)
    &&& stack_same(pre, post)
    &&& ir_same(pre, post)
    &&& ticked(pre, post)
    &&& step_base(pre, post)
}

/// 0xFX07: read the delay timer into a register, before this step's
/// tick.
pub open spec fn sem_get_delay(pre: Cpu, post: Cpu) -> bool {
    let w = spec_fetch(pre);
    &&& post.v@ == pre.v@.update(xr(w), pre.delay_timer)
    &&& post.pc == pre.pc + 2
    &&& std_frame(pre, post)
}

/// The highest pressed key among indices `0..n`, scanning as the
/// machine does: every pressed key overwrites, so the last one found
/// wins.
pub open spec fn last_pressed(key: Seq<u8>, n: int) -> Option<int>
    decreases n,
{
    if n <= 0 {
        None
    } else if key[n - 1] != 0 {
        Some(n - 1)
    } else {
        last_pressed(key, n - 1)
    }
}

/// 0xFX0A: await a key.  With at least one key down, the register
/// receives the highest pressed index and the counter advances; with
/// none, the counter stays so the next step re-fetches the same
/// instruction.  Timers tick either way.
pub open spec fn sem_await(pre: Cpu, post: Cpu) -> bool {
    let w = spec_fetch(pre);
    match last_pressed(pre.key@, 16) {
        Some(k) => {
            &&& post.v@ == pre.v@.update(xr(w), k as u8)
            &&& post.pc == pre.pc + 2
            &&& std_frame(pre, post)
        },
        None => {
            &&& regs_same(pre, post)
            &&& post.pc == pre.pc
            &&& std_frame(pre, post)
        },
    }
}

/// 0xFX15: load the delay timer from a register; the end-of-step tick
/// then counts the fresh value down once.
pub open spec fn sem_set_delay(pre: Cpu, post: Cpu) -> bool {
    let w = spec_fetch(pre);
    &&& post.delay_timer == dec(pre.v@[xr(w)])
    &&& post.sound_timer == dec(pre.sound_timer)
    &&& post.beep_flag == (pre.beep_flag || pre.sound_timer == 1)
    &&& regs_same(pre, post)
    &&& mem_same(pre, post)
    &&& gfx_same(pre, post)
    &&& stack_same(pre, post)
    &&& ir_same(pre, post)
    &&& step_base(pre, post)
    &&& post.pc == pre.pc + 2
}

/// 0xFX18: load the sound timer from a register; the end-of-step tick
/// counts the fresh value down once and raises the beep flag when that
/// value is exactly 1.
pub open spec fn sem_set_sound(pre: Cpu, post: Cpu) -> bool {
    let w = spec_fetch(pre);
    &&& post.sound_timer == dec(pre.v@[xr(w)])
    &&& post.beep_flag == (pre.beep_flag || pre.v@[xr(w)] == 1)
    &&& post.delay_timer == dec(pre.delay_timer)
    &&& regs_same(pre, post)
    &&& mem_same(pre, post)
    &&& gfx_same(pre, post)
    &&& stack_same(pre, post)
    &&& ir_same(pre, post)
    &&& step_base(pre, post)
    &&& post.pc == pre.pc + 2
}

/// 0xFX1E: add a register into the address register, wrapping modulo
/// 2^16; the flag reports whether the unwrapped sum left the 12-bit
/// address width.
pub open spec fn sem_add_ir(pre: Cpu, post: Cpu) -> bool {
    let w = spec_fetch(pre);
    let sum = pre.ir + pre.v@[xr(w)];
    &&& post.ir == (sum % 65536) as u16
    &&& post.v@ == pre.v@.update(15, if sum > 0xFFF {
        1u8
    } else {
        0u8
    })
    &&& post.pc == pre.pc + 2
    &&& mem_same(pre, post)
    &&& gfx_same(pre, post)
    &&& stack_same(pre, post)
    &&& ticked(pre, post)
    &&& step_base(pre, post)
}

/// 0xFX29: point the address register at the five-byte glyph for the
/// digit held in a register.
pub open spec fn sem_glyph(pre: Cpu, post: Cpu) -> bool {
    let w = spec_fetch(pre);
    &&& post.ir == pre.v@[xr(w)] * 5
    &&& regs_same(pre, post)
    &&& mem_same(pre, post)
    &&& gfx_same(pre, post)
    &&& stack_same(pre, post)
    &&& ticked(pre, post)
    &&& step_base(pre, post)
    &&& post.pc == pre.pc + 2
}

/// 0xFX33: store the decimal digits of a register at the address
/// register: hundreds, tens, ones.
pub open spec fn sem_bcd(pre: Cpu, post: Cpu) -> bool {
    let w = spec_fetch(pre);
    let x = pre.v@[xr(w)];
    let ir = pre.ir as int;
    &&& post.memory@ == pre.memory@.update(ir, x / 100).update(ir + 1, (x / 10) % 10).update(
        ir + 2,
        (x % 100) % 10,
    )
    &&& regs_same(pre, post)
    &&& gfx_same(pre, post)
    &&& stack_same(pre, post)
    &&& ir_same(pre, post)
    &&& ticked(pre, post)
    &&& step_base(pre, post)
    &&& post.pc == pre.pc + 2
}

/// 0xFX55: store registers 0..=X at the address register, then move
/// the address register past the stored block (the reference
/// architecture's documented quirk).
pub open spec fn sem_store(pre: Cpu, post: Cpu) -> bool {
    let w = spec_fetch(pre);
    let x = xr(w);
    let ir = pre.ir as int;
    &&& post.memory@.len() == 4096
    &&& forall|j: int|
        0 <= j < 4096 ==> post.memory@[j] == (if ir <= j <= ir + x {
            pre.v@[j - ir]
        } else {
            pre.memory@[j]
        })
    &&& post.ir == pre.ir + x + 1
    &&& regs_same(pre, post)
    &&& gfx_same(pre, post)
    &&& stack_same(pre, post)
    &&& ticked(pre, post)
    &&& step_base(pre, post)
    &&& post.pc == pre.pc + 2
}

/// 0xFX65: load registers 0..=X from the address register, with the
/// same post-increment of the address register.
pub open spec fn sem_load(pre: Cpu, post: Cpu) -> bool {
    let w = spec_fetch(pre);
    let x = xr(w);
    let ir = pre.ir as int;
    &&& post.v@.len() == 16
    &&& forall|i: int|
        0 <= i < 16 ==> post.v@[i] == (if i <= x {
            pre.memory@[ir + i]
        } else {
            pre.v@[i]
        })
    &&& post.ir == pre.ir + x + 1
    &&& mem_same(pre, post)
    &&& gfx_same(pre, post)
    &&& stack_same(pre, post)
    &&& ticked(pre, post)
    &&& step_base(pre, post)
    &&& post.pc == pre.pc + 2
}

/// One successful fetch-decode-execute-and-tick cycle from `pre` to
/// `post`, where `rnd` is the byte the randomness source produced (it
/// matters only to the random-mask instruction).
pub open spec fn step_ok(pre: Cpu, rnd: u8, post: Cpu) -> bool {
    &&& pre.wf()
    &&& step_err(pre) is None
    &&& {
        let w = spec_fetch(pre);
        if family(w) == 0x0 {
            if nib(w) == 0x0 {
                sem_clear(pre, post)
            } else {
                sem_ret(pre, post)
            }
        } else if family(w) == 0x1 {
            sem_jump(pre, post)
        } else if family(w) == 0x2 {
            sem_call(pre, post)
        } else if family(w) == 0x3 {
            sem_skip(pre, post, pre.v@[xr(w)] == kk(w))
        } else if family(w) == 0x4 {
            sem_skip(pre, post, pre.v@[xr(w)] != kk(w))
        } else if family(w) == 0x5 {
            sem_skip(pre, post, pre.v@[xr(w)] == pre.v@[yr(w)])
        } else if family(w) == 0x6 {
            sem_set_imm(pre, post)
        } else if family(w) == 0x7 {
            sem_add_imm(pre, post)
        } else if family(w) == 0x8 {
            if nib(w) == 0x0 {
                sem_mov(pre, post)
            } else if nib(w) == 0x1 {
                sem_or(pre, post)
            } else if nib(w) == 0x2 {
                sem_and(pre, post)
            } else if nib(w) == 0x3 {
                sem_xor(pre, post)
            } else if nib(w) == 0x4 {
                sem_addc(pre, post)
            } else if nib(w) == 0x5 {
                sem_sub(pre, post)
            } else if nib(w) == 0x6 {
                sem_shr(pre, post)
            } else if nib(w) == 0x7 {
                sem_rsub(pre, post)
            } else {
                sem_shl(pre, post)
            }
        } else if family(w) == 0x9 {
            sem_skip(pre, post, pre.v@[xr(w)] != pre.v@[yr(w)])
        } else if family(w) == 0xA {
            sem_set_ir(pre, post)
        } else if family(w) == 0xB {
            sem_jump0(pre, post)
        } else if family(w) == 0xC {
            sem_rand(pre, rnd, post)
        } else if family(w) == 0xD {
            sem_draw(pre, post)
        } else if family(w) == 0xE {
            if kk(w) == 0x9E {
                sem_skip(pre, post, pre.key@[pre.v@[xr(w)] as int] != 0)
            } else {
                sem_skip(pre, post, pre.key@[pre.v@[xr(w)] as int] == 0)
            }
        } else {
            if kk(w) == 0x07 {
                sem_get_delay(pre, post)
            } else if kk(w) == 0x0A {
                sem_await(pre, post)
            } else if kk(w) == 0x15 {
                sem_set_delay(pre, post)
            } else if kk(w) == 0x18 {
                sem_set_sound(pre, post)
            } else if kk(w) == 0x1E {
                sem_add_ir(pre, post)
            } else if kk(w) == 0x29 {
                sem_glyph(pre, post)
            } else if kk(w) == 0x33 {
                sem_bcd(pre, post)
            } else if kk(w) == 0x55 {
                sem_store(pre, post)
            } else {
                sem_load(pre, post)
            }
        }
    }
}

/// Everything but the display bitmap and the latched word unchanged;
/// used while a loop rewrites the display.
pub open spec fn frame_except_gfx(pre: Cpu, cur: Cpu) -> bool {
    &&& cur.pc == pre.pc
    &&& cur.ir == pre.ir
    &&& cur.sp == pre.sp
    &&& cur.v@ == pre.v@
    &&& cur.stack@ == pre.stack@
    &&& cur.memory@ == pre.memory@
    &&& cur.key@ == pre.key@
    &&& cur.delay_timer == pre.delay_timer
    &&& cur.sound_timer == pre.sound_timer
    &&& cur.draw_flag == pre.draw_flag
    &&& cur.beep_flag == pre.beep_flag
}

/// Everything but the register file and the latched word unchanged;
/// used while a loop rewrites registers.
pub open spec fn frame_except_v(pre: Cpu, cur: Cpu) -> bool {
    &&& cur.pc == pre.pc
    &&& cur.ir == pre.ir
    &&& cur.sp == pre.sp
    &&& cur.stack@ == pre.stack@
    &&& cur.memory@ == pre.memory@
    &&& cur.gfx@ == pre.gfx@
    &&& cur.key@ == pre.key@
    &&& cur.delay_timer == pre.delay_timer
    &&& cur.sound_timer == pre.sound_timer
    &&& cur.draw_flag == pre.draw_flag
    &&& cur.beep_flag == pre.beep_flag
}

/// Everything but the address space and the latched word unchanged;
/// used while a loop rewrites memory.
pub open spec fn frame_except_mem(pre: Cpu, cur: Cpu) -> bool {
    &&& cur.pc == pre.pc
    &&& cur.ir == pre.ir
    &&& cur.sp == pre.sp
    &&& cur.v@ == pre.v@
    &&& cur.stack@ == pre.stack@
    &&& cur.gfx@ == pre.gfx@
    &&& cur.key@ == pre.key@
    &&& cur.delay_timer == pre.delay_timer
    &&& cur.sound_timer == pre.sound_timer
    &&& cur.draw_flag == pre.draw_flag
    &&& cur.beep_flag == pre.beep_flag
}

/// Everything but the display, the register file and the latched word
/// unchanged; used while the draw loops run.
pub open spec fn frame_except_gfx_v(pre: Cpu, cur: Cpu) -> bool {
    &&& cur.pc == pre.pc
    &&& cur.ir == pre.ir
    &&& cur.sp == pre.sp
    &&& cur.stack@ == pre.stack@
    &&& cur.memory@ == pre.memory@
    &&& cur.key@ == pre.key@
    &&& cur.delay_timer == pre.delay_timer
    &&& cur.sound_timer == pre.sound_timer
    &&& cur.draw_flag == pre.draw_flag
    &&& cur.beep_flag == pre.beep_flag
}

/// The linear display cell a sprite bit lands on: column `c` of row
/// `r` of a sprite drawn at (x, y), row-major, 64 cells per row.
pub open spec fn cell(x: int, y: int, r: int, c: int) -> int {
    x + c + 64 * (y + r)
}

/// Row `r` of the sprite read at address-register offset `ir`.
pub open spec fn sprite_row(mem: Seq<u8>, ir: int, r: int) -> u8 {
    mem[ir + r]
}

/// A display cell is a bit: flipping it with XOR 1 toggles 0 and 1.
pub proof fn lemma_xor_bit(b: u8)
    requires
        b == 0 || b == 1,
    ensures
        b ^ 1 == (if b == 0 {
            1u8
        } else {
            0u8
        }),
{
    assert(b == 0 ==> b ^ 1 == 1) by (bit_vector);
    assert(b == 1 ==> b ^ 1 == 0) by (bit_vector);
}

/// Bounds of the fields decoded from an instruction word.
pub proof fn lemma_word_fields(w: u16)
    ensures
        (w >> 12u16) <= 15,
        ((w >> 8u16) & 0xF) <= 15,
        ((w >> 4u16) & 0xF) <= 15,
        (w & 0x0FFF) <= 4095,
        (w & 0xFF) <= 255,
        (w & 0xF) <= 15,
{
    assert((w >> 12u16) <= 15 && ((w >> 8u16) & 0xF) <= 15 && ((w >> 4u16) & 0xF) <= 15 && (w
        & 0x0FFF) <= 4095 && (w & 0xFF) <= 255 && (w & 0xF) <= 15) by (bit_vector);
}

} // verus!
