//! The machine state and its fetch-decode-execute engine.

use vstd::prelude::*;

use crate::semantics::dec;
use crate::semantics::sem_add_imm;
use crate::semantics::sem_add_ir;
use crate::semantics::sem_addc;
use crate::semantics::sem_and;
use crate::semantics::sem_await;
use crate::semantics::sem_bcd;
use crate::semantics::sem_call;
use crate::semantics::sem_clear;
use crate::semantics::sem_draw;
use crate::semantics::sem_get_delay;
use crate::semantics::sem_glyph;
use crate::semantics::sem_jump;
use crate::semantics::sem_jump0;
use crate::semantics::sem_load;
use crate::semantics::sem_mov;
use crate::semantics::sem_or;
use crate::semantics::sem_rand;
use crate::semantics::sem_ret;
use crate::semantics::sem_rsub;
use crate::semantics::sem_set_delay;
use crate::semantics::sem_set_imm;
use crate::semantics::sem_set_ir;
use crate::semantics::sem_set_sound;
use crate::semantics::sem_shl;
use crate::semantics::sem_shr;
use crate::semantics::sem_skip;
use crate::semantics::sem_store;
use crate::semantics::sem_sub;
use crate::semantics::sem_xor;
use crate::semantics::spec_fetch;
use crate::semantics::spec_fontset;
use crate::semantics::step_err;
use crate::semantics::step_ok;
use crate::semantics::draw_result;
use crate::semantics::draw_row;
use crate::semantics::draw_sprite;
use crate::semantics::family;
use crate::semantics::frame_except_gfx;
use crate::semantics::frame_except_gfx_v;
use crate::semantics::frame_except_mem;
use crate::semantics::frame_except_v;
use crate::semantics::last_pressed;
use crate::semantics::lemma_word_fields;
use crate::semantics::lemma_xor_bit;
use crate::semantics::nib;
use crate::semantics::put_pixel;
use crate::semantics::sprite_bit;
use crate::semantics::xr;
use crate::semantics::yr;

verus! {

/// A fatal condition met while executing one step.  Every variant is a
/// program-correctness signal: the host must halt the run loop rather
/// than retry.  The reference architecture leaves call-stack overflow
/// and underflow and accesses past the machine's fixed bounds
/// undefined; this core reports them as fatal errors of the same class
/// as an undecodable word rather than wrapping indices silently.
#[derive(Clone, Copy, Debug, PartialEq, Eq, Structural)]
pub enum StepError {
    /// The instruction word matches none of the 35 instructions; it
    /// carries the word itself and its opcode family (high nibble).
    UnknownOpcode { opcode: u16, fam: u16 },
    /// A call was made with all sixteen stack slots in use.
    StackOverflow,
    /// A return was executed with no call outstanding.
    StackUnderflow,
    /// A fetch or a data access past the end of the address space, or
    /// a key test with a key index beyond the sixteen-key layout.
    OutOfBounds,
}

/// The whole machine: registers, address space, display, keys, timers,
/// and the two flags by which the core signals the host.
pub struct Cpu {
    /// Program counter; instructions are fetched at this address.
    pub pc: u16,
    /// The instruction word latched by the most recent step.
    pub opcode: u16,
    /// The address register, used as a memory cursor.
    pub ir: u16,
    /// Number of call-stack slots in use.
    pub sp: u16,
    /// The sixteen general registers; register 0xF doubles as the
    /// carry/borrow/collision flag.
    pub v: Vec<u8>,
    /// The sixteen call-stack slots; slots below `sp` hold return
    /// addresses.
    pub stack: Vec<u16>,
    /// The 4096-byte address space.
    pub memory: Vec<u8>,
    /// The 64x32 display bitmap, row-major, one byte per pixel,
    /// each either 0 or 1.
    pub gfx: Vec<u8>,
    /// The sixteen key-state cells, written by the host's input layer.
    pub key: Vec<u8>,
    /// Delay timer; counts down by one per executed cycle while positive.
    pub delay_timer: u8,
    /// Sound timer; counts down likewise, and raises the beep flag on
    /// its last audible cycle.
    pub sound_timer: u8,
    /// Raised by the clear and draw instructions; the host renders and
    /// clears it.
    pub draw_flag: bool,
    /// Raised on the cycle where the sound timer goes from 1 to 0; the
    /// host plays audio and clears it.
    pub beep_flag: bool,
}

impl Cpu {
    /// Well-formedness: every array has its fixed size, the display
    /// holds only 0/1 cells, and the stack pointer stays within the
    /// sixteen slots.
    pub open spec fn wf(self) -> bool {
        &&& self.v@.len() == 16
        &&& self.stack@.len() == 16
        &&& self.memory@.len() == 4096
        &&& self.gfx@.len() == 2048
        &&& self.key@.len() == 16
        &&& self.sp <= 16
        &&& forall|i: int| 0 <= i < 2048 ==> self.gfx@[i] == 0 || self.gfx@[i] == 1
        &&& forall|i: int| 0 <= i < self.sp ==> self.stack@[i] <= 4094
    }

    /// The initial machine: everything zeroed, the glyph table copied
    /// into the first 80 bytes of the address space, the program
    /// counter at 0x200, and the redraw flag raised so the host paints
    /// one blank frame before any instruction runs.
    pub fn new() -> (r: Cpu)
        ensures
            r.wf(),
            r.pc == 0x200,
            r.opcode == 0,
            r.ir == 0,
            r.sp == 0,
            forall|i: int| 0 <= i < 16 ==> r.v@[i] == 0,
            forall|i: int| 0 <= i < 16 ==> r.stack@[i] == 0,
            forall|i: int| 0 <= i < 80 ==> r.memory@[i] == spec_fontset()[i],
            forall|i: int| 80 <= i < 4096 ==> r.memory@[i] == 0,
            forall|i: int| 0 <= i < 2048 ==> r.gfx@[i] == 0,
            forall|i: int| 0 <= i < 16 ==> r.key@[i] == 0,
            r.delay_timer == 0,
            r.sound_timer == 0,
            r.draw_flag,
            !r.beep_flag,
    {
        let mut memory = zero_bytes(4096);
        let table = fontset();
        let mut i: usize = 0;
        while i < 80
            invariant
                i <= 80,
                memory@.len() == 4096,
                table@.len() == 80,
                forall|j: int| 0 <= j < 80 ==> table@[j] == spec_fontset()[j],
                forall|j: int| 0 <= j < i ==> memory@[j] == spec_fontset()[j],
                forall|j: int| i <= j < 4096 ==> memory@[j] == 0,
            decreases 80 - i,
        {
            memory[i] = table[i];
            i = i + 1;
        }
        Cpu {
            pc: 0x200,
            opcode: 0,
            ir: 0,
            sp: 0,
            v: zero_bytes(16),
            stack: zero_words(16),
            memory,
            gfx: zero_bytes(2048),
            key: zero_bytes(16),
            delay_timer: 0,
            sound_timer: 0,
            draw_flag: true,
            beep_flag: false,
        }
    }

    /// Copies a program image byte-for-byte into the address space
    /// starting at 0x200 and leaves every other part of the state
    /// untouched.  Returns false, changing nothing, exactly when the
    /// image is larger than the 3584 bytes available above the
    /// reserved region.
    pub fn load_application(&mut self, program: &Vec<u8>) -> (r: bool)
        requires
            old(self).wf(),
        ensures
            final(self).wf(),
            r <==> program@.len() <= 3584,
            r ==> {
                &&& final(self).memory@.len() == 4096
                &&& forall|i: int|
                    0 <= i < program@.len() ==> final(self).memory@[0x200 + i] == program@[i]
                &&& forall|i: int|
                    0 <= i < 0x200 ==> final(self).memory@[i] == old(self).memory@[i]
                &&& forall|i: int|
                    0x200 + program@.len() <= i < 4096 ==> final(self).memory@[i] == old(self).memory@[i]
            },
            !r ==> *final(self) == *old(self),
            final(self).pc == old(self).pc,
            final(self).opcode == old(self).opcode,
            final(self).ir == old(self).ir,
            final(self).sp == old(self).sp,
            final(self).v@ == old(self).v@,
            final(self).stack@ == old(self).stack@,
            final(self).gfx@ == old(self).gfx@,
            final(self).key@ == old(self).key@,
            final(self).delay_timer == old(self).delay_timer,
            final(self).sound_timer == old(self).sound_timer,
            final(self).draw_flag == old(self).draw_flag,
            final(self).beep_flag == old(self).beep_flag,
    {
        if program.len() > 3584 {
            return false;
        }
        let n = program.len();
        let mut i: usize = 0;
        while i < n
            invariant
                old(self).wf(),
                i <= n,
                n == program@.len(),
                n <= 3584,
                self.memory@.len() == 4096,
                forall|j: int| 0 <= j < i ==> self.memory@[0x200 + j] == program@[j],
                forall|j: int| 0 <= j < 0x200 ==> self.memory@[j] == old(self).memory@[j],
                forall|j: int|
                    0x200 + i <= j < 4096 ==> self.memory@[j] == old(self).memory@[j],
                self.pc == old(self).pc,
                self.opcode == old(self).opcode,
                self.ir == old(self).ir,
                self.sp == old(self).sp,
                self.v@ == old(self).v@,
                self.stack@ == old(self).stack@,
                self.gfx@ == old(self).gfx@,
                self.key@ == old(self).key@,
                self.delay_timer == old(self).delay_timer,
                self.sound_timer == old(self).sound_timer,
                self.draw_flag == old(self).draw_flag,
                self.beep_flag == old(self).beep_flag,
            decreases n - i,
        {
            self.memory[0x200 + i] = program[i];
            i = i + 1;
        }
        true
    }

    /// One fetch-decode-execute-and-timer-tick cycle.  On success the
    /// machine moves to exactly the state the step relation `step_ok`
    /// describes, for the byte the randomness source produced; the
    /// relation pins every instruction's effect.  On failure — an
    /// undecodable word, a call with the stack full, a return with the
    /// stack empty, or an access past the machine's fixed bounds — the
    /// matching error is returned, the state is left exactly as it was,
    /// and `step_err` says precisely which error each state produces.
    pub fn opcode(&mut self) -> (r: Result<(), StepError>)
        requires
            old(self).wf(),
        ensures
            final(self).wf(),
            match r {
                Ok(()) => step_err(*old(self)) is None && (exists|rnd: u8|
                    #[trigger] step_ok(*old(self), rnd, *final(self))),
                Err(e) => step_err(*old(self)) == Some(e) && *final(self) == *old(self),
            },
    {
        if self.pc > 4094 {
            return Err(StepError::OutOfBounds);
        }
        let pc = self.pc as usize;
        let hi = self.memory[pc];
        let lo = self.memory[pc + 1];
        let w: u16 = ((hi as u16) << 8) | (lo as u16);
        proof {
            lemma_word_fields(w);
        }
        let fam: u16 = w >> 12;
        let x = ((w >> 8) & 0xF) as usize;
        let n: u16 = w & 0xF;
        let byte: u8 = (w & 0xFF) as u8;
        let valid: bool = if fam == 0x0 {
            n == 0x0 || n == 0xE
        } else if fam == 0x8 {
            n <= 0x7 || n == 0xE
        } else if fam == 0xE {
            byte == 0x9E || byte == 0xA1
        } else if fam == 0xF {
            byte == 0x07 || byte == 0x0A || byte == 0x15 || byte == 0x18 || byte == 0x1E
                || byte == 0x29 || byte == 0x33 || byte == 0x55 || byte == 0x65
        } else {
            true
        };
        if !valid {
            return Err(StepError::UnknownOpcode { opcode: w, fam: w & 0xF000 });
        }
        if fam == 0x0 && n == 0xE && self.sp == 0 {
            return Err(StepError::StackUnderflow);
        }
        if fam == 0x2 && self.sp == 16 {
            return Err(StepError::StackOverflow);
        }
        let oob: bool = if fam == 0xD {
            n > 0 && self.ir as usize + n as usize > 4096
        } else if fam == 0xE {
            self.v[x] > 15
        } else if fam == 0xF && byte == 0x33 {
            self.ir as usize + 2 > 4095
        } else if fam == 0xF && (byte == 0x55 || byte == 0x65) {
            self.ir as usize + x > 4095
        } else {
            false
        };
        if oob {
            return Err(StepError::OutOfBounds);
        }
        let ghost pre = *old(self);
        proof {
            assert(step_err(pre) is None);
        }
        if fam == 0x0 {
            if n == 0x0 {
                self.op_clear(w);
            } else {
                self.op_ret(w);
            }
        } else if fam == 0x1 {
            self.op_jump(w);
        } else if fam == 0x2 {
            self.op_call(w);
        } else if fam == 0x3 {
            let cond = self.v[x] == byte;
            self.op_skip(w, cond);
        } else if fam == 0x4 {
            let cond = self.v[x] != byte;
            self.op_skip(w, cond);
        } else if fam == 0x5 {
            let y = ((w >> 4) & 0xF) as usize;
            let cond = self.v[x] == self.v[y];
            self.op_skip(w, cond);
        } else if fam == 0x6 {
            self.op_set_imm(w);
        } else if fam == 0x7 {
            self.op_add_imm(w);
        } else if fam == 0x8 {
            if n == 0x0 {
                self.op_mov(w);
            } else if n == 0x1 {
                self.op_or(w);
            } else if n == 0x2 {
                self.op_and(w);
            } else if n == 0x3 {
                self.op_xor(w);
            } else if n == 0x4 {
                self.op_addc(w);
            } else if n == 0x5 {
                self.op_sub(w);
            } else if n == 0x6 {
                self.op_shr(w);
            } else if n == 0x7 {
                self.op_rsub(w);
            } else {
                self.op_shl(w);
            }
        } else if fam == 0x9 {
            let y = ((w >> 4) & 0xF) as usize;
            let cond = self.v[x] != self.v[y];
            self.op_skip(w, cond);
        } else if fam == 0xA {
            self.op_set_ir(w);
        } else if fam == 0xB {
            self.op_jump0(w);
        } else if fam == 0xC {
            self.op_rand(w);
        } else if fam == 0xD {
            self.op_draw(w);
        } else if fam == 0xE {
            let key_idx = self.v[x] as usize;
            let down = self.key[key_idx] != 0;
            if byte == 0x9E {
                self.op_skip(w, down);
            } else {
                self.op_skip(w, !down);
            }
        } else {
            if byte == 0x07 {
                self.op_get_delay(w);
            } else if byte == 0x0A {
                self.op_await(w);
            } else if byte == 0x15 {
                self.op_set_delay(w);
            } else if byte == 0x18 {
                self.op_set_sound(w);
            } else if byte == 0x1E {
                self.op_add_ir(w);
            } else if byte == 0x29 {
                self.op_glyph(w);
            } else if byte == 0x33 {
                self.op_bcd(w);
            } else if byte == 0x55 {
                self.op_store(w);
            } else {
                self.op_load(w);
            }
        }
        proof {
            if family(w) == 0xC {
                let rnd = choose|rnd: u8| sem_rand(pre, rnd, *self);
                assert(step_ok(pre, rnd, *self));
            } else {
                assert(step_ok(pre, 0u8, *self));
            }
        }
        Ok(())
    }

    /// The end-of-step timer tick: each timer counts down by one while
    /// positive, and the beep flag is raised exactly when the sound
    /// timer goes from 1 to 0.
    fn tick_timers(&mut self)
        ensures
            final(self).delay_timer == dec(old(self).delay_timer),
            final(self).sound_timer == dec(old(self).sound_timer),
            final(self).beep_flag == (old(self).beep_flag || old(self).sound_timer == 1),
            final(self).pc == old(self).pc,
            final(self).opcode == old(self).opcode,
            final(self).ir == old(self).ir,
            final(self).sp == old(self).sp,
            final(self).v@ == old(self).v@,
            final(self).stack@ == old(self).stack@,
            final(self).memory@ == old(self).memory@,
            final(self).gfx@ == old(self).gfx@,
            final(self).key@ == old(self).key@,
            final(self).draw_flag == old(self).draw_flag,
    {
        if self.delay_timer > 0 {
            self.delay_timer = self.delay_timer - 1;
        }
        if self.sound_timer > 0 {
            if self.sound_timer == 1 {
                self.beep_flag = true;
            }
            self.sound_timer = self.sound_timer - 1;
        }
    }

    /// 0x00EE: return from subroutine.
    fn op_ret(&mut self, w: u16)
        requires
            old(self).wf(),
            old(self).pc <= 4094,
            w == spec_fetch(*old(self)),
            old(self).sp >= 1,
        ensures
            final(self).wf(),
            sem_ret(*old(self), *final(self)),
    {
        self.opcode = w;
        self.sp = self.sp - 1;
        let ret_addr = self.stack[self.sp as usize];
        self.pc = ret_addr + 2;
        self.tick_timers();
    }

    /// 0x1NNN: jump.
    fn op_jump(&mut self, w: u16)
        requires
            old(self).wf(),
            old(self).pc <= 4094,
            w == spec_fetch(*old(self)),
        ensures
            final(self).wf(),
            sem_jump(*old(self), *final(self)),
    {
        self.opcode = w;
        self.pc = w & 0x0FFF;
        self.tick_timers();
    }

    /// 0x2NNN: call subroutine.
    fn op_call(&mut self, w: u16)
        requires
            old(self).wf(),
            old(self).pc <= 4094,
            w == spec_fetch(*old(self)),
            old(self).sp <= 15,
        ensures
            final(self).wf(),
            sem_call(*old(self), *final(self)),
    {
        self.opcode = w;
        let slot = self.sp as usize;
        self.stack[slot] = self.pc;
        self.sp = self.sp + 1;
        self.pc = w & 0x0FFF;
        self.tick_timers();
    }

    /// The shared body of the conditional skips: advance by 4 when the
    /// already-evaluated condition holds, else by 2.
    fn op_skip(&mut self, w: u16, cond: bool)
        requires
            old(self).wf(),
            old(self).pc <= 4094,
            w == spec_fetch(*old(self)),
        ensures
            final(self).wf(),
            sem_skip(*old(self), *final(self), cond),
    {
        self.opcode = w;
        if cond {
            self.pc = self.pc + 4;
        } else {
            self.pc = self.pc + 2;
        }
        self.tick_timers();
    }

    /// 0x6XNN: set register to immediate.
    fn op_set_imm(&mut self, w: u16)
        requires
            old(self).wf(),
            old(self).pc <= 4094,
            w == spec_fetch(*old(self)),
        ensures
            final(self).wf(),
            sem_set_imm(*old(self), *final(self)),
    {
        proof {
            lemma_word_fields(w);
        }
        self.opcode = w;
        let x = ((w >> 8) & 0xF) as usize;
        self.v[x] = (w & 0xFF) as u8;
        self.pc = self.pc + 2;
        self.tick_timers();
    }

    /// 0x7XNN: add immediate to register, wrapping, no flag effect.
    fn op_add_imm(&mut self, w: u16)
        requires
            old(self).wf(),
            old(self).pc <= 4094,
            w == spec_fetch(*old(self)),
        ensures
            final(self).wf(),
            sem_add_imm(*old(self), *final(self)),
    {
        proof {
            lemma_word_fields(w);
        }
        self.opcode = w;
        let x = ((w >> 8) & 0xF) as usize;
        let a = self.v[x];
        self.v[x] = a.wrapping_add((w & 0xFF) as u8);
        self.pc = self.pc + 2;
        self.tick_timers();
    }

    /// 0x8XY0: register copy.
    fn op_mov(&mut self, w: u16)
        requires
            old(self).wf(),
            old(self).pc <= 4094,
            w == spec_fetch(*old(self)),
        ensures
            final(self).wf(),
            sem_mov(*old(self), *final(self)),
    {
        proof {
            lemma_word_fields(w);
        }
        self.opcode = w;
        let x = ((w >> 8) & 0xF) as usize;
        let y = ((w >> 4) & 0xF) as usize;
        let b = self.v[y];
        self.v[x] = b;
        self.pc = self.pc + 2;
        self.tick_timers();
    }

    /// 0x8XY1: bitwise OR.
    fn op_or(&mut self, w: u16)
        requires
            old(self).wf(),
            old(self).pc <= 4094,
            w == spec_fetch(*old(self)),
        ensures
            final(self).wf(),
            sem_or(*old(self), *final(self)),
    {
        proof {
            lemma_word_fields(w);
        }
        self.opcode = w;
        let x = ((w >> 8) & 0xF) as usize;
        let y = ((w >> 4) & 0xF) as usize;
        let a = self.v[x];
        let b = self.v[y];
        self.v[x] = a | b;
        self.pc = self.pc + 2;
        self.tick_timers();
    }

    /// 0x8XY2: bitwise AND.
    fn op_and(&mut self, w: u16)
        requires
            old(self).wf(),
            old(self).pc <= 4094,
            w == spec_fetch(*old(self)),
        ensures
            final(self).wf(),
            sem_and(*old(self), *final(self)),
    {
        proof {
            lemma_word_fields(w);
        }
        self.opcode = w;
        let x = ((w >> 8) & 0xF) as usize;
        let y = ((w >> 4) & 0xF) as usize;
        let a = self.v[x];
        let b = self.v[y];
        self.v[x] = a & b;
        self.pc = self.pc + 2;
        self.tick_timers();
    }

    /// 0x8XY3: bitwise XOR.
    fn op_xor(&mut self, w: u16)
        requires
            old(self).wf(),
            old(self).pc <= 4094,
            w == spec_fetch(*old(self)),
        ensures
            final(self).wf(),
            sem_xor(*old(self), *final(self)),
    {
        proof {
            lemma_word_fields(w);
        }
        self.opcode = w;
        let x = ((w >> 8) & 0xF) as usize;
        let y = ((w >> 4) & 0xF) as usize;
        let a = self.v[x];
        let b = self.v[y];
        self.v[x] = a ^ b;
        self.pc = self.pc + 2;
        self.tick_timers();
    }

    /// 0x8XY4: add with carry; the flag is written before the add, from
    /// the pre-add operand values.
    fn op_addc(&mut self, w: u16)
        requires
            old(self).wf(),
            old(self).pc <= 4094,
            w == spec_fetch(*old(self)),
        ensures
            final(self).wf(),
            sem_addc(*old(self), *final(self)),
    {
        proof {
            lemma_word_fields(w);
        }
        self.opcode = w;
        let x = ((w >> 8) & 0xF) as usize;
        let y = ((w >> 4) & 0xF) as usize;
        let flag: u8 = if self.v[y] > 0xFF - self.v[x] {
            1
        } else {
            0
        };
        self.v[15] = flag;
        let a = self.v[x];
        let b = self.v[y];
        self.v[x] = a.wrapping_add(b);
        self.pc = self.pc + 2;
        self.tick_timers();
    }

    /// 0x8XY5: subtract with the architecture's inverted borrow flag.
    fn op_sub(&mut self, w: u16)
        requires
            old(self).wf(),
            old(self).pc <= 4094,
            w == spec_fetch(*old(self)),
        ensures
            final(self).wf(),
            sem_sub(*old(self), *final(self)),
    {
        proof {
            lemma_word_fields(w);
        }
        self.opcode = w;
        let x = ((w >> 8) & 0xF) as usize;
        let y = ((w >> 4) & 0xF) as usize;
        let flag: u8 = if self.v[y] > self.v[x] {
            0
        } else {
            1
        };
        self.v[15] = flag;
        let a = self.v[x];
        let b = self.v[y];
        self.v[x] = a.wrapping_sub(b);
        self.pc = self.pc + 2;
        self.tick_timers();
    }

    /// 0x8XY6: shift right; the flag takes the pre-shift low bit.
    fn op_shr(&mut self, w: u16)
        requires
            old(self).wf(),
            old(self).pc <= 4094,
            w == spec_fetch(*old(self)),
        ensures
            final(self).wf(),
            sem_shr(*old(self), *final(self)),
    {
        proof {
            lemma_word_fields(w);
        }
        self.opcode = w;
        let x = ((w >> 8) & 0xF) as usize;
        let flag = self.v[x] & 1;
        self.v[15] = flag;
        let a = self.v[x];
        self.v[x] = a >> 1u8;
        self.pc = self.pc + 2;
        self.tick_timers();
    }

    /// 0x8XY7: reverse subtract with the same inverted borrow flag.
    fn op_rsub(&mut self, w: u16)
        requires
            old(self).wf(),
            old(self).pc <= 4094,
            w == spec_fetch(*old(self)),
        ensures
            final(self).wf(),
            sem_rsub(*old(self), *final(self)),
    {
        proof {
            lemma_word_fields(w);
        }
        self.opcode = w;
        let x = ((w >> 8) & 0xF) as usize;
        let y = ((w >> 4) & 0xF) as usize;
        let flag: u8 = if self.v[x] > self.v[y] {
            0
        } else {
            1
        };
        self.v[15] = flag;
        let a = self.v[x];
        let b = self.v[y];
        self.v[x] = b.wrapping_sub(a);
        self.pc = self.pc + 2;
        self.tick_timers();
    }

    /// 0x8XYE: shift left; the flag takes the pre-shift high bit.
    fn op_shl(&mut self, w: u16)
        requires
            old(self).wf(),
            old(self).pc <= 4094,
            w == spec_fetch(*old(self)),
        ensures
            final(self).wf(),
            sem_shl(*old(self), *final(self)),
    {
        proof {
            lemma_word_fields(w);
        }
        self.opcode = w;
        let x = ((w >> 8) & 0xF) as usize;
        let flag = self.v[x] >> 7u8;
        self.v[15] = flag;
        let a = self.v[x];
        self.v[x] = a << 1u8;
        self.pc = self.pc + 2;
        self.tick_timers();
    }

    /// 0xANNN: set the address register.
    fn op_set_ir(&mut self, w: u16)
        requires
            old(self).wf(),
            old(self).pc <= 4094,
            w == spec_fetch(*old(self)),
        ensures
            final(self).wf(),
            sem_set_ir(*old(self), *final(self)),
    {
        self.opcode = w;
        self.ir = w & 0x0FFF;
        self.pc = self.pc + 2;
        self.tick_timers();
    }

    /// 0xBNNN: jump to the immediate plus register 0.
    fn op_jump0(&mut self, w: u16)
        requires
            old(self).wf(),
            old(self).pc <= 4094,
            w == spec_fetch(*old(self)),
        ensures
            final(self).wf(),
            sem_jump0(*old(self), *final(self)),
    {
        proof {
            lemma_word_fields(w);
        }
        self.opcode = w;
        let base = w & 0x0FFF;
        let v0 = self.v[0];
        self.pc = base + v0 as u16;
        self.tick_timers();
    }

    /// 0xCXNN: set a register to a random byte masked by the immediate.
    fn op_rand(&mut self, w: u16)
        requires
            old(self).wf(),
            old(self).pc <= 4094,
            w == spec_fetch(*old(self)),
        ensures
            final(self).wf(),
            exists|rnd: u8| #[trigger] sem_rand(*old(self), rnd, *final(self)),
    {
        proof {
            lemma_word_fields(w);
        }
        self.opcode = w;
        let x = ((w >> 8) & 0xF) as usize;
        let r = random_byte();
        self.v[x] = r & (w & 0xFF) as u8;
        self.pc = self.pc + 2;
        self.tick_timers();
        proof {
            assert(sem_rand(*old(self), r, *self));
        }
    }

    /// 0xFX07: read the delay timer into a register.
    fn op_get_delay(&mut self, w: u16)
        requires
            old(self).wf(),
            old(self).pc <= 4094,
            w == spec_fetch(*old(self)),
        ensures
            final(self).wf(),
            sem_get_delay(*old(self), *final(self)),
    {
        proof {
            lemma_word_fields(w);
        }
        self.opcode = w;
        let x = ((w >> 8) & 0xF) as usize;
        let d = self.delay_timer;
        self.v[x] = d;
        self.pc = self.pc + 2;
        self.tick_timers();
    }

    /// 0xFX15: load the delay timer from a register.
    fn op_set_delay(&mut self, w: u16)
        requires
            old(self).wf(),
            old(self).pc <= 4094,
            w == spec_fetch(*old(self)),
        ensures
            final(self).wf(),
            sem_set_delay(*old(self), *final(self)),
    {
        proof {
            lemma_word_fields(w);
        }
        self.opcode = w;
        let x = ((w >> 8) & 0xF) as usize;
        self.delay_timer = self.v[x];
        self.pc = self.pc + 2;
        self.tick_timers();
    }

    /// 0xFX18: load the sound timer from a register.
    fn op_set_sound(&mut self, w: u16)
        requires
            old(self).wf(),
            old(self).pc <= 4094,
            w == spec_fetch(*old(self)),
        ensures
            final(self).wf(),
            sem_set_sound(*old(self), *final(self)),
    {
        proof {
            lemma_word_fields(w);
        }
        self.opcode = w;
        let x = ((w >> 8) & 0xF) as usize;
        self.sound_timer = self.v[x];
        self.pc = self.pc + 2;
        self.tick_timers();
    }

    /// 0xFX1E: add a register into the address register.
    fn op_add_ir(&mut self, w: u16)
        requires
            old(self).wf(),
            old(self).pc <= 4094,
            w == spec_fetch(*old(self)),
        ensures
            final(self).wf(),
            sem_add_ir(*old(self), *final(self)),
    {
        proof {
            lemma_word_fields(w);
        }
        self.opcode = w;
        let x = ((w >> 8) & 0xF) as usize;
        let s: u32 = self.ir as u32 + self.v[x] as u32;
        self.v[15] = if s > 0xFFF {
            1
        } else {
            0
        };
        self.ir = (s % 65536) as u16;
        self.pc = self.pc + 2;
        self.tick_timers();
    }

    /// 0xFX29: point the address register at a digit's glyph.
    fn op_glyph(&mut self, w: u16)
        requires
            old(self).wf(),
            old(self).pc <= 4094,
            w == spec_fetch(*old(self)),
        ensures
            final(self).wf(),
            sem_glyph(*old(self), *final(self)),
    {
        proof {
            lemma_word_fields(w);
        }
        self.opcode = w;
        let x = ((w >> 8) & 0xF) as usize;
        self.ir = self.v[x] as u16 * 5;
        self.pc = self.pc + 2;
        self.tick_timers();
    }

    /// 0x00E0: clear the display and raise the redraw flag.
    fn op_clear(&mut self, w: u16)
        requires
            old(self).wf(),
            old(self).pc <= 4094,
            w == spec_fetch(*old(self)),
        ensures
            final(self).wf(),
            sem_clear(*old(self), *final(self)),
    {
        self.opcode = w;
        let mut i: usize = 0;
        while i < 2048
            invariant
                old(self).wf(),
                old(self).pc <= 4094,
                i <= 2048,
                self.opcode == w,
                frame_except_gfx(*old(self), *self),
                self.gfx@.len() == 2048,
                forall|j: int| 0 <= j < i ==> self.gfx@[j] == 0,
                forall|j: int| i <= j < 2048 ==> self.gfx@[j] == old(self).gfx@[j],
            decreases 2048 - i,
        {
            self.gfx[i] = 0;
            i = i + 1;
        }
        self.draw_flag = true;
        self.pc = self.pc + 2;
        self.tick_timers();
    }

    /// 0xFX0A: await a key press; the highest pressed index wins, and
    /// with no key down the counter stays put so the instruction is
    /// re-fetched next step.
    fn op_await(&mut self, w: u16)
        requires
            old(self).wf(),
            old(self).pc <= 4094,
            w == spec_fetch(*old(self)),
        ensures
            final(self).wf(),
            sem_await(*old(self), *final(self)),
    {
        proof {
            lemma_word_fields(w);
        }
        self.opcode = w;
        let x = ((w >> 8) & 0xF) as usize;
        let mut pressed = false;
        let mut i: usize = 0;
        while i < 16
            invariant
                old(self).wf(),
                old(self).pc <= 4094,
                w == spec_fetch(*old(self)),
                x == xr(w),
                x <= 15,
                i <= 16,
                self.opcode == w,
                frame_except_v(*old(self), *self),
                self.v@.len() == 16,
                match last_pressed(old(self).key@, i as int) {
                    Some(k) => pressed && self.v@ == old(self).v@.update(x as int, k as u8),
                    None => !pressed && self.v@ == old(self).v@,
                },
            decreases 16 - i,
        {
            if self.key[i] != 0 {
                self.v[x] = i as u8;
                pressed = true;
                proof {
                    assert(self.v@ =~= old(self).v@.update(x as int, i as u8));
                }
            }
            i = i + 1;
        }
        if pressed {
            self.pc = self.pc + 2;
        }
        self.tick_timers();
    }

    /// 0xFX55: store registers 0..=X at the address register, then
    /// advance the address register past the block.
    fn op_store(&mut self, w: u16)
        requires
            old(self).wf(),
            old(self).pc <= 4094,
            w == spec_fetch(*old(self)),
            old(self).ir as int + xr(w) <= 4095,
        ensures
            final(self).wf(),
            sem_store(*old(self), *final(self)),
    {
        proof {
            lemma_word_fields(w);
        }
        self.opcode = w;
        let x = ((w >> 8) & 0xF) as usize;
        let ir = self.ir as usize;
        let mut i: usize = 0;
        while i < x + 1
            invariant
                old(self).wf(),
                old(self).pc <= 4094,
                x == xr(w),
                x <= 15,
                ir == old(self).ir as int,
                ir + x <= 4095,
                i <= x + 1,
                self.opcode == w,
                frame_except_mem(*old(self), *self),
                self.memory@.len() == 4096,
                forall|j: int| 0 <= j < i ==> self.memory@[ir + j] == old(self).v@[j],
                forall|j: int|
                    0 <= j < 4096 && !(ir <= j < ir + i) ==> self.memory@[j] == old(
                        self,
                    ).memory@[j],
            decreases x + 1 - i,
        {
            let b = self.v[i];
            self.memory[ir + i] = b;
            i = i + 1;
        }
        self.ir = self.ir + x as u16 + 1;
        self.pc = self.pc + 2;
        self.tick_timers();
    }

    /// 0xFX65: load registers 0..=X from the address register, with the
    /// same post-increment of the address register.
    fn op_load(&mut self, w: u16)
        requires
            old(self).wf(),
            old(self).pc <= 4094,
            w == spec_fetch(*old(self)),
            old(self).ir as int + xr(w) <= 4095,
        ensures
            final(self).wf(),
            sem_load(*old(self), *final(self)),
    {
        proof {
            lemma_word_fields(w);
        }
        self.opcode = w;
        let x = ((w >> 8) & 0xF) as usize;
        let ir = self.ir as usize;
        let mut i: usize = 0;
        while i < x + 1
            invariant
                old(self).wf(),
                old(self).pc <= 4094,
                x == xr(w),
                x <= 15,
                ir == old(self).ir as int,
                ir + x <= 4095,
                i <= x + 1,
                self.opcode == w,
                frame_except_v(*old(self), *self),
                self.v@.len() == 16,
                forall|j: int| 0 <= j < i ==> self.v@[j] == old(self).memory@[ir + j],
                forall|j: int| i <= j < 16 ==> self.v@[j] == old(self).v@[j],
            decreases x + 1 - i,
        {
            let b = self.memory[ir + i];
            self.v[i] = b;
            i = i + 1;
        }
        self.ir = self.ir + x as u16 + 1;
        self.pc = self.pc + 2;
        self.tick_timers();
    }

    /// 0xDXYN: draw an N-row sprite read at the address register, XOR
    /// into the display, collision into the flag register.
    fn op_draw(&mut self, w: u16)
        requires
            old(self).wf(),
            old(self).pc <= 4094,
            w == spec_fetch(*old(self)),
            nib(w) > 0 ==> old(self).ir as int + nib(w) as int <= 4096,
        ensures
            final(self).wf(),
            sem_draw(*old(self), *final(self)),
    {
        proof {
            lemma_word_fields(w);
        }
        self.opcode = w;
        let xi = ((w >> 8) & 0xF) as usize;
        let yi = ((w >> 4) & 0xF) as usize;
        let x = self.v[xi];
        let y = self.v[yi];
        let n = (w & 0xF) as usize;
        self.v[15] = 0;
        let ghost target = draw_result(*old(self));
        let mut r: usize = 0;
        while r < n
            invariant
                old(self).wf(),
                old(self).pc <= 4094,
                w == spec_fetch(*old(self)),
                x == old(self).v@[xr(w)],
                y == old(self).v@[yr(w)],
                n == nib(w),
                n <= 15,
                n > 0 ==> old(self).ir as int + n as int <= 4096,
                r <= n,
                self.opcode == w,
                frame_except_gfx_v(*old(self), *self),
                self.gfx@.len() == 2048,
                forall|i: int| 0 <= i < 2048 ==> self.gfx@[i] == 0 || self.gfx@[i] == 1,
                self.v@.len() == 16,
                forall|i: int| 0 <= i < 16 && i != 15 ==> self.v@[i] == old(self).v@[i],
                self.v@[15] == 0 || self.v@[15] == 1,
                target == draw_sprite(
                    self.gfx@,
                    self.v@[15] == 1,
                    old(self).memory@,
                    old(self).ir as int,
                    x as int,
                    y as int,
                    n as int,
                    r as int,
                ),
                target == draw_result(*old(self)),
            decreases n - r,
        {
            let row: u8 = self.memory[self.ir as usize + r];
            let base: usize = 64 * (y as usize + r);
            let ghost g_row = self.gfx@;
            let ghost vf_row = self.v@[15] == 1;
            let mut c: u8 = 0;
            while c < 8
                invariant
                    old(self).wf(),
                    w == spec_fetch(*old(self)),
                    x == old(self).v@[xr(w)],
                    c <= 8,
                    r < n,
                    n <= 15,
                    base == 64 * (y as int + r as int),
                    self.opcode == w,
                    frame_except_gfx_v(*old(self), *self),
                    self.gfx@.len() == 2048,
                    forall|i: int| 0 <= i < 2048 ==> self.gfx@[i] == 0 || self.gfx@[i] == 1,
                    self.v@.len() == 16,
                    forall|i: int| 0 <= i < 16 && i != 15 ==> self.v@[i] == old(self).v@[i],
                    self.v@[15] == 0 || self.v@[15] == 1,
                    draw_row(
                        self.gfx@,
                        self.v@[15] == 1,
                        row,
                        x as int,
                        base as int,
                        c as int,
                    ) == draw_row(g_row, vf_row, row, x as int, base as int, 0),
                decreases 8 - c,
            {
                let ghost g_i = self.gfx@;
                let ghost vf_i = self.v@[15] == 1;
                if row & (0x80u8 >> c) != 0 {
                    let pos = x as usize + c as usize + base;
                    if pos < 2048 {
                        let cur = self.gfx[pos];
                        if cur == 1 {
                            self.v[15] = 1;
                        }
                        self.gfx[pos] = cur ^ 1;
                        proof {
                            lemma_xor_bit(cur);
                        }
                    }
                }
                proof {
                    assert((self.gfx@, self.v@[15] == 1) == put_pixel(
                        g_i,
                        vf_i,
                        x as int + c as int + base as int,
                        sprite_bit(row, c as int),
                    ));
                    assert(draw_row(g_i, vf_i, row, x as int, base as int, c as int)
                        == draw_row(
                        self.gfx@,
                        self.v@[15] == 1,
                        row,
                        x as int,
                        base as int,
                        c as int + 1,
                    ));
                }
                c = c + 1;
            }
            proof {
                assert(draw_row(self.gfx@, self.v@[15] == 1, row, x as int, base as int, 8) == (
                    self.gfx@,
                    self.v@[15] == 1,
                ));
                assert(draw_sprite(
                    g_row,
                    vf_row,
                    old(self).memory@,
                    old(self).ir as int,
                    x as int,
                    y as int,
                    n as int,
                    r as int,
                ) == draw_sprite(
                    self.gfx@,
                    self.v@[15] == 1,
                    old(self).memory@,
                    old(self).ir as int,
                    x as int,
                    y as int,
                    n as int,
                    r as int + 1,
                ));
            }
            r = r + 1;
        }
        proof {
            assert(draw_sprite(
                self.gfx@,
                self.v@[15] == 1,
                old(self).memory@,
                old(self).ir as int,
                x as int,
                y as int,
                n as int,
                n as int,
            ) == (self.gfx@, self.v@[15] == 1));
        }
        self.draw_flag = true;
        self.pc = self.pc + 2;
        self.tick_timers();
        proof {
            assert(self.gfx@ == target.0);
            assert(self.v@ =~= old(self).v@.update(
                15,
                if target.1 {
                    1u8
                } else {
                    0u8
                },
            ));
        }
    }

    /// 0xFX33: store the decimal digits of a register.
    fn op_bcd(&mut self, w: u16)
        requires
            old(self).wf(),
            old(self).pc <= 4094,
            w == spec_fetch(*old(self)),
            old(self).ir as int + 2 <= 4095,
        ensures
            final(self).wf(),
            sem_bcd(*old(self), *final(self)),
    {
        proof {
            lemma_word_fields(w);
        }
        self.opcode = w;
        let x = ((w >> 8) & 0xF) as usize;
        let val = self.v[x];
        let ir = self.ir as usize;
        self.memory[ir] = val / 100;
        self.memory[ir + 1] = (val / 10) % 10;
        self.memory[ir + 2] = (val % 100) % 10;
        self.pc = self.pc + 2;
        self.tick_timers();
    }
}

/// Relies on rand::random: one byte from the host's randomness source.
/// The value depends on that source's state, so nothing is promised of
/// it; callers state what holds whatever byte comes back.
#[verifier::external_body]
fn random_byte() -> u8 {
    rand::random::<u8>()
}

/// A vector of `n` zero bytes.
fn zero_bytes(n: usize) -> (v: Vec<u8>)
    ensures
        v@.len() == n,
        forall|i: int| 0 <= i < n ==> v@[i] == 0,
{
    let mut v: Vec<u8> = Vec::new();
    let mut i: usize = 0;
    while i < n
        invariant
            i <= n,
            v@.len() == i,
            forall|j: int| 0 <= j < i ==> v@[j] == 0,
        decreases n - i,
    {
        v.push(0);
        i = i + 1;
    }
    v
}

/// A vector of `n` zero 16-bit words.
fn zero_words(n: usize) -> (v: Vec<u16>)
    ensures
        v@.len() == n,
        forall|i: int| 0 <= i < n ==> v@[i] == 0,
{
    let mut v: Vec<u16> = Vec::new();
    let mut i: usize = 0;
    while i < n
        invariant
            i <= n,
            v@.len() == i,
            forall|j: int| 0 <= j < i ==> v@[j] == 0,
        decreases n - i,
    {
        v.push(0);
        i = i + 1;
    }
    v
}

/// The glyph table as bytes, matching `spec_fontset` element for
/// element.
fn fontset() -> (v: Vec<u8>)
    ensures
        v@.len() == 80,
        forall|i: int| 0 <= i < 80 ==> v@[i] == spec_fontset()[i],
{
    let table: [u8; 80] = [
        0xF0, 0x90, 0x90, 0x90, 0xF0, // 0
        0x20, 0x60, 0x20, 0x20, 0x70, // 1
        0xF0, 0x10, 0xF0, 0x80, 0xF0, // 2
        0xF0, 0x10, 0xF0, 0x10, 0xF0, // 3
        0x90, 0x90, 0xF0, 0x10, 0x10, // 4
        0xF0, 0x80, 0xF0, 0x10, 0xF0, // 5
        0xF0, 0x80, 0xF0, 0x90, 0xF0, // 6
        0xF0, 0x10, 0x20, 0x40, 0x40, // 7
        0xF0, 0x90, 0xF0, 0x90, 0xF0, // 8
        0xF0, 0x90, 0xF0, 0x10, 0xF0, // 9
        0xF0, 0x90, 0xF0, 0x90, 0x90, // A
        0xE0, 0x90, 0xE0, 0x90, 0xE0, // B
        0xF0, 0x80, 0x80, 0x80, 0xF0, // C
        0xE0, 0x90, 0x90, 0x90, 0xE0, // D
        0xF0, 0x80, 0xF0, 0x80, 0xF0, // E
        0xF0, 0x80, 0xF0, 0x80, 0x80, // F
    ];
    let mut v: Vec<u8> = Vec::new();
    let mut i: usize = 0;
    while i < 80
        invariant
            i <= 80,
            v@.len() == i,
            forall|j: int| 0 <= j < 80 ==> table@[j] == spec_fontset()[j],
            forall|j: int| 0 <= j < i ==> v@[j] == spec_fontset()[j],
        decreases 80 - i,
    {
        v.push(table[i]);
        i = i + 1;
    }
    v
}

} // verus!
