//! The per-instruction state transitions, one handler per variant, each
//! proved equal to its mathematical transition on the machine model.
//!
//! Shared conventions: a handler advances the program counter by 2
//! after its effect, a conditional skip advances by 4 instead when its
//! condition holds, and control-flow instructions assign the counter
//! directly.  All 8-bit arithmetic wraps at register width.  A memory
//! access that would fall outside the 4096-byte space is fatal: it
//! halts the machine and leaves everything else, the counter included,
//! as it was.
use vstd::prelude::*;

use crate::cpu::Cpu;
use crate::machine::KEYBOARD_SIZE;
use crate::machine::MEMORY_SIZE;
use crate::machine::Machine;
use crate::machine::STACK_SIZE;
use crate::optcodes::spec_kk;
use crate::optcodes::spec_nnn;
use crate::optcodes::spec_vx;
use crate::optcodes::spec_vy;
use crate::optcodes::kk_of;
use crate::optcodes::nnn;
use crate::optcodes::vx_of;
use crate::optcodes::vy_of;
use crate::rng::random_byte;

verus! {

/// 8-bit addition, wrapping at register width.
pub open spec fn wrap_add8(a: u8, b: u8) -> u8 {
    if a + b > 255 {
        (a + b - 256) as u8
    } else {
        (a + b) as u8
    }
}

/// 8-bit subtraction, wrapping at register width.
pub open spec fn wrap_sub8(a: u8, b: u8) -> u8 {
    if a - b < 0 {
        (a - b + 256) as u8
    } else {
        (a - b) as u8
    }
}

/// 8-bit doubling, wrapping at register width.
pub open spec fn wrap_double8(a: u8) -> u8 {
    ((2 * a) % 256) as u8
}

/// The stack pointer after a push: one step up, wrapping to 0 at the
/// top rather than trapping.
pub open spec fn spec_sp_inc(sp: int) -> int {
    if sp < STACK_SIZE - 1 {
        sp + 1
    } else {
        0
    }
}

/// The stack pointer after a pop: one step down, wrapping to the top
/// rather than trapping.
pub open spec fn spec_sp_dec(sp: int) -> int {
    if sp > 0 {
        sp - 1
    } else {
        STACK_SIZE - 1
    }
}

/// The highest pressed key below `upto`, or -1 when none is down.
pub open spec fn last_pressed(keys: Seq<bool>, upto: int) -> int
    decreases upto,
{
    if upto <= 0 {
        -1
    } else if keys[upto - 1] {
        upto - 1
    } else {
        last_pressed(keys, upto - 1)
    }
}

/// The machine-code-routine instruction: a no-op that still advances
/// the counter.
pub open spec fn sem_sys(m: Machine) -> Machine {
    Machine { pc: m.pc + 2, ..m }
}

/// Return from a subroutine: retreat the stack pointer, resume two
/// past the popped address.
pub open spec fn sem_ret(m: Machine) -> Machine {
    let sp2 = spec_sp_dec(m.sp);
    Machine { sp: sp2, pc: m.stack[sp2] + 2, ..m }
}

/// Call a subroutine: stack the current counter, advance the stack
/// pointer, jump to the 12-bit immediate.
pub open spec fn sem_call(m: Machine, opt: u16) -> Machine {
    Machine {
        stack: m.stack.update(m.sp, m.pc as u16),
        sp: spec_sp_inc(m.sp),
        pc: spec_nnn(opt) as int,
        ..m
    }
}

/// Unconditional jump to the 12-bit immediate.
pub open spec fn sem_jp(m: Machine, opt: u16) -> Machine {
    Machine { pc: spec_nnn(opt) as int, ..m }
}

/// The counter after a conditional skip: 4 past when the condition
/// holds, 2 past otherwise.
pub open spec fn skip_pc(m: Machine, cond: bool) -> int {
    if cond {
        m.pc + 4
    } else {
        m.pc + 2
    }
}

/// Skip when the register equals the immediate.
pub open spec fn sem_se_vx_byte(m: Machine, opt: u16) -> Machine {
    Machine { pc: skip_pc(m, m.v[spec_vx(opt)] == spec_kk(opt)), ..m }
}

/// Skip when the register differs from the immediate.
pub open spec fn sem_sne_vx_byte(m: Machine, opt: u16) -> Machine {
    Machine { pc: skip_pc(m, m.v[spec_vx(opt)] != spec_kk(opt)), ..m }
}

/// Skip when the two registers are equal.
pub open spec fn sem_se_vx_vy(m: Machine, opt: u16) -> Machine {
    Machine { pc: skip_pc(m, m.v[spec_vx(opt)] == m.v[spec_vy(opt)]), ..m }
}

/// Skip when the two registers differ.
pub open spec fn sem_sne_vx_vy(m: Machine, opt: u16) -> Machine {
    Machine { pc: skip_pc(m, m.v[spec_vx(opt)] != m.v[spec_vy(opt)]), ..m }
}

/// Set a register to the 8-bit immediate.
pub open spec fn sem_ld_vx_byte(m: Machine, opt: u16) -> Machine {
    Machine { v: m.v.update(spec_vx(opt), spec_kk(opt)), pc: m.pc + 2, ..m }
}

/// Add the immediate to a register, wrapping, with no flag effect.
pub open spec fn sem_add_vx_byte(m: Machine, opt: u16) -> Machine {
    Machine {
        v: m.v.update(spec_vx(opt), wrap_add8(m.v[spec_vx(opt)], spec_kk(opt))),
        pc: m.pc + 2,
        ..m
    }
}

/// Copy one register into another.
pub open spec fn sem_ld_vx_vy(m: Machine, opt: u16) -> Machine {
    Machine { v: m.v.update(spec_vx(opt), m.v[spec_vy(opt)]), pc: m.pc + 2, ..m }
}

/// Bitwise OR of two registers, no flag effect.
pub open spec fn sem_or_vx_vy(m: Machine, opt: u16) -> Machine {
    Machine {
        v: m.v.update(spec_vx(opt), m.v[spec_vx(opt)] | m.v[spec_vy(opt)]),
        pc: m.pc + 2,
        ..m
    }
}

/// Bitwise AND of two registers, no flag effect.
pub open spec fn sem_and_vx_vy(m: Machine, opt: u16) -> Machine {
    Machine {
        v: m.v.update(spec_vx(opt), m.v[spec_vx(opt)] & m.v[spec_vy(opt)]),
        pc: m.pc + 2,
        ..m
    }
}

/// Bitwise XOR of two registers, no flag effect.
pub open spec fn sem_xor_vx_vy(m: Machine, opt: u16) -> Machine {
    Machine {
        v: m.v.update(spec_vx(opt), m.v[spec_vx(opt)] ^ m.v[spec_vy(opt)]),
        pc: m.pc + 2,
        ..m
    }
}

/// Addition with carry: the destination takes the wrapped sum, then the
/// flags register takes 1 exactly when the unwrapped sum exceeds 255.
pub open spec fn sem_add_vx_vy(m: Machine, opt: u16) -> Machine {
    let x = spec_vx(opt);
    let y = spec_vy(opt);
    let carry: u8 = if m.v[x] + m.v[y] > 255 {
        1
    } else {
        0
    };
    Machine {
        v: m.v.update(x, wrap_add8(m.v[x], m.v[y])).update(15, carry),
        pc: m.pc + 2,
        ..m
    }
}

/// Subtraction with not-borrow: the flags register takes 1 exactly when
/// the minuend strictly exceeds the subtrahend, before the destination
/// takes the wrapped difference.
pub open spec fn sem_sub_vx_vy(m: Machine, opt: u16) -> Machine {
    let x = spec_vx(opt);
    let y = spec_vy(opt);
    let flag: u8 = if m.v[x] > m.v[y] {
        1
    } else {
        0
    };
    let v1 = m.v.update(15, flag);
    Machine { v: v1.update(x, wrap_sub8(v1[x], v1[y])), pc: m.pc + 2, ..m }
}

/// Halve the register, then set the flags register from the post-shift
/// value's high bit.
pub open spec fn sem_shr_vx_vy(m: Machine, opt: u16) -> Machine {
    let x = spec_vx(opt);
    let v1 = m.v.update(x, m.v[x] / 2);
    let flag: u8 = if v1[x] & 0x80 == 0 {
        0
    } else {
        1
    };
    Machine { v: v1.update(15, flag), pc: m.pc + 2, ..m }
}

/// Double the register, wrapping, then set the flags register from the
/// post-shift value's high bit.
pub open spec fn sem_shl_vx_vy(m: Machine, opt: u16) -> Machine {
    let x = spec_vx(opt);
    let v1 = m.v.update(x, wrap_double8(m.v[x]));
    let flag: u8 = if v1[x] & 0x80 == 0 {
        0
    } else {
        1
    };
    Machine { v: v1.update(15, flag), pc: m.pc + 2, ..m }
}

/// Set the index register to the 12-bit immediate.
pub open spec fn sem_ld_i_addr(m: Machine, opt: u16) -> Machine {
    Machine { i: spec_nnn(opt) as int, pc: m.pc + 2, ..m }
}

/// Add a register to the index register, wrapping at 16 bits, with no
/// flag effect.
pub open spec fn sem_add_i_vx(m: Machine, opt: u16) -> Machine {
    Machine { i: (m.i + m.v[spec_vx(opt)]) % 0x10000, pc: m.pc + 2, ..m }
}

/// Point the index register at the font glyph for the register's
/// value: each glyph is five bytes, so digit d lives at address d * 5.
pub open spec fn sem_ld_f_vx(m: Machine, opt: u16) -> Machine {
    Machine { i: m.v[spec_vx(opt)] * 5, pc: m.pc + 2, ..m }
}

/// Read the delay timer into a register.
pub open spec fn sem_ld_vx_dt(m: Machine, opt: u16) -> Machine {
    Machine { v: m.v.update(spec_vx(opt), m.dt), pc: m.pc + 2, ..m }
}

/// Set the delay timer from a register.
pub open spec fn sem_ld_dt_vx(m: Machine, opt: u16) -> Machine {
    Machine { dt: m.v[spec_vx(opt)], pc: m.pc + 2, ..m }
}

/// Set the sound timer from a register.
pub open spec fn sem_ld_st_vx(m: Machine, opt: u16) -> Machine {
    Machine { st: m.v[spec_vx(opt)], pc: m.pc + 2, ..m }
}

/// Store the binary-coded-decimal digits of the register's value at the
/// index register's address: hundreds first, then tens, then ones.
/// Fatal when the three cells do not fit inside memory.
pub open spec fn sem_ld_b_vx(m: Machine, opt: u16) -> Machine {
    if m.i + 2 < MEMORY_SIZE {
        let val = m.v[spec_vx(opt)];
        Machine {
            mem: m.mem.update(m.i, val / 100).update(m.i + 1, (val / 10) % 10).update(
                m.i + 2,
                val % 10,
            ),
            pc: m.pc + 2,
            ..m
        }
    } else {
        m.halted()
    }
}

/// Store registers 0 through X inclusive into memory at the index
/// register's address.  Fatal when the span does not fit inside memory.
pub open spec fn sem_ld_i_vx(m: Machine, opt: u16) -> Machine {
    let x = spec_vx(opt);
    if m.i + x < MEMORY_SIZE {
        Machine {
            mem: Seq::new(
                MEMORY_SIZE as nat,
                |a: int|
                    if m.i <= a <= m.i + x {
                        m.v[a - m.i]
                    } else {
                        m.mem[a]
                    },
            ),
            pc: m.pc + 2,
            ..m
        }
    } else {
        m.halted()
    }
}

/// Load registers 0 through X inclusive from memory at the index
/// register's address.  Fatal when the span does not fit inside memory.
pub open spec fn sem_ld_vx_i(m: Machine, opt: u16) -> Machine {
    let x = spec_vx(opt);
    if m.i + x < MEMORY_SIZE {
        Machine {
            v: Seq::new(
                16,
                |k: int|
                    if 0 <= k <= x {
                        m.mem[m.i + k]
                    } else {
                        m.v[k]
                    },
            ),
            pc: m.pc + 2,
            ..m
        }
    } else {
        m.halted()
    }
}

/// Set a register to a fresh pseudo-random byte ANDed with the 8-bit
/// immediate mask.
pub open spec fn sem_rnd_vx_byte(m: Machine, opt: u16, rnd: u8) -> Machine {
    Machine { v: m.v.update(spec_vx(opt), rnd & spec_kk(opt)), pc: m.pc + 2, ..m }
}

/// Skip when the key named by the register is down.  A register value
/// that names no key is fatal.
pub open spec fn sem_skp_vx(m: Machine, opt: u16) -> Machine {
    let key = m.v[spec_vx(opt)];
    if key < KEYBOARD_SIZE {
        Machine { pc: skip_pc(m, m.keys[key as int]), ..m }
    } else {
        m.halted()
    }
}

/// Skip when the key named by the register is up.  A register value
/// that names no key is fatal.
pub open spec fn sem_sknp_vx(m: Machine, opt: u16) -> Machine {
    let key = m.v[spec_vx(opt)];
    if key < KEYBOARD_SIZE {
        Machine { pc: skip_pc(m, !m.keys[key as int]), ..m }
    } else {
        m.halted()
    }
}

/// Wait for a key: when some key is down, store the highest such key's
/// index and advance; when none is, leave the counter in place so the
/// same instruction runs again on the next loop iteration.
pub open spec fn sem_ld_vx_k(m: Machine, opt: u16) -> Machine {
    let hit = last_pressed(m.keys, KEYBOARD_SIZE as int);
    if hit >= 0 {
        Machine { v: m.v.update(spec_vx(opt), hit as u8), pc: m.pc + 2, ..m }
    } else {
        m
    }
}

impl Cpu {
    /// The catch-all for undefined instruction words: fatal, halts the
    /// machine, the counter does not advance.
    pub fn none(&mut self, optcode: u16)
        requires
            old(self)@.wf(),
        ensures
            final(self)@.wf(),
            final(self)@ == old(self)@.halted(),
    {
        self.quit = true;
    }

    /// The machine-code-routine instruction: defined on period hardware
    /// only, a no-op here that still advances the counter.
    pub fn sys(&mut self, optcode: u16)
        requires
            old(self)@.wf(),
            old(self)@.pc + 2 <= u16::MAX,
        ensures
            final(self)@.wf(),
            final(self)@ == sem_sys(old(self)@),
    {
        self.pc = self.pc + 2;
    }

    /// Return from a subroutine.
    pub fn ret(&mut self)
        requires
            old(self)@.wf(),
        ensures
            final(self)@.wf(),
            final(self)@ == sem_ret(old(self)@),
    {
        self.sp_decrement();
        self.pc = self.stack[self.sp];
        self.pc = self.pc + 2;
    }

    /// Call the subroutine at the 12-bit immediate.
    pub fn call(&mut self, optcode: u16)
        requires
            old(self)@.wf(),
            old(self)@.pc < MEMORY_SIZE,
        ensures
            final(self)@.wf(),
            final(self)@ == sem_call(old(self)@, optcode),
    {
        self.stack[self.sp] = self.pc;
        self.sp_increment();
        self.pc = nnn(optcode);
    }

    /// Jump to the 12-bit immediate.
    pub fn jp(&mut self, optcode: u16)
        requires
            old(self)@.wf(),
        ensures
            final(self)@.wf(),
            final(self)@ == sem_jp(old(self)@, optcode),
    {
        self.pc = nnn(optcode);
    }

    /// Skip the next instruction when the register equals the immediate.
    pub fn se_vx_byte(&mut self, optcode: u16)
        requires
            old(self)@.wf(),
            old(self)@.pc + 4 <= u16::MAX,
        ensures
            final(self)@.wf(),
            final(self)@ == sem_se_vx_byte(old(self)@, optcode),
    {
        let x = vx_of(optcode);
        let byte = kk_of(optcode);
        if self.v[x] == byte {
            self.pc = self.pc + 4;
        } else {
            self.pc = self.pc + 2;
        }
    }

    /// Skip the next instruction when the register differs from the
    /// immediate.
    pub fn sne_vx_byte(&mut self, optcode: u16)
        requires
            old(self)@.wf(),
            old(self)@.pc + 4 <= u16::MAX,
        ensures
            final(self)@.wf(),
            final(self)@ == sem_sne_vx_byte(old(self)@, optcode),
    {
        let x = vx_of(optcode);
        let byte = kk_of(optcode);
        if self.v[x] != byte {
            self.pc = self.pc + 4;
        } else {
            self.pc = self.pc + 2;
        }
    }

    /// Skip the next instruction when the two registers are equal.
    pub fn se_vx_vy(&mut self, optcode: u16)
        requires
            old(self)@.wf(),
            old(self)@.pc + 4 <= u16::MAX,
        ensures
            final(self)@.wf(),
            final(self)@ == sem_se_vx_vy(old(self)@, optcode),
    {
        let x = vx_of(optcode);
        let y = vy_of(optcode);
        if self.v[x] == self.v[y] {
            self.pc = self.pc + 4;
        } else {
            self.pc = self.pc + 2;
        }
    }

    /// Skip the next instruction when the two registers differ.
    pub fn sne_vx_vy(&mut self, optcode: u16)
        requires
            old(self)@.wf(),
            old(self)@.pc + 4 <= u16::MAX,
        ensures
            final(self)@.wf(),
            final(self)@ == sem_sne_vx_vy(old(self)@, optcode),
    {
        let x = vx_of(optcode);
        let y = vy_of(optcode);
        if self.v[x] != self.v[y] {
            self.pc = self.pc + 4;
        } else {
            self.pc = self.pc + 2;
        }
    }

    /// Set a register to the 8-bit immediate.
    pub fn ld_vx_byte(&mut self, optcode: u16)
        requires
            old(self)@.wf(),
            old(self)@.pc + 2 <= u16::MAX,
        ensures
            final(self)@.wf(),
            final(self)@ == sem_ld_vx_byte(old(self)@, optcode),
    {
        let x = vx_of(optcode);
        let byte = kk_of(optcode);
        self.v[x] = byte;
        self.pc = self.pc + 2;
    }

    /// Add the immediate to a register, wrapping, with no flag effect.
    pub fn add_vx_byte(&mut self, optcode: u16)
        requires
            old(self)@.wf(),
            old(self)@.pc + 2 <= u16::MAX,
        ensures
            final(self)@.wf(),
            final(self)@ == sem_add_vx_byte(old(self)@, optcode),
    {
        let x = vx_of(optcode);
        let byte = kk_of(optcode);
        self.v[x] = self.v[x].wrapping_add(byte);
        self.pc = self.pc + 2;
    }

    /// Copy one register into another.
    pub fn ld_vx_vy(&mut self, optcode: u16)
        requires
            old(self)@.wf(),
            old(self)@.pc + 2 <= u16::MAX,
        ensures
            final(self)@.wf(),
            final(self)@ == sem_ld_vx_vy(old(self)@, optcode),
    {
        let x = vx_of(optcode);
        let y = vy_of(optcode);
        self.v[x] = self.v[y];
        self.pc = self.pc + 2;
    }

    /// Bitwise OR of two registers.
    pub fn or_vx_vy(&mut self, optcode: u16)
        requires
            old(self)@.wf(),
            old(self)@.pc + 2 <= u16::MAX,
        ensures
            final(self)@.wf(),
            final(self)@ == sem_or_vx_vy(old(self)@, optcode),
    {
        let x = vx_of(optcode);
        let y = vy_of(optcode);
        self.v[x] = self.v[x] | self.v[y];
        self.pc = self.pc + 2;
    }

    /// Bitwise AND of two registers.
    pub fn and_vx_vy(&mut self, optcode: u16)
        requires
            old(self)@.wf(),
            old(self)@.pc + 2 <= u16::MAX,
        ensures
            final(self)@.wf(),
            final(self)@ == sem_and_vx_vy(old(self)@, optcode),
    {
        let x = vx_of(optcode);
        let y = vy_of(optcode);
        self.v[x] = self.v[x] & self.v[y];
        self.pc = self.pc + 2;
    }

    /// Bitwise XOR of two registers.
    pub fn xor_vx_vy(&mut self, optcode: u16)
        requires
            old(self)@.wf(),
            old(self)@.pc + 2 <= u16::MAX,
        ensures
            final(self)@.wf(),
            final(self)@ == sem_xor_vx_vy(old(self)@, optcode),
    {
        let x = vx_of(optcode);
        let y = vy_of(optcode);
        self.v[x] = self.v[x] ^ self.v[y];
        self.pc = self.pc + 2;
    }

    /// Addition with carry into the flags register.
    pub fn add_vx_vy(&mut self, optcode: u16)
        requires
            old(self)@.wf(),
            old(self)@.pc + 2 <= u16::MAX,
        ensures
            final(self)@.wf(),
            final(self)@ == sem_add_vx_vy(old(self)@, optcode),
    {
        let x = vx_of(optcode);
        let y = vy_of(optcode);
        let a = self.v[x];
        let b = self.v[y];
        self.v[x] = a.wrapping_add(b);
        if a as u16 + b as u16 > 255 {
            self.v[15] = 1;
        } else {
            self.v[15] = 0;
        }
        self.pc = self.pc + 2;
    }

    /// Subtraction with not-borrow into the flags register.
    pub fn sub_vx_vy(&mut self, optcode: u16)
        requires
            old(self)@.wf(),
            old(self)@.pc + 2 <= u16::MAX,
        ensures
            final(self)@.wf(),
            final(self)@ == sem_sub_vx_vy(old(self)@, optcode),
    {
        let x = vx_of(optcode);
        let y = vy_of(optcode);
        if self.v[x] > self.v[y] {
            self.v[15] = 1;
        } else {
            self.v[15] = 0;
        }
        self.v[x] = self.v[x].wrapping_sub(self.v[y]);
        self.pc = self.pc + 2;
    }

    /// Halve the register; flags from the post-shift high bit.
    pub fn shr_vx_vy(&mut self, optcode: u16)
        requires
            old(self)@.wf(),
            old(self)@.pc + 2 <= u16::MAX,
        ensures
            final(self)@.wf(),
            final(self)@ == sem_shr_vx_vy(old(self)@, optcode),
    {
        let x = vx_of(optcode);
        self.v[x] = self.v[x] / 2;
        if self.v[x] & 0x80 == 0 {
            self.v[15] = 0;
        } else {
            self.v[15] = 1;
        }
        self.pc = self.pc + 2;
    }

    /// Double the register, wrapping; flags from the post-shift high
    /// bit.
    pub fn shl_vx_vy(&mut self, optcode: u16)
        requires
            old(self)@.wf(),
            old(self)@.pc + 2 <= u16::MAX,
        ensures
            final(self)@.wf(),
            final(self)@ == sem_shl_vx_vy(old(self)@, optcode),
    {
        let x = vx_of(optcode);
        self.v[x] = self.v[x].wrapping_mul(2);
        if self.v[x] & 0x80 == 0 {
            self.v[15] = 0;
        } else {
            self.v[15] = 1;
        }
        self.pc = self.pc + 2;
    }

    /// Set the index register to the 12-bit immediate.
    pub fn ld_i_addr(&mut self, optcode: u16)
        requires
            old(self)@.wf(),
            old(self)@.pc + 2 <= u16::MAX,
        ensures
            final(self)@.wf(),
            final(self)@ == sem_ld_i_addr(old(self)@, optcode),
    {
        self.i = nnn(optcode) as usize;
        self.pc = self.pc + 2;
    }

    /// Add a register to the index register.  The index register is
    /// conceptually a 12-bit address with headroom: it wraps at 16 bits
    /// rather than accumulating without bound, and every later use as a
    /// memory address is bounds-checked.
    pub fn add_i_vx(&mut self, optcode: u16)
        requires
            old(self)@.wf(),
            old(self)@.pc + 2 <= u16::MAX,
        ensures
            final(self)@.wf(),
            final(self)@ == sem_add_i_vx(old(self)@, optcode),
    {
        let x = vx_of(optcode);
        self.i = (self.i + self.v[x] as usize) % 0x10000;
        self.pc = self.pc + 2;
    }

    /// Point the index register at the font glyph for the register's
    /// value.
    pub fn ld_f_vx(&mut self, optcode: u16)
        requires
            old(self)@.wf(),
            old(self)@.pc + 2 <= u16::MAX,
        ensures
            final(self)@.wf(),
            final(self)@ == sem_ld_f_vx(old(self)@, optcode),
    {
        let x = vx_of(optcode);
        self.i = self.v[x] as usize * 5;
        self.pc = self.pc + 2;
    }

    /// Read the delay timer into a register.
    pub fn ld_vx_dt(&mut self, optcode: u16)
        requires
            old(self)@.wf(),
            old(self)@.pc + 2 <= u16::MAX,
        ensures
            final(self)@.wf(),
            final(self)@ == sem_ld_vx_dt(old(self)@, optcode),
    {
        let x = vx_of(optcode);
        self.v[x] = self.delay_timer;
        self.pc = self.pc + 2;
    }

    /// Set the delay timer from a register.
    pub fn ld_dt_vx(&mut self, optcode: u16)
        requires
            old(self)@.wf(),
            old(self)@.pc + 2 <= u16::MAX,
        ensures
            final(self)@.wf(),
            final(self)@ == sem_ld_dt_vx(old(self)@, optcode),
    {
        let x = vx_of(optcode);
        self.delay_timer = self.v[x];
        self.pc = self.pc + 2;
    }

    /// Set the sound timer from a register.
    pub fn ld_st_vx(&mut self, optcode: u16)
        requires
            old(self)@.wf(),
            old(self)@.pc + 2 <= u16::MAX,
        ensures
            final(self)@.wf(),
            final(self)@ == sem_ld_st_vx(old(self)@, optcode),
    {
        let x = vx_of(optcode);
        self.sound_timer = self.v[x];
        self.pc = self.pc + 2;
    }

    /// Store the binary-coded-decimal digits of the register's value at
    /// the index register's address.
    pub fn ld_b_vx(&mut self, optcode: u16)
        requires
            old(self)@.wf(),
            old(self)@.pc + 2 <= u16::MAX,
        ensures
            final(self)@.wf(),
            final(self)@ == sem_ld_b_vx(old(self)@, optcode),
    {
        if self.i + 2 >= MEMORY_SIZE {
            self.quit = true;
            return;
        }
        let x = vx_of(optcode);
        let val = self.v[x];
        self.memory[self.i] = val / 100;
        self.memory[self.i + 1] = (val / 10) % 10;
        self.memory[self.i + 2] = val % 10;
        self.pc = self.pc + 2;
    }

    /// Store registers 0 through X inclusive into memory at the index
    /// register's address.
    pub fn ld_i_vx(&mut self, optcode: u16)
        requires
            old(self)@.wf(),
            old(self)@.pc + 2 <= u16::MAX,
        ensures
            final(self)@.wf(),
            final(self)@ == sem_ld_i_vx(old(self)@, optcode),
    {
        let x = vx_of(optcode);
        if self.i + x >= MEMORY_SIZE {
            self.quit = true;
            return;
        }
        let mut k: usize = 0;
        while k <= x
            invariant
                0 <= k <= x + 1,
                x < 16,
                self@.wf(),
                self@.i + x < MEMORY_SIZE,
                forall|a: int|
                    self@.i <= a < self@.i + k ==> self@.mem[a] == self@.v[a - self@.i],
                forall|a: int|
                    0 <= a < MEMORY_SIZE && !(self@.i <= a < self@.i + k)
                        ==> self@.mem[a] == old(self)@.mem[a],
                self@ == (Machine { mem: self@.mem, ..old(self)@ }),
            decreases x + 1 - k,
        {
            self.memory[self.i + k] = self.v[k];
            k = k + 1;
        }
        self.pc = self.pc + 2;
        proof {
            assert(final(self)@.mem =~= sem_ld_i_vx(old(self)@, optcode).mem);
        }
    }

    /// Load registers 0 through X inclusive from memory at the index
    /// register's address.
    pub fn ld_vx_i(&mut self, optcode: u16)
        requires
            old(self)@.wf(),
            old(self)@.pc + 2 <= u16::MAX,
        ensures
            final(self)@.wf(),
            final(self)@ == sem_ld_vx_i(old(self)@, optcode),
    {
        let x = vx_of(optcode);
        if self.i + x >= MEMORY_SIZE {
            self.quit = true;
            return;
        }
        let mut k: usize = 0;
        while k <= x
            invariant
                0 <= k <= x + 1,
                x < 16,
                self@.wf(),
                self@.i + x < MEMORY_SIZE,
                forall|j: int| 0 <= j < k ==> self@.v[j] == self@.mem[self@.i + j],
                forall|j: int| k <= j < 16 ==> self@.v[j] == old(self)@.v[j],
                self@ == (Machine { v: self@.v, ..old(self)@ }),
            decreases x + 1 - k,
        {
            self.v[k] = self.memory[self.i + k];
            k = k + 1;
        }
        self.pc = self.pc + 2;
        proof {
            assert(final(self)@.v =~= sem_ld_vx_i(old(self)@, optcode).v);
        }
    }

    /// Set a register to a fresh pseudo-random byte, drawn uniformly
    /// over 0-254, ANDed with the immediate mask.  The contract states
    /// what holds of every draw; `rnd_vx_byte_with` pins the result for
    /// a given byte.
    pub fn rnd_vx_byte(&mut self, optcode: u16)
        requires
            old(self)@.wf(),
            old(self)@.pc + 2 <= u16::MAX,
        ensures
            final(self)@.wf(),
            exists|rnd: u8|
                rnd < 255 && final(self)@ == sem_rnd_vx_byte(old(self)@, optcode, rnd),
    {
        let rnd = random_byte();
        self.rnd_vx_byte_with(optcode, rnd);
    }

    /// The random-mask instruction for a given byte: the destination
    /// takes the byte ANDed with the immediate mask.
    pub fn rnd_vx_byte_with(&mut self, optcode: u16, rnd: u8)
        requires
            old(self)@.wf(),
            old(self)@.pc + 2 <= u16::MAX,
        ensures
            final(self)@.wf(),
            final(self)@ == sem_rnd_vx_byte(old(self)@, optcode, rnd),
    {
        let x = vx_of(optcode);
        let byte = kk_of(optcode);
        self.v[x] = rnd & byte;
        self.pc = self.pc + 2;
    }

    /// Skip the next instruction when the key named by the register is
    /// down.
    pub fn skp_vx(&mut self, optcode: u16)
        requires
            old(self)@.wf(),
            old(self)@.pc + 4 <= u16::MAX,
        ensures
            final(self)@.wf(),
            final(self)@ == sem_skp_vx(old(self)@, optcode),
    {
        let x = vx_of(optcode);
        let key = self.v[x] as usize;
        if key >= KEYBOARD_SIZE {
            self.quit = true;
            return;
        }
        if self.keyboard[key] {
            self.pc = self.pc + 4;
        } else {
            self.pc = self.pc + 2;
        }
    }

    /// Skip the next instruction when the key named by the register is
    /// up.
    pub fn sknp_vx(&mut self, optcode: u16)
        requires
            old(self)@.wf(),
            old(self)@.pc + 4 <= u16::MAX,
        ensures
            final(self)@.wf(),
            final(self)@ == sem_sknp_vx(old(self)@, optcode),
    {
        let x = vx_of(optcode);
        let key = self.v[x] as usize;
        if key >= KEYBOARD_SIZE {
            self.quit = true;
            return;
        }
        if !self.keyboard[key] {
            self.pc = self.pc + 4;
        } else {
            self.pc = self.pc + 2;
        }
    }

    /// Wait for a key press: scan the whole keypad, take the highest
    /// key that is down, or leave the counter in place so the scan runs
    /// again next iteration.
    pub fn ld_vx_k(&mut self, optcode: u16)
        requires
            old(self)@.wf(),
            old(self)@.pc + 2 <= u16::MAX,
        ensures
            final(self)@.wf(),
            final(self)@ == sem_ld_vx_k(old(self)@, optcode),
    {
        let x = vx_of(optcode);
        let mut chosen: usize = KEYBOARD_SIZE;
        let mut k: usize = 0;
        while k < KEYBOARD_SIZE
            invariant
                0 <= k <= KEYBOARD_SIZE,
                self@.wf(),
                self@ == old(self)@,
                chosen == KEYBOARD_SIZE || chosen < k,
                chosen == KEYBOARD_SIZE ==> last_pressed(self@.keys, k as int) == -1,
                chosen < KEYBOARD_SIZE ==> chosen == last_pressed(self@.keys, k as int),
            decreases KEYBOARD_SIZE - k,
        {
            if self.keyboard[k] {
                chosen = k;
            }
            k = k + 1;
        }
        if chosen < KEYBOARD_SIZE {
            self.v[x] = chosen as u8;
            self.pc = self.pc + 2;
        }
    }

    /// Advance the stack pointer, wrapping at the top of the stack.
    fn sp_increment(&mut self)
        requires
            old(self)@.wf(),
        ensures
            final(self)@.wf(),
            final(self)@ == (Machine { sp: spec_sp_inc(old(self)@.sp), ..old(self)@ }),
    {
        if self.sp < STACK_SIZE - 1 {
            self.sp = self.sp + 1;
        } else {
            self.sp = 0;
        }
    }

    /// Retreat the stack pointer, wrapping at the bottom of the stack.
    fn sp_decrement(&mut self)
        requires
            old(self)@.wf(),
        ensures
            final(self)@.wf(),
            final(self)@ == (Machine { sp: spec_sp_dec(old(self)@.sp), ..old(self)@ }),
    {
        if self.sp > 0 {
            self.sp = self.sp - 1;
        } else {
            self.sp = STACK_SIZE - 1;
        }
    }
}

} // verus!
