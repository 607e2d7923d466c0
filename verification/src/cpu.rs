//! The machine state as a value, its view onto the mathematical model,
//! and the startup sequence: a zeroed machine, the font copied to the
//! bottom of memory, the program image copied in at its fixed start.
use vstd::prelude::*;

use crate::machine::DISPLAY_SIZE;
use crate::machine::KEYBOARD_SIZE;
use crate::machine::MEMORY_SIZE;
use crate::machine::Machine;
use crate::machine::PROGRAM_START;
use crate::machine::SCREEN_HEIGHT;
use crate::machine::SCREEN_WIDTH;
use crate::machine::STACK_SIZE;
use crate::machine::font_seq;
use crate::display::sem_cls;
use crate::display::sem_drw;
use crate::execute::sem_add_i_vx;
use crate::execute::sem_add_vx_byte;
use crate::execute::sem_add_vx_vy;
use crate::execute::sem_and_vx_vy;
use crate::execute::sem_call;
use crate::execute::sem_jp;
use crate::execute::sem_ld_b_vx;
use crate::execute::sem_ld_dt_vx;
use crate::execute::sem_ld_f_vx;
use crate::execute::sem_ld_i_addr;
use crate::execute::sem_ld_i_vx;
use crate::execute::sem_ld_st_vx;
use crate::execute::sem_ld_vx_byte;
use crate::execute::sem_ld_vx_dt;
use crate::execute::sem_ld_vx_i;
use crate::execute::sem_ld_vx_k;
use crate::execute::sem_ld_vx_vy;
use crate::execute::sem_or_vx_vy;
use crate::execute::sem_ret;
use crate::execute::sem_rnd_vx_byte;
use crate::execute::sem_se_vx_byte;
use crate::execute::sem_se_vx_vy;
use crate::execute::sem_shl_vx_vy;
use crate::execute::sem_shr_vx_vy;
use crate::execute::sem_sknp_vx;
use crate::execute::sem_skp_vx;
use crate::execute::sem_sne_vx_byte;
use crate::execute::sem_sne_vx_vy;
use crate::execute::sem_sub_vx_vy;
use crate::execute::sem_sys;
use crate::execute::sem_xor_vx_vy;
use crate::optcodes::OptCode;
use crate::optcodes::decode;
use crate::optcodes::spec_decode;

verus! {

/// The machine state: registers, memory, index register, program
/// counter, timers, call stack, display buffer, keypad snapshot, and
/// the two loop flags.
pub struct Cpu {
    /// The sixteen 8-bit general-purpose registers; register 0xF is the
    /// flags register.
    pub v: [u8; 16],
    /// The 4096-byte memory.
    pub memory: [u8; 4096],
    /// The index register.
    pub i: usize,
    /// The program counter.
    pub pc: u16,
    /// The delay timer.
    pub delay_timer: u8,
    /// The sound timer.
    pub sound_timer: u8,
    /// The call stack.
    pub stack: [u16; 16],
    /// The stack pointer.
    pub sp: usize,
    /// The display buffer, row-major, one cell per pixel, each 0 or 1.
    pub display: [u8; 2048],
    /// The keypad snapshot, refreshed once per loop iteration.
    pub keyboard: [bool; 16],
    /// Set when a fatal condition or a quit request halts the machine.
    pub quit: bool,
    /// Set when the display changed since the last render pass.
    pub display_redraw: bool,
}

impl View for Cpu {
    type V = Machine;

    open spec fn view(&self) -> Machine {
        Machine {
            v: self.v@,
            mem: self.memory@,
            i: self.i as int,
            pc: self.pc as int,
            dt: self.delay_timer,
            st: self.sound_timer,
            stack: self.stack@,
            sp: self.sp as int,
            display: self.display@,
            keys: self.keyboard@,
            quit: self.quit,
            redraw: self.display_redraw,
        }
    }
}

/// The state a machine starts in: everything zero, the program counter
/// at the program start, a render owed for the first frame.
pub open spec fn initial_machine() -> Machine {
    Machine {
        v: Seq::new(16, |k: int| 0u8),
        mem: Seq::new(MEMORY_SIZE as nat, |k: int| 0u8),
        i: 0,
        pc: PROGRAM_START as int,
        dt: 0,
        st: 0,
        stack: Seq::new(STACK_SIZE as nat, |k: int| 0u16),
        sp: 0,
        display: Seq::new(DISPLAY_SIZE as nat, |k: int| 0u8),
        keys: Seq::new(KEYBOARD_SIZE as nat, |k: int| false),
        quit: false,
        redraw: true,
    }
}

/// Create a machine in its startup state.
pub fn initialize() -> (cpu: Cpu)
    ensures
        cpu@ == initial_machine(),
        cpu@.wf(),
{
    let cpu = Cpu {
        v: [0u8; 16],
        memory: [0u8; 4096],
        i: 0,
        pc: 0x200,
        delay_timer: 0,
        sound_timer: 0,
        stack: [0u16; 16],
        sp: 0,
        display: [0u8; 2048],
        keyboard: [false; 16],
        quit: false,
        display_redraw: true,
    };
    proof {
        assert(cpu@.v =~= initial_machine().v);
        assert(cpu@.mem =~= initial_machine().mem);
        assert(cpu@.stack =~= initial_machine().stack);
        assert(cpu@.display =~= initial_machine().display);
        assert(cpu@.keys =~= initial_machine().keys);
    }
    cpu
}

/// The byte position of cell `(row, c)` in the diagnostic text: each
/// text row holds the screen row's cells and one newline.
pub open spec fn dump_pos(row: int, c: int) -> int {
    row * (SCREEN_WIDTH + 1) + c
}

/// Positions in the diagnostic text follow the row-major order of the
/// cells: an earlier cell has a smaller position.
proof fn lemma_dump_pos_mono(r1: int, c1: int, r2: int, c2: int)
    requires
        0 <= c1 < SCREEN_WIDTH + 1,
        0 <= c2,
        r1 < r2 || (r1 == r2 && c1 < c2),
    ensures
        dump_pos(r1, c1) < dump_pos(r2, c2),
{
    let w = SCREEN_WIDTH as int + 1;
    if r1 < r2 {
        assert(r1 * w + w <= r2 * w) by (nonlinear_arith)
            requires
                r1 + 1 <= r2,
                w > 0,
        ;
    }
}

/// The 16-bit big-endian instruction word at the program counter.
pub open spec fn fetch_word(m: Machine) -> u16 {
    (m.mem[m.pc] * 256 + m.mem[m.pc + 1]) as u16
}

/// One fetch-decode-execute cycle as a relation between the state
/// before and the state after.  A counter that cannot address a whole
/// instruction word is fatal.  Every deterministic instruction pins
/// the next state exactly; the random-mask instruction pins it up to
/// the byte drawn, which is below 255 whatever comes back.
pub open spec fn step_spec(pre: Machine, post: Machine) -> bool {
    if pre.pc + 1 >= MEMORY_SIZE {
        post == pre.halted()
    } else {
        let opt = fetch_word(pre);
        match spec_decode(opt) {
            OptCode::SYS(_) => post == sem_sys(pre),
            OptCode::CLS(_) => post == sem_cls(pre),
            OptCode::RET(_) => post == sem_ret(pre),
            OptCode::JP(_) => post == sem_jp(pre, opt),
            OptCode::CALL(_) => post == sem_call(pre, opt),
            OptCode::SEVxByte(_) => post == sem_se_vx_byte(pre, opt),
            OptCode::SEVxVy(_) => post == sem_se_vx_vy(pre, opt),
            OptCode::SNEVxByte(_) => post == sem_sne_vx_byte(pre, opt),
            OptCode::LDVxByte(_) => post == sem_ld_vx_byte(pre, opt),
            OptCode::ADDVxByte(_) => post == sem_add_vx_byte(pre, opt),
            OptCode::LDVxVy(_) => post == sem_ld_vx_vy(pre, opt),
            OptCode::ORVxVy(_) => post == sem_or_vx_vy(pre, opt),
            OptCode::ANDVxVy(_) => post == sem_and_vx_vy(pre, opt),
            OptCode::XORVxVy(_) => post == sem_xor_vx_vy(pre, opt),
            OptCode::ADDVxVy(_) => post == sem_add_vx_vy(pre, opt),
            OptCode::SUBVxVy(_) => post == sem_sub_vx_vy(pre, opt),
            OptCode::SHRVxVy(_) => post == sem_shr_vx_vy(pre, opt),
            OptCode::SHLVxVy(_) => post == sem_shl_vx_vy(pre, opt),
            OptCode::SNEVxVy(_) => post == sem_sne_vx_vy(pre, opt),
            OptCode::LDIAddr(_) => post == sem_ld_i_addr(pre, opt),
            OptCode::RNDVxByte(_) => exists|rnd: u8|
                rnd < 255 && post == sem_rnd_vx_byte(pre, opt, rnd),
            OptCode::DRWNibble(_) => post == sem_drw(pre, opt),
            OptCode::SKPVx(_) => post == sem_skp_vx(pre, opt),
            OptCode::SKNPVx(_) => post == sem_sknp_vx(pre, opt),
            OptCode::LDVxDT(_) => post == sem_ld_vx_dt(pre, opt),
            OptCode::LDVxK(_) => post == sem_ld_vx_k(pre, opt),
            OptCode::LDDTVx(_) => post == sem_ld_dt_vx(pre, opt),
            OptCode::LDSTVx(_) => post == sem_ld_st_vx(pre, opt),
            OptCode::ADDIVx(_) => post == sem_add_i_vx(pre, opt),
            OptCode::LDFVx(_) => post == sem_ld_f_vx(pre, opt),
            OptCode::LDBVx(_) => post == sem_ld_b_vx(pre, opt),
            OptCode::LDIVx(_) => post == sem_ld_i_vx(pre, opt),
            OptCode::LDVxI(_) => post == sem_ld_vx_i(pre, opt),
            OptCode::Unknown(_) => post == pre.halted(),
        }
    }
}

/// Well-formedness is an invariant of execution: from any well-formed
/// state, every state the step relation allows is well-formed again.
/// In particular every register value stays in 0-255 and the stack
/// pointer stays in 0-15, whatever program runs.
pub proof fn lemma_step_preserves_wf(pre: Machine, post: Machine)
    requires
        pre.wf(),
        step_spec(pre, post),
    ensures
        post.wf(),
{
    if pre.pc + 1 < MEMORY_SIZE {
        let opt = fetch_word(pre);
        crate::optcodes::lemma_field_bounds(opt);
        match spec_decode(opt) {
            OptCode::RNDVxByte(_) => {
                let rnd = choose|rnd: u8| rnd < 255 && post == sem_rnd_vx_byte(pre, opt, rnd);
                assert(post == sem_rnd_vx_byte(pre, opt, rnd));
            },
            OptCode::DRWNibble(_) => {
                let m = sem_drw(pre, opt);
                let n = crate::optcodes::spec_nibble(opt);
                if n > 0 && pre.i + n > MEMORY_SIZE {
                    assert(m.wf());
                } else {
                    assert forall|a: int| 0 <= a < DISPLAY_SIZE implies m.display[a] <= 1 by {
                        let d = pre.display[a];
                        assert(m.display[a] == d || m.display[a] == (d ^ 1));
                        assert(d <= 1 ==> d ^ 1 <= 1) by (bit_vector);
                    }
                    assert(m.wf());
                }
            },
            _ => {},
        }
    }
}

/// The font table as a value, equal to its specification.
fn font_set() -> (r: [u8; 80])
    ensures
        r@ == font_seq(),
{
    let r: [u8; 80] = [
        0xF0u8, 0x90, 0x90, 0x90, 0xF0,
        0x20, 0x60, 0x20, 0x20, 0x70,
        0xF0, 0x10, 0xF0, 0x80, 0xF0,
        0xF0, 0x10, 0xF0, 0x10, 0xF0,
        0x90, 0x90, 0xF0, 0x10, 0x10,
        0xF0, 0x80, 0xF0, 0x10, 0xF0,
        0xF0, 0x80, 0xF0, 0x90, 0xF0,
        0xF0, 0x10, 0x20, 0x40, 0x40,
        0xF0, 0x90, 0xF0, 0x90, 0xF0,
        0xF0, 0x90, 0xF0, 0x10, 0xF0,
        0xF0, 0x90, 0xF0, 0x90, 0x90,
        0xE0, 0x90, 0xE0, 0x90, 0xE0,
        0xF0, 0x80, 0x80, 0x80, 0xF0,
        0xE0, 0x90, 0x90, 0x90, 0xE0,
        0xF0, 0x80, 0xF0, 0x80, 0xF0,
        0xF0, 0x80, 0xF0, 0x80, 0x80,
    ];
    proof {
        assert(r@ =~= font_seq());
    }
    r
}

impl Cpu {
    /// Load the font at the bottom of memory and the program image at
    /// the program start, then clear the display.  Memory between and
    /// after the two images keeps its previous contents.
    pub fn bootup(&mut self, program_buffer: Vec<u8>)
        requires
            old(self)@.wf(),
            program_buffer@.len() <= MEMORY_SIZE - PROGRAM_START,
        ensures
            final(self)@.wf(),
            final(self)@.mem.len() == MEMORY_SIZE,
            forall|k: int|
                0 <= k < font_seq().len() ==> final(self)@.mem[k] == font_seq()[k],
            forall|k: int|
                font_seq().len() <= k < PROGRAM_START ==> final(self)@.mem[k] == old(self)@.mem[k],
            forall|k: int|
                0 <= k < program_buffer@.len()
                    ==> final(self)@.mem[PROGRAM_START + k] == program_buffer@[k],
            forall|k: int|
                PROGRAM_START + program_buffer@.len() <= k < MEMORY_SIZE
                    ==> final(self)@.mem[k] == old(self)@.mem[k],
            final(self)@.display =~= Seq::new(DISPLAY_SIZE as nat, |a: int| 0u8),
            final(self)@ == (Machine {
                mem: final(self)@.mem,
                display: final(self)@.display,
                ..old(self)@
            }),
    {
        let font: [u8; 80] = font_set();
        let mut idx: usize = 0;
        while idx < 80
            invariant
                0 <= idx <= 80,
                self@.mem.len() == MEMORY_SIZE,
                forall|k: int| 0 <= k < idx ==> self@.mem[k] == font_seq()[k],
                forall|k: int| idx <= k < MEMORY_SIZE ==> self@.mem[k] == old(self)@.mem[k],
                font@ == font_seq(),
                self@ == (Machine { mem: self@.mem, ..old(self)@ }),
            decreases 80 - idx,
        {
            self.memory[idx] = font[idx];
            idx = idx + 1;
        }
        let mut p: usize = 0;
        while p < program_buffer.len()
            invariant
                0 <= p <= program_buffer@.len(),
                program_buffer@.len() <= MEMORY_SIZE - PROGRAM_START,
                self@.mem.len() == MEMORY_SIZE,
                forall|k: int| 0 <= k < font_seq().len() ==> self@.mem[k] == font_seq()[k],
                forall|k: int|
                    font_seq().len() <= k < PROGRAM_START ==> self@.mem[k] == old(self)@.mem[k],
                forall|k: int|
                    0 <= k < p ==> self@.mem[PROGRAM_START + k] == program_buffer@[k],
                forall|k: int|
                    PROGRAM_START + p <= k < MEMORY_SIZE ==> self@.mem[k] == old(self)@.mem[k],
                self@ == (Machine { mem: self@.mem, ..old(self)@ }),
            decreases program_buffer@.len() - p,
        {
            self.memory[p + PROGRAM_START] = program_buffer[p];
            p = p + 1;
        }
        self.clear_screen();
    }

    /// Fetch the big-endian instruction word at the program counter
    /// and decode it.
    pub fn optcode(&self) -> (r: OptCode)
        requires
            self@.wf(),
            self@.pc + 1 < MEMORY_SIZE,
        ensures
            r == spec_decode(fetch_word(self@)),
    {
        let a = self.memory[self.pc as usize];
        let b = self.memory[self.pc as usize + 1];
        let opt: u16 = ((a as u16) << 8) | (b as u16);
        proof {
            assert(((a as u16) << 8) | (b as u16) == a as u16 * 256 + b as u16) by (bit_vector);
        }
        decode(opt)
    }

    /// Run one fetch-decode-execute cycle.
    pub fn step(&mut self)
        requires
            old(self)@.wf(),
        ensures
            final(self)@.wf(),
            step_spec(old(self)@, final(self)@),
    {
        if self.pc as usize + 1 >= MEMORY_SIZE {
            self.quit = true;
            return;
        }
        match self.optcode() {
            OptCode::SYS(opt) => self.sys(opt),
            OptCode::CLS(_) => self.cls(),
            OptCode::RET(_) => self.ret(),
            OptCode::JP(opt) => self.jp(opt),
            OptCode::CALL(opt) => self.call(opt),
            OptCode::SEVxByte(opt) => self.se_vx_byte(opt),
            OptCode::SEVxVy(opt) => self.se_vx_vy(opt),
            OptCode::SNEVxByte(opt) => self.sne_vx_byte(opt),
            OptCode::LDVxByte(opt) => self.ld_vx_byte(opt),
            OptCode::ADDVxByte(opt) => self.add_vx_byte(opt),
            OptCode::LDVxVy(opt) => self.ld_vx_vy(opt),
            OptCode::ORVxVy(opt) => self.or_vx_vy(opt),
            OptCode::ANDVxVy(opt) => self.and_vx_vy(opt),
            OptCode::XORVxVy(opt) => self.xor_vx_vy(opt),
            OptCode::ADDVxVy(opt) => self.add_vx_vy(opt),
            OptCode::SUBVxVy(opt) => self.sub_vx_vy(opt),
            OptCode::SHRVxVy(opt) => self.shr_vx_vy(opt),
            OptCode::SHLVxVy(opt) => self.shl_vx_vy(opt),
            OptCode::SNEVxVy(opt) => self.sne_vx_vy(opt),
            OptCode::LDIAddr(opt) => self.ld_i_addr(opt),
            OptCode::RNDVxByte(opt) => self.rnd_vx_byte(opt),
            OptCode::DRWNibble(opt) => self.drw_vx_vy_nibble(opt),
            OptCode::SKPVx(opt) => self.skp_vx(opt),
            OptCode::SKNPVx(opt) => self.sknp_vx(opt),
            OptCode::LDVxDT(opt) => self.ld_vx_dt(opt),
            OptCode::LDVxK(opt) => self.ld_vx_k(opt),
            OptCode::LDDTVx(opt) => self.ld_dt_vx(opt),
            OptCode::LDSTVx(opt) => self.ld_st_vx(opt),
            OptCode::ADDIVx(opt) => self.add_i_vx(opt),
            OptCode::LDFVx(opt) => self.ld_f_vx(opt),
            OptCode::LDBVx(opt) => self.ld_b_vx(opt),
            OptCode::LDIVx(opt) => self.ld_i_vx(opt),
            OptCode::LDVxI(opt) => self.ld_vx_i(opt),
            OptCode::Unknown(opt) => self.none(opt),
        }
    }

    /// One timer step of the loop: each timer counts down once while
    /// non-zero and stops at zero, never below.  Returns whether the
    /// tone should sound, that is, whether the sound timer is still
    /// running.
    pub fn timer_tick(&mut self) -> (sound_on: bool)
        requires
            old(self)@.wf(),
        ensures
            final(self)@.wf(),
            final(self)@.dt == (if old(self)@.dt > 0 {
                (old(self)@.dt - 1) as u8
            } else {
                0u8
            }),
            final(self)@.st == (if old(self)@.st > 0 {
                (old(self)@.st - 1) as u8
            } else {
                0u8
            }),
            final(self)@ == (Machine { dt: final(self)@.dt, st: final(self)@.st, ..old(self)@ }),
            sound_on == (final(self)@.st > 0),
    {
        if self.delay_timer > 0 {
            self.delay_timer = self.delay_timer - 1;
        }
        if self.sound_timer > 0 {
            self.sound_timer = self.sound_timer - 1;
        }
        self.sound_timer > 0
    }

    /// The display buffer as diagnostic text: one character per cell,
    /// '1' for a lit pixel and '0' for a dark one, each row of the
    /// screen ended by a newline.
    pub fn dump_display(&self) -> (r: Vec<u8>)
        requires
            self@.wf(),
        ensures
            r@.len() == SCREEN_HEIGHT * (SCREEN_WIDTH + 1),
            forall|row: int, c: int|
                0 <= row < SCREEN_HEIGHT && 0 <= c < SCREEN_WIDTH ==> r@[#[trigger] dump_pos(
                    row,
                    c,
                )] == (if self@.display[row * SCREEN_WIDTH + c] == 1 {
                    49u8
                } else {
                    48u8
                }),
            forall|row: int|
                0 <= row < SCREEN_HEIGHT ==> r@[#[trigger] dump_pos(row, SCREEN_WIDTH as int)]
                    == 10u8,
    {
        let mut r: Vec<u8> = Vec::new();
        let mut row: usize = 0;
        while row < SCREEN_HEIGHT
            invariant
                0 <= row <= SCREEN_HEIGHT,
                self@.wf(),
                r@.len() == row * (SCREEN_WIDTH + 1),
                forall|rr: int, c: int|
                    0 <= rr < row && 0 <= c < SCREEN_WIDTH ==> r@[#[trigger] dump_pos(rr, c)] == (
                    if self@.display[rr * SCREEN_WIDTH + c] == 1 {
                        49u8
                    } else {
                        48u8
                    }),
                forall|rr: int|
                    0 <= rr < row ==> r@[#[trigger] dump_pos(rr, SCREEN_WIDTH as int)] == 10u8,
            decreases SCREEN_HEIGHT - row,
        {
            let mut c: usize = 0;
            while c < SCREEN_WIDTH
                invariant
                    0 <= c <= SCREEN_WIDTH,
                    0 <= row < SCREEN_HEIGHT,
                    self@.wf(),
                    r@.len() == row * (SCREEN_WIDTH + 1) + c,
                    forall|rr: int, cc: int|
                        0 <= rr < row && 0 <= cc < SCREEN_WIDTH ==> r@[#[trigger] dump_pos(
                            rr,
                            cc,
                        )] == (if self@.display[rr * SCREEN_WIDTH + cc] == 1 {
                            49u8
                        } else {
                            48u8
                        }),
                    forall|rr: int|
                        0 <= rr < row ==> r@[#[trigger] dump_pos(rr, SCREEN_WIDTH as int)] == 10u8,
                    forall|cc: int|
                        0 <= cc < c ==> r@[#[trigger] dump_pos(row as int, cc)] == (
                        if self@.display[row * SCREEN_WIDTH + cc] == 1 {
                            49u8
                        } else {
                            48u8
                        }),
                decreases SCREEN_WIDTH - c,
            {
                let lit = self.display[row * SCREEN_WIDTH + c];
                if lit == 1 {
                    r.push(49u8);
                } else {
                    r.push(48u8);
                }
                proof {
                    assert forall|rr: int, cc: int|
                        0 <= rr < row && 0 <= cc < SCREEN_WIDTH implies r@[#[trigger] dump_pos(
                        rr,
                        cc,
                    )] == (if self@.display[rr * SCREEN_WIDTH + cc] == 1 {
                        49u8
                    } else {
                        48u8
                    }) by {
                        lemma_dump_pos_mono(rr, cc, row as int, c as int);
                    }
                    assert forall|rr: int|
                        0 <= rr < row implies r@[#[trigger] dump_pos(rr, SCREEN_WIDTH as int)]
                        == 10u8 by {
                        lemma_dump_pos_mono(rr, SCREEN_WIDTH as int, row as int, c as int);
                    }
                    assert forall|cc: int|
                        0 <= cc <= c implies r@[#[trigger] dump_pos(row as int, cc)] == (
                    if self@.display[row * SCREEN_WIDTH + cc] == 1 {
                        49u8
                    } else {
                        48u8
                    }) by {
                        if cc < c {
                            lemma_dump_pos_mono(row as int, cc, row as int, c as int);
                        }
                    }
                }
                c = c + 1;
            }
            r.push(10u8);
            proof {
                assert((row + 1) * (SCREEN_WIDTH as int + 1) == row * (SCREEN_WIDTH as int + 1) + (
                SCREEN_WIDTH as int + 1)) by (nonlinear_arith);
                assert forall|rr: int, cc: int|
                    0 <= rr < row + 1 && 0 <= cc < SCREEN_WIDTH implies r@[#[trigger] dump_pos(
                    rr,
                    cc,
                )] == (if self@.display[rr * SCREEN_WIDTH + cc] == 1 {
                    49u8
                } else {
                    48u8
                }) by {
                    lemma_dump_pos_mono(rr, cc, row as int, SCREEN_WIDTH as int);
                }
                assert forall|rr: int|
                    0 <= rr < row + 1 implies r@[#[trigger] dump_pos(rr, SCREEN_WIDTH as int)]
                    == 10u8 by {
                    if rr < row {
                        lemma_dump_pos_mono(rr, SCREEN_WIDTH as int, row as int, SCREEN_WIDTH as int);
                    }
                }
            }
            row = row + 1;
        }
        r
    }
}

} // verus!
