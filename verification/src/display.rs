//! The display buffer: clearing, the sprite-draw model, the draw
//! instruction itself, its self-inverse law, and the ASCII rendering
//! used by the diagnostic dump.
//!
//! A sprite is N consecutive memory bytes, each byte eight horizontal
//! pixels, XOR-composited onto the buffer at a position given by two
//! registers, each axis wrapping modulo the screen size.  The flags
//! register ends at 1 exactly when some pixel went from set to unset.
use vstd::prelude::*;

use crate::cpu::Cpu;
use crate::machine::DISPLAY_SIZE;
use crate::machine::MEMORY_SIZE;
use crate::machine::Machine;
use crate::machine::SCREEN_HEIGHT;
use crate::machine::SCREEN_WIDTH;
use crate::optcodes::spec_nibble;
use crate::optcodes::spec_vx;
use crate::optcodes::spec_vy;
use crate::optcodes::nibble_of;
use crate::optcodes::vx_of;
use crate::optcodes::vy_of;

verus! {

/// Whether sprite byte `b` has the pixel at column `col` (0 leftmost)
/// set.
pub open spec fn sprite_bit(b: u8, col: int) -> bool {
    b & (0x80u8 >> (col as u8)) != 0
}

/// The display cell a sprite pixel at column `col` of row `row` lands
/// on when the sprite is anchored at `(vx, vy)`: each axis wraps
/// modulo the screen size, and cells are row-major.
pub open spec fn draw_addr(vx: u8, vy: u8, col: int, row: int) -> int {
    (vx + col) % (SCREEN_WIDTH as int) + ((vy + row) % (SCREEN_HEIGHT as int)) * (
    SCREEN_WIDTH as int)
}

/// Whether `(r, c)` comes strictly before the position `(rl, cl)` in
/// the row-major order the draw loop walks.
pub open spec fn lex_before(r: int, c: int, rl: int, cl: int) -> bool {
    r < rl || (r == rl && c < cl)
}

/// Whether the sprite pixels strictly before position `(rl, cl)`
/// toggle cell `a`.
pub open spec fn flips_upto(
    mem: Seq<u8>,
    i: int,
    n: int,
    vx: u8,
    vy: u8,
    rl: int,
    cl: int,
    a: int,
) -> bool {
    exists|r: int, c: int|
        0 <= r < n && 0 <= c < 8 && lex_before(r, c, rl, cl) && sprite_bit(mem[i + r], c)
            && #[trigger] draw_addr(vx, vy, c, r) == a
}

/// Whether the sprite toggles cell `a`.
pub open spec fn flips(mem: Seq<u8>, i: int, n: int, vx: u8, vy: u8, a: int) -> bool {
    exists|r: int, c: int|
        0 <= r < n && 0 <= c < 8 && sprite_bit(mem[i + r], c) && #[trigger] draw_addr(
            vx,
            vy,
            c,
            r,
        ) == a
}

/// Whether some sprite pixel strictly before position `(rl, cl)` lands
/// on a cell of `disp` that is set.
pub open spec fn hit_upto(
    mem: Seq<u8>,
    i: int,
    n: int,
    vx: u8,
    vy: u8,
    rl: int,
    cl: int,
    disp: Seq<u8>,
) -> bool {
    exists|r: int, c: int|
        0 <= r < n && 0 <= c < 8 && lex_before(r, c, rl, cl) && sprite_bit(mem[i + r], c)
            && disp[#[trigger] draw_addr(vx, vy, c, r)] == 1
}

/// Whether the draw collides: some sprite pixel lands on a cell of
/// `disp` that is set, turning it off.
pub open spec fn collides(mem: Seq<u8>, i: int, n: int, vx: u8, vy: u8, disp: Seq<u8>) -> bool {
    exists|r: int, c: int|
        0 <= r < n && 0 <= c < 8 && sprite_bit(mem[i + r], c) && disp[#[trigger] draw_addr(
            vx,
            vy,
            c,
            r,
        )] == 1
}

/// The display after the draw: every toggled cell flipped, every other
/// cell kept.
pub open spec fn draw_display(disp: Seq<u8>, mem: Seq<u8>, i: int, n: int, vx: u8, vy: u8) -> Seq<
    u8,
> {
    Seq::new(
        disp.len(),
        |a: int|
            if flips(mem, i, n, vx, vy, a) {
                disp[a] ^ 1
            } else {
                disp[a]
            },
    )
}

/// The clear-display instruction: an all-zero buffer, a render owed,
/// the counter advanced.
pub open spec fn sem_cls(m: Machine) -> Machine {
    Machine {
        display: Seq::new(DISPLAY_SIZE as nat, |a: int| 0u8),
        redraw: true,
        pc: m.pc + 2,
        ..m
    }
}

/// The sprite-draw instruction: N bytes from the index register's
/// address, XORed onto the display at the position the two registers
/// name, the flags register set to 1 exactly on collision, the display
/// marked dirty.  Fatal when the sprite bytes do not fit inside
/// memory.
pub open spec fn sem_drw(m: Machine, opt: u16) -> Machine {
    let n = spec_nibble(opt);
    if n > 0 && m.i + n > MEMORY_SIZE {
        m.halted()
    } else {
        let vx = m.v[spec_vx(opt)];
        let vy = m.v[spec_vy(opt)];
        let hit: u8 = if collides(m.mem, m.i, n, vx, vy, m.display) {
            1
        } else {
            0
        };
        Machine {
            v: m.v.update(15, hit),
            display: draw_display(m.display, m.mem, m.i, n, vx, vy),
            redraw: true,
            pc: m.pc + 2,
            ..m
        }
    }
}

/// Every sprite pixel lands inside the display buffer: the modulo
/// arithmetic keeps the computed cell in range, so no defensive check
/// on the address is needed.
proof fn lemma_draw_addr_bounds(vx: u8, vy: u8, c: int, r: int)
    requires
        0 <= c,
        0 <= r,
    ensures
        0 <= draw_addr(vx, vy, c, r) < DISPLAY_SIZE,
{
}

/// Distinct sprite pixels land on distinct cells: columns stay within
/// one wrapped row span and rows within one wrapped column span.
proof fn lemma_draw_addr_inj(vx: u8, vy: u8, c1: int, r1: int, c2: int, r2: int)
    requires
        0 <= c1 < 8,
        0 <= c2 < 8,
        0 <= r1 < 32,
        0 <= r2 < 32,
        draw_addr(vx, vy, c1, r1) == draw_addr(vx, vy, c2, r2),
    ensures
        c1 == c2,
        r1 == r2,
{
    let w = SCREEN_WIDTH as int;
    let h = SCREEN_HEIGHT as int;
    let p1 = (vx + c1) % w;
    let p2 = (vx + c2) % w;
    let q1 = (vy + r1) % h;
    let q2 = (vy + r2) % h;
    assert(0 <= p1 < w && 0 <= p2 < w && 0 <= q1 < h && 0 <= q2 < h);
    assert(p1 + q1 * w == p2 + q2 * w);
    assert(q1 == q2 && p1 == p2);
    assert((vx + c1) == w * ((vx + c1) / w) + p1);
    assert((vx + c2) == w * ((vx + c2) / w) + p2);
    assert(c1 - c2 == w * ((vx + c1) / w - (vx + c2) / w));
    assert((vy + r1) == h * ((vy + r1) / h) + q1);
    assert((vy + r2) == h * ((vy + r2) / h) + q2);
    assert(r1 - r2 == h * ((vy + r1) / h - (vy + r2) / h));
}

/// A pixel value stays a pixel value under a toggle.
proof fn lemma_xor_bit(d: u8)
    by (bit_vector)
    requires
        d <= 1,
    ensures
        d ^ 1 == 1 - d,
{
}

/// OR-accumulation of pixel values is disjunction.
proof fn lemma_or_bit(a: u8, d: u8)
    by (bit_vector)
    requires
        a <= 1,
        d <= 1,
    ensures
        (a | d) == (if a == 1 || d == 1 {
            1u8
        } else {
            0u8
        }),
{
}

impl Cpu {
    /// Set every display cell to 0.  The dirty flag is left as it was;
    /// the clear-display instruction raises it itself.
    pub fn clear_screen(&mut self)
        requires
            old(self)@.wf(),
        ensures
            final(self)@.wf(),
            final(self)@.display =~= Seq::new(DISPLAY_SIZE as nat, |a: int| 0u8),
            final(self)@ == (Machine { display: final(self)@.display, ..old(self)@ }),
    {
        self.display = [0u8; 2048];
        proof {
            assert(self@.display =~= Seq::new(DISPLAY_SIZE as nat, |a: int| 0u8));
        }
    }

    /// The clear-display instruction: an all-zero buffer, a render
    /// owed, the counter advanced.
    pub fn cls(&mut self)
        requires
            old(self)@.wf(),
            old(self)@.pc + 2 <= u16::MAX,
        ensures
            final(self)@.wf(),
            final(self)@ == sem_cls(old(self)@),
    {
        self.clear_screen();
        self.display_redraw = true;
        self.pc = self.pc + 2;
        proof {
            assert(self@.display =~= sem_cls(old(self)@).display);
        }
    }

    /// The sprite-draw instruction.
    pub fn drw_vx_vy_nibble(&mut self, optcode: u16)
        requires
            old(self)@.wf(),
            old(self)@.pc + 2 <= u16::MAX,
        ensures
            final(self)@.wf(),
            final(self)@ == sem_drw(old(self)@, optcode),
    {
        let x = vx_of(optcode);
        let y = vy_of(optcode);
        let n = nibble_of(optcode);
        if n > 0 && self.i + n > MEMORY_SIZE {
            self.quit = true;
            return;
        }
        let vx = self.v[x];
        let vy = self.v[y];
        self.v[15] = 0;
        let ghost pre = old(self)@;
        let mut row: usize = 0;
        while row < n
            invariant
                0 <= row <= n,
                n == spec_nibble(optcode),
                n < 16,
                x == spec_vx(optcode),
                y == spec_vy(optcode),
                vx == pre.v[x as int],
                vy == pre.v[y as int],
                pre == old(self)@,
                pre.wf(),
                n > 0 ==> pre.i + n <= MEMORY_SIZE,
                self@.wf(),
                self@ == (Machine { v: self@.v, display: self@.display, ..pre }),
                self@.v == pre.v.update(
                    15,
                    if hit_upto(pre.mem, pre.i, n as int, vx, vy, row as int, 0, pre.display) {
                        1u8
                    } else {
                        0u8
                    },
                ),
                forall|a: int|
                    0 <= a < DISPLAY_SIZE ==> self@.display[a] == (if flips_upto(
                        pre.mem,
                        pre.i,
                        n as int,
                        vx,
                        vy,
                        row as int,
                        0,
                        a,
                    ) {
                        pre.display[a] ^ 1
                    } else {
                        pre.display[a]
                    }),
            decreases n - row,
        {
            let pixel = self.memory[self.i + row];
            let mut col: usize = 0;
            while col < 8
                invariant
                    0 <= col <= 8,
                    0 <= row < n,
                    n == spec_nibble(optcode),
                    n < 16,
                    x == spec_vx(optcode),
                    y == spec_vy(optcode),
                    vx == pre.v[x as int],
                    vy == pre.v[y as int],
                    pre == old(self)@,
                    pre.wf(),
                    pre.i + n <= MEMORY_SIZE,
                    pixel == pre.mem[pre.i + row],
                    self@.wf(),
                    self@ == (Machine { v: self@.v, display: self@.display, ..pre }),
                    self@.v == pre.v.update(
                        15,
                        if hit_upto(
                            pre.mem,
                            pre.i,
                            n as int,
                            vx,
                            vy,
                            row as int,
                            col as int,
                            pre.display,
                        ) {
                            1u8
                        } else {
                            0u8
                        },
                    ),
                    forall|a: int|
                        0 <= a < DISPLAY_SIZE ==> self@.display[a] == (if flips_upto(
                            pre.mem,
                            pre.i,
                            n as int,
                            vx,
                            vy,
                            row as int,
                            col as int,
                            a,
                        ) {
                            pre.display[a] ^ 1
                        } else {
                            pre.display[a]
                        }),
                decreases 8 - col,
            {
                if pixel & (0x80u8 >> (col as u8)) != 0 {
                    let address = ((vx as usize + col) % SCREEN_WIDTH) + ((vy as usize + row)
                        % SCREEN_HEIGHT) * SCREEN_WIDTH;
                    proof {
                        lemma_draw_addr_bounds(vx, vy, col as int, row as int);
                        assert(address == draw_addr(vx, vy, col as int, row as int));
                        assert(!flips_upto(
                            pre.mem,
                            pre.i,
                            n as int,
                            vx,
                            vy,
                            row as int,
                            col as int,
                            address as int,
                        )) by {
                            if flips_upto(
                                pre.mem,
                                pre.i,
                                n as int,
                                vx,
                                vy,
                                row as int,
                                col as int,
                                address as int,
                            ) {
                                let (r, c) = choose|r: int, c: int|
                                    0 <= r < n && 0 <= c < 8 && lex_before(
                                        r,
                                        c,
                                        row as int,
                                        col as int,
                                    ) && sprite_bit(pre.mem[pre.i + r], c) && #[trigger] draw_addr(
                                        vx,
                                        vy,
                                        c,
                                        r,
                                    ) == address as int;
                                lemma_draw_addr_inj(vx, vy, c, r, col as int, row as int);
                            }
                        }
                        lemma_or_bit(self@.v[15], pre.display[address as int]);
                        lemma_xor_bit(pre.display[address as int]);
                    }
                    self.v[15] = self.v[15] | self.display[address];
                    self.display[address] = self.display[address] ^ 1;
                    proof {
                        assert(sprite_bit(pixel, col as int));
                        assert(flips_upto(
                            pre.mem,
                            pre.i,
                            n as int,
                            vx,
                            vy,
                            row as int,
                            col as int + 1,
                            address as int,
                        ));
                        assert forall|a: int| 0 <= a < DISPLAY_SIZE implies self@.display[a] == (
                        if flips_upto(
                            pre.mem,
                            pre.i,
                            n as int,
                            vx,
                            vy,
                            row as int,
                            col as int + 1,
                            a,
                        ) {
                            pre.display[a] ^ 1
                        } else {
                            pre.display[a]
                        }) by {
                            if a != address as int {
                                if flips_upto(
                                    pre.mem,
                                    pre.i,
                                    n as int,
                                    vx,
                                    vy,
                                    row as int,
                                    col as int + 1,
                                    a,
                                ) {
                                    let (r, c) = choose|r: int, c: int|
                                        0 <= r < n && 0 <= c < 8 && lex_before(
                                            r,
                                            c,
                                            row as int,
                                            col as int + 1,
                                        ) && sprite_bit(pre.mem[pre.i + r], c)
                                            && #[trigger] draw_addr(vx, vy, c, r) == a;
                                    assert(lex_before(r, c, row as int, col as int));
                                    assert(flips_upto(
                                        pre.mem,
                                        pre.i,
                                        n as int,
                                        vx,
                                        vy,
                                        row as int,
                                        col as int,
                                        a,
                                    ));
                                }
                            }
                        }
                        assert(self@.v == pre.v.update(
                            15,
                            if hit_upto(
                                pre.mem,
                                pre.i,
                                n as int,
                                vx,
                                vy,
                                row as int,
                                col as int + 1,
                                pre.display,
                            ) {
                                1u8
                            } else {
                                0u8
                            },
                        )) by {
                            if pre.display[address as int] == 1 {
                                assert(hit_upto(
                                    pre.mem,
                                    pre.i,
                                    n as int,
                                    vx,
                                    vy,
                                    row as int,
                                    col as int + 1,
                                    pre.display,
                                ));
                            } else {
                                if hit_upto(
                                    pre.mem,
                                    pre.i,
                                    n as int,
                                    vx,
                                    vy,
                                    row as int,
                                    col as int + 1,
                                    pre.display,
                                ) {
                                    let (r, c) = choose|r: int, c: int|
                                        0 <= r < n && 0 <= c < 8 && lex_before(
                                            r,
                                            c,
                                            row as int,
                                            col as int + 1,
                                        ) && sprite_bit(pre.mem[pre.i + r], c) && pre.display[
                                        #[trigger] draw_addr(vx, vy, c, r)] == 1;
                                    if r == row && c == col {
                                        assert(pre.display[address as int] == 1);
                                    } else {
                                        assert(lex_before(r, c, row as int, col as int));
                                        assert(hit_upto(
                                            pre.mem,
                                            pre.i,
                                            n as int,
                                            vx,
                                            vy,
                                            row as int,
                                            col as int,
                                            pre.display,
                                        ));
                                    }
                                }
                            }
                        }
                    }
                } else {
                    proof {
                        assert forall|a: int| 0 <= a < DISPLAY_SIZE implies self@.display[a] == (
                        if flips_upto(
                            pre.mem,
                            pre.i,
                            n as int,
                            vx,
                            vy,
                            row as int,
                            col as int + 1,
                            a,
                        ) {
                            pre.display[a] ^ 1
                        } else {
                            pre.display[a]
                        }) by {
                            if flips_upto(
                                pre.mem,
                                pre.i,
                                n as int,
                                vx,
                                vy,
                                row as int,
                                col as int + 1,
                                a,
                            ) {
                                let (r, c) = choose|r: int, c: int|
                                    0 <= r < n && 0 <= c < 8 && lex_before(
                                        r,
                                        c,
                                        row as int,
                                        col as int + 1,
                                    ) && sprite_bit(pre.mem[pre.i + r], c) && #[trigger] draw_addr(
                                        vx,
                                        vy,
                                        c,
                                        r,
                                    ) == a;
                                assert(lex_before(r, c, row as int, col as int));
                            }
                        }
                        assert(!hit_upto(
                            pre.mem,
                            pre.i,
                            n as int,
                            vx,
                            vy,
                            row as int,
                            col as int + 1,
                            pre.display,
                        ) <==> !hit_upto(
                            pre.mem,
                            pre.i,
                            n as int,
                            vx,
                            vy,
                            row as int,
                            col as int,
                            pre.display,
                        )) by {
                            if hit_upto(
                                pre.mem,
                                pre.i,
                                n as int,
                                vx,
                                vy,
                                row as int,
                                col as int + 1,
                                pre.display,
                            ) {
                                let (r, c) = choose|r: int, c: int|
                                    0 <= r < n && 0 <= c < 8 && lex_before(
                                        r,
                                        c,
                                        row as int,
                                        col as int + 1,
                                    ) && sprite_bit(pre.mem[pre.i + r], c) && pre.display[
                                    #[trigger] draw_addr(vx, vy, c, r)] == 1;
                                assert(!(r == row && c == col));
                                assert(lex_before(r, c, row as int, col as int));
                                assert(hit_upto(
                                    pre.mem,
                                    pre.i,
                                    n as int,
                                    vx,
                                    vy,
                                    row as int,
                                    col as int,
                                    pre.display,
                                ));
                            }
                        }
                    }
                }
                col = col + 1;
            }
            proof {
                assert forall|a: int|
                    flips_upto(pre.mem, pre.i, n as int, vx, vy, row as int, 8, a) == flips_upto(
                        pre.mem,
                        pre.i,
                        n as int,
                        vx,
                        vy,
                        row as int + 1,
                        0,
                        a,
                    ) by {
                    if flips_upto(pre.mem, pre.i, n as int, vx, vy, row as int, 8, a) {
                        let (r, c) = choose|r: int, c: int|
                            0 <= r < n && 0 <= c < 8 && lex_before(r, c, row as int, 8)
                                && sprite_bit(pre.mem[pre.i + r], c) && #[trigger] draw_addr(
                                vx,
                                vy,
                                c,
                                r,
                            ) == a;
                        assert(lex_before(r, c, row as int + 1, 0));
                        assert(flips_upto(pre.mem, pre.i, n as int, vx, vy, row as int + 1, 0, a));
                    }
                    if flips_upto(pre.mem, pre.i, n as int, vx, vy, row as int + 1, 0, a) {
                        let (r, c) = choose|r: int, c: int|
                            0 <= r < n && 0 <= c < 8 && lex_before(r, c, row as int + 1, 0)
                                && sprite_bit(pre.mem[pre.i + r], c) && #[trigger] draw_addr(
                                vx,
                                vy,
                                c,
                                r,
                            ) == a;
                        assert(lex_before(r, c, row as int, 8));
                        assert(flips_upto(pre.mem, pre.i, n as int, vx, vy, row as int, 8, a));
                    }
                }
                assert(hit_upto(pre.mem, pre.i, n as int, vx, vy, row as int, 8, pre.display)
                    == hit_upto(
                    pre.mem,
                    pre.i,
                    n as int,
                    vx,
                    vy,
                    row as int + 1,
                    0,
                    pre.display,
                )) by {
                    if hit_upto(pre.mem, pre.i, n as int, vx, vy, row as int, 8, pre.display) {
                        let (r, c) = choose|r: int, c: int|
                            0 <= r < n && 0 <= c < 8 && lex_before(r, c, row as int, 8)
                                && sprite_bit(pre.mem[pre.i + r], c) && pre.display[
                            #[trigger] draw_addr(vx, vy, c, r)] == 1;
                        assert(lex_before(r, c, row as int + 1, 0));
                        assert(hit_upto(
                            pre.mem,
                            pre.i,
                            n as int,
                            vx,
                            vy,
                            row as int + 1,
                            0,
                            pre.display,
                        ));
                    }
                    if hit_upto(pre.mem, pre.i, n as int, vx, vy, row as int + 1, 0, pre.display) {
                        let (r, c) = choose|r: int, c: int|
                            0 <= r < n && 0 <= c < 8 && lex_before(r, c, row as int + 1, 0)
                                && sprite_bit(pre.mem[pre.i + r], c) && pre.display[
                            #[trigger] draw_addr(vx, vy, c, r)] == 1;
                        assert(lex_before(r, c, row as int, 8));
                        assert(hit_upto(
                            pre.mem,
                            pre.i,
                            n as int,
                            vx,
                            vy,
                            row as int,
                            8,
                            pre.display,
                        ));
                    }
                }
            }
            row = row + 1;
        }
        self.display_redraw = true;
        self.pc = self.pc + 2;
        proof {
            assert forall|a: int|
                flips_upto(pre.mem, pre.i, n as int, vx, vy, n as int, 0, a) == flips(
                    pre.mem,
                    pre.i,
                    n as int,
                    vx,
                    vy,
                    a,
                ) by {
                if flips_upto(pre.mem, pre.i, n as int, vx, vy, n as int, 0, a) {
                    let (r, c) = choose|r: int, c: int|
                        0 <= r < n && 0 <= c < 8 && lex_before(r, c, n as int, 0) && sprite_bit(
                            pre.mem[pre.i + r],
                            c,
                        ) && #[trigger] draw_addr(vx, vy, c, r) == a;
                    assert(flips(pre.mem, pre.i, n as int, vx, vy, a));
                }
                if flips(pre.mem, pre.i, n as int, vx, vy, a) {
                    let (r, c) = choose|r: int, c: int|
                        0 <= r < n && 0 <= c < 8 && sprite_bit(pre.mem[pre.i + r], c)
                            && #[trigger] draw_addr(vx, vy, c, r) == a;
                    assert(lex_before(r, c, n as int, 0));
                    assert(flips_upto(pre.mem, pre.i, n as int, vx, vy, n as int, 0, a));
                }
            }
            assert(hit_upto(pre.mem, pre.i, n as int, vx, vy, n as int, 0, pre.display)
                == collides(pre.mem, pre.i, n as int, vx, vy, pre.display)) by {
                if hit_upto(pre.mem, pre.i, n as int, vx, vy, n as int, 0, pre.display) {
                    let (r, c) = choose|r: int, c: int|
                        0 <= r < n && 0 <= c < 8 && lex_before(r, c, n as int, 0) && sprite_bit(
                            pre.mem[pre.i + r],
                            c,
                        ) && pre.display[#[trigger] draw_addr(vx, vy, c, r)] == 1;
                    assert(collides(pre.mem, pre.i, n as int, vx, vy, pre.display));
                }
                if collides(pre.mem, pre.i, n as int, vx, vy, pre.display) {
                    let (r, c) = choose|r: int, c: int|
                        0 <= r < n && 0 <= c < 8 && sprite_bit(pre.mem[pre.i + r], c)
                            && pre.display[#[trigger] draw_addr(vx, vy, c, r)] == 1;
                    assert(lex_before(r, c, n as int, 0));
                    assert(hit_upto(pre.mem, pre.i, n as int, vx, vy, n as int, 0, pre.display));
                }
            }
            assert(final(self)@.display =~= sem_drw(old(self)@, optcode).display);
        }
    }
}

/// Sprite draw is self-inverse: drawing the same sprite at the same
/// position twice in succession restores the display to its pre-draw
/// contents.
pub proof fn lemma_draw_self_inverse(disp: Seq<u8>, mem: Seq<u8>, i: int, n: int, vx: u8, vy: u8)
    ensures
        draw_display(draw_display(disp, mem, i, n, vx, vy), mem, i, n, vx, vy) == disp,
{
    let d2 = draw_display(disp, mem, i, n, vx, vy);
    let d3 = draw_display(d2, mem, i, n, vx, vy);
    assert forall|a: int| 0 <= a < disp.len() implies d3[a] == disp[a] by {
        if flips(mem, i, n, vx, vy, a) {
            let d = disp[a];
            assert(d3[a] == (d ^ 1) ^ 1);
            assert(((d ^ 1) ^ 1) == d) by (bit_vector);
        }
    }
    assert(d3 =~= disp);
}

/// The same law at the machine level: executing the same draw
/// instruction twice in succession restores the display buffer, and
/// the flags register ends up reflecting the second draw's collisions.
/// The position registers must not be the flags register itself, since
/// the first draw's flag side effect would then move the sprite.
pub proof fn lemma_drw_twice(m: Machine, opt: u16)
    requires
        m.wf(),
        spec_vx(opt) != 15,
        spec_vy(opt) != 15,
        !(spec_nibble(opt) > 0 && m.i + spec_nibble(opt) > MEMORY_SIZE),
    ensures
        sem_drw(sem_drw(m, opt), opt).display == m.display,
        sem_drw(sem_drw(m, opt), opt).v[15] == (if collides(
            m.mem,
            m.i,
            spec_nibble(opt),
            m.v[spec_vx(opt)],
            m.v[spec_vy(opt)],
            sem_drw(m, opt).display,
        ) {
            1u8
        } else {
            0u8
        }),
{
    let n = spec_nibble(opt);
    let vx = m.v[spec_vx(opt)];
    let vy = m.v[spec_vy(opt)];
    let m1 = sem_drw(m, opt);
    crate::optcodes::lemma_field_bounds(opt);
    assert(m1.v[spec_vx(opt)] == vx);
    assert(m1.v[spec_vy(opt)] == vy);
    lemma_draw_self_inverse(m.display, m.mem, m.i, n, vx, vy);
}

} // verus!
