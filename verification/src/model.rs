//! The mathematical model of the machine.
//!
//! Everything the engine does is stated here first, as pure specification
//! functions over a ghost [`MachineState`]: fetching, decoding, the effect of
//! every instruction, the draw routine, and the two timers. The executable
//! engine in [`crate::cpu`] is proved to follow these functions exactly.

use vstd::prelude::*;

verus! {

use crate::consts::{FB_SIZE, FONT_SIZE, GLYPH_HEIGHT, HEIGHT, MEM_SIZE, PHASE_PER_TICK,
    PROGRAM_START, WIDTH};

/// Why an operation refused to act. No fault mutates the machine: the state
/// is left exactly as it was, and the host may carry on or reset.
///
/// The machine's historical design leaves stack overflow, stack underflow and
/// out-of-range derived addresses undefined; this implementation chooses to
/// surface each as a recoverable fault rather than wrap or truncate.
#[derive(Clone, Copy, PartialEq, Eq, Structural, Debug)]
pub enum Fault {
    /// A program image longer than `MAX_ROM_SIZE` bytes was offered.
    RomTooLarge,
    /// A call arrived with all sixteen stack slots in use.
    StackOverflow,
    /// A return arrived with no call outstanding.
    StackUnderflow,
    /// An address derived from the index register or the program counter
    /// falls outside the 4096-byte address space.
    MemoryOutOfBounds,
}

/// Documented choices where the machine's historical ecosystem disagrees on
/// semantics. The defaults fix the in-place shift and the register-0 jump.
#[derive(Clone, Copy, PartialEq, Eq, Structural, Debug)]
pub struct Quirks {
    /// Shift instructions: when true, shift a copy of register y into
    /// register x; when false (the default) shift register x in place.
    pub shift_reads_y: bool,
    /// Jump-with-offset: when true, add the register named by the high
    /// nibble of the target; when false (the default) add register 0.
    pub jump_adds_x: bool,
}

impl Default for Quirks {
    /// The in-place shift and the register-0 jump.
    fn default() -> (q: Quirks)
        ensures
            q == (Quirks { shift_reads_y: false, jump_adds_x: false }),
    {
        Quirks { shift_reads_y: false, jump_adds_x: false }
    }
}

/// The whole machine as mathematics: memory, registers, stack, timers,
/// framebuffer and keypad, each as a sequence or plain value.
pub ghost struct MachineState {
    /// The 4096-byte address space.
    pub mem: Seq<u8>,
    /// The sixteen general-purpose registers.
    pub v: Seq<u8>,
    /// The 16-bit index register.
    pub i: u16,
    /// The program counter.
    pub pc: u16,
    /// The sixteen return-address slots.
    pub stack: Seq<u16>,
    /// The stack pointer: number of slots in use, 0 to 16.
    pub sp: u8,
    /// The delay timer.
    pub delay: u8,
    /// The sound timer.
    pub sound: u8,
    /// Phase units left until the delay timer next decrements.
    pub delay_phase: u32,
    /// Phase units left until the sound timer next decrements.
    pub sound_phase: u32,
    /// The framebuffer, row-major: cell `y * WIDTH + x`.
    pub fb: Seq<bool>,
    /// The sixteen key-pressed flags.
    pub keys: Seq<bool>,
    /// The compatibility choices in force.
    pub quirks: Quirks,
}

/// The structural invariant: every sequence has its fixed size and the stack
/// pointer stays within its sixteen slots.
pub open spec fn state_wf(s: MachineState) -> bool {
    &&& s.mem.len() == MEM_SIZE
    &&& s.v.len() == 16
    &&& s.stack.len() == 16
    &&& s.fb.len() == FB_SIZE
    &&& s.keys.len() == 16
    &&& s.sp <= 16
}

/// A decoded instruction. Register indices `x` and `y` are 0 to 15, `nn` is
/// the low byte of the opcode, `nnn` its low twelve bits, and `n` the sprite
/// height of a draw.
#[derive(Clone, Copy, PartialEq, Eq, Structural, Debug)]
pub enum Instr {
    /// 00E0: clear the framebuffer.
    Cls,
    /// 00EE: return from a subroutine.
    Ret,
    /// 1nnn: jump.
    Jump { nnn: u16 },
    /// 2nnn: call a subroutine.
    Call { nnn: u16 },
    /// 3xnn: skip the next instruction if register x equals nn.
    SkipEqImm { x: u8, nn: u8 },
    /// 4xnn: skip if register x differs from nn.
    SkipNeImm { x: u8, nn: u8 },
    /// 5xy0: skip if register x equals register y.
    SkipEqReg { x: u8, y: u8 },
    /// 6xnn: set register x to nn.
    SetImm { x: u8, nn: u8 },
    /// 7xnn: add nn to register x, wrapping, flag untouched.
    AddImm { x: u8, nn: u8 },
    /// 8xy0: copy register y into register x.
    Copy { x: u8, y: u8 },
    /// 8xy1: bitwise or.
    Or { x: u8, y: u8 },
    /// 8xy2: bitwise and.
    And { x: u8, y: u8 },
    /// 8xy3: bitwise xor.
    Xor { x: u8, y: u8 },
    /// 8xy4: add with carry into register F.
    Add { x: u8, y: u8 },
    /// 8xy5: subtract with borrow flag into register F.
    Sub { x: u8, y: u8 },
    /// 8xy6: shift right by one, old low bit into register F.
    Shr { x: u8, y: u8 },
    /// 8xy7: reversed subtract with borrow flag into register F.
    SubRev { x: u8, y: u8 },
    /// 8xyE: shift left by one, old high bit into register F.
    Shl { x: u8, y: u8 },
    /// 9xy0: skip if register x differs from register y.
    SkipNeReg { x: u8, y: u8 },
    /// Annn: set the index register.
    SetIndex { nnn: u16 },
    /// Bnnn: jump to nnn plus an offset register.
    JumpPlus { nnn: u16 },
    /// Cxnn: random byte masked by nn into register x.
    Random { x: u8, nn: u8 },
    /// Dxyn: draw an n-row sprite at (register x, register y).
    Draw { x: u8, y: u8, n: u8 },
    /// Ex9E: skip if the key named by register x is pressed. The low
    /// nibble of the register names the key; higher bits are ignored.
    SkipKey { x: u8 },
    /// ExA1: skip if that key is not pressed.
    SkipNoKey { x: u8 },
    /// Fx07: read the delay timer into register x.
    ReadDelay { x: u8 },
    /// Fx0A: wait for a key press. While no key is down the program
    /// counter does not move, so the instruction runs again next tick; the
    /// tick that finds a key stores the lowest-indexed pressed one and moves
    /// on.
    WaitKey { x: u8 },
    /// Fx15: set the delay timer from register x.
    SetDelay { x: u8 },
    /// Fx18: set the sound timer from register x.
    SetSound { x: u8 },
    /// Fx1E: add register x to the index register. The register stores the
    /// 16-bit wrapping sum unmasked; register F reports whether the stored
    /// sum left the 12-bit address space.
    AddIndex { x: u8 },
    /// Fx29: point the index register at the font glyph for register x.
    FontIndex { x: u8 },
    /// Fx33: store register x as three decimal digits at the index register.
    StoreBcd { x: u8 },
    /// Fx55: store registers 0 through x at the index register.
    StoreRegs { x: u8 },
    /// Fx65: load registers 0 through x from the index register.
    LoadRegs { x: u8 },
    /// Any opcode the machine does not define: reported and skipped.
    Unknown { op: u16 },
}

/// Field bounds of a decoded instruction; every result of [`spec_decode`]
/// satisfies them.
pub open spec fn instr_wf(ins: Instr) -> bool {
    match ins {
        Instr::Cls | Instr::Ret | Instr::Unknown { .. } => true,
        Instr::Jump { nnn } | Instr::Call { nnn } | Instr::SetIndex { nnn }
            | Instr::JumpPlus { nnn } => nnn < 0x1000,
        Instr::SkipEqImm { x, .. } | Instr::SkipNeImm { x, .. } | Instr::SetImm { x, .. }
            | Instr::AddImm { x, .. } | Instr::Random { x, .. } => x < 16,
        Instr::SkipEqReg { x, y } | Instr::SkipNeReg { x, y } | Instr::Copy { x, y }
            | Instr::Or { x, y } | Instr::And { x, y } | Instr::Xor { x, y }
            | Instr::Add { x, y } | Instr::Sub { x, y } | Instr::Shr { x, y }
            | Instr::SubRev { x, y } | Instr::Shl { x, y } => x < 16 && y < 16,
        Instr::Draw { x, y, n } => x < 16 && y < 16 && n < 16,
        Instr::SkipKey { x } | Instr::SkipNoKey { x } | Instr::ReadDelay { x }
            | Instr::WaitKey { x } | Instr::SetDelay { x } | Instr::SetSound { x }
            | Instr::AddIndex { x } | Instr::FontIndex { x } | Instr::StoreBcd { x }
            | Instr::StoreRegs { x } | Instr::LoadRegs { x } => x < 16,
    }
}

/// The instruction named by the 16-bit opcode `op`: primary dispatch on the
/// top nibble, secondary dispatch on the low byte or low nibble.
pub open spec fn spec_decode(op: u16) -> Instr {
    let x = ((op >> 8) & 0xF) as u8;
    let y = ((op >> 4) & 0xF) as u8;
    let nn = (op & 0xFF) as u8;
    let nnn = op & 0xFFF;
    let n = (op & 0xF) as u8;
    let top = op >> 12;
    if top == 0x0 {
        if nn == 0xE0 {
            Instr::Cls
        } else if nn == 0xEE {
            Instr::Ret
        } else {
            Instr::Unknown { op }
        }
    } else if top == 0x1 {
        Instr::Jump { nnn }
    } else if top == 0x2 {
        Instr::Call { nnn }
    } else if top == 0x3 {
        Instr::SkipEqImm { x, nn }
    } else if top == 0x4 {
        Instr::SkipNeImm { x, nn }
    } else if top == 0x5 {
        if n == 0x0 {
            Instr::SkipEqReg { x, y }
        } else {
            Instr::Unknown { op }
        }
    } else if top == 0x6 {
        Instr::SetImm { x, nn }
    } else if top == 0x7 {
        Instr::AddImm { x, nn }
    } else if top == 0x8 {
        if n == 0x0 {
            Instr::Copy { x, y }
        } else if n == 0x1 {
            Instr::Or { x, y }
        } else if n == 0x2 {
            Instr::And { x, y }
        } else if n == 0x3 {
            Instr::Xor { x, y }
        } else if n == 0x4 {
            Instr::Add { x, y }
        } else if n == 0x5 {
            Instr::Sub { x, y }
        } else if n == 0x6 {
            Instr::Shr { x, y }
        } else if n == 0x7 {
            Instr::SubRev { x, y }
        } else if n == 0xE {
            Instr::Shl { x, y }
        } else {
            Instr::Unknown { op }
        }
    } else if top == 0x9 {
        if n == 0x0 {
            Instr::SkipNeReg { x, y }
        } else {
            Instr::Unknown { op }
        }
    } else if top == 0xA {
        Instr::SetIndex { nnn }
    } else if top == 0xB {
        Instr::JumpPlus { nnn }
    } else if top == 0xC {
        Instr::Random { x, nn }
    } else if top == 0xD {
        Instr::Draw { x, y, n }
    } else if top == 0xE {
        if nn == 0x9E {
            Instr::SkipKey { x }
        } else if nn == 0xA1 {
            Instr::SkipNoKey { x }
        } else {
            Instr::Unknown { op }
        }
    } else {
        if nn == 0x07 {
            Instr::ReadDelay { x }
        } else if nn == 0x0A {
            Instr::WaitKey { x }
        } else if nn == 0x15 {
            Instr::SetDelay { x }
        } else if nn == 0x18 {
            Instr::SetSound { x }
        } else if nn == 0x1E {
            Instr::AddIndex { x }
        } else if nn == 0x29 {
            Instr::FontIndex { x }
        } else if nn == 0x33 {
            Instr::StoreBcd { x }
        } else if nn == 0x55 {
            Instr::StoreRegs { x }
        } else if nn == 0x65 {
            Instr::LoadRegs { x }
        } else {
            Instr::Unknown { op }
        }
    }
}

/// `s` with the program counter moved past the current instruction.
/// Program-counter arithmetic wraps modulo 2^16; a counter that has left
/// the address space surfaces as a fault at the next fetch.
pub open spec fn advance(s: MachineState) -> MachineState {
    MachineState { pc: s.pc.wrapping_add(2), ..s }
}

/// `s` with the next instruction skipped when `cond` holds, else advanced.
pub open spec fn skip_if(s: MachineState, cond: bool) -> MachineState {
    if cond {
        MachineState { pc: s.pc.wrapping_add(4), ..s }
    } else {
        advance(s)
    }
}

/// A framebuffer with every cell off.
pub open spec fn blank_fb() -> Seq<bool> {
    Seq::new(FB_SIZE as nat, |idx: int| false)
}

/// The lowest pressed key at or after index `from`, if any.
pub open spec fn lowest_pressed(keys: Seq<bool>, from: int) -> Option<u8>
    decreases keys.len() - from,
{
    if from < 0 || from >= keys.len() {
        None
    } else if keys[from] {
        Some(from as u8)
    } else {
        lowest_pressed(keys, from + 1)
    }
}

/// True if bit `c` (0 = most significant) of a sprite row byte is set.
pub open spec fn sprite_row_bit(row: u8, c: int) -> bool {
    row & (0x80u8 >> (c as u8)) != 0
}

/// True if the sprite `rows`, drawn with its top-left at `(x0, y0)`, has a
/// set bit landing on cell `(cx, cy)`. Both axes wrap independently.
pub open spec fn sprite_covers(rows: Seq<u8>, x0: int, y0: int, cx: int, cy: int) -> bool {
    exists|r: int, c: int|
        0 <= r < rows.len() && 0 <= c < 8 && sprite_row_bit(rows[r], c)
            && (x0 + c) % (WIDTH as int) == cx && (y0 + r) % (HEIGHT as int) == cy
}

/// The framebuffer after XOR-compositing the sprite `rows` at `(x0, y0)`.
pub open spec fn draw_fb(fb: Seq<bool>, rows: Seq<u8>, x0: int, y0: int) -> Seq<bool> {
    Seq::new(
        fb.len(),
        |idx: int|
            fb[idx] != sprite_covers(
                rows,
                x0,
                y0,
                idx % (WIDTH as int),
                idx / (WIDTH as int),
            ),
    )
}

/// True if drawing the sprite `rows` at `(x0, y0)` turns some lit cell off,
/// that is, some set sprite bit lands on a cell that is already on.
pub open spec fn draw_collision(fb: Seq<bool>, rows: Seq<u8>, x0: int, y0: int) -> bool {
    exists|r: int, c: int|
        0 <= r < rows.len() && 0 <= c < 8 && sprite_row_bit(rows[r], c)
            && fb[((y0 + r) % (HEIGHT as int)) * (WIDTH as int) + (x0 + c) % (WIDTH as int)]
}

/// True if a set sprite bit lands on cell `(cx, cy)` among the pairs that
/// precede `(r_lim, c_lim)` in draw order: every bit of a row before `r_lim`,
/// and the first `c_lim` bits of row `r_lim`. The draw loop walks the sprite
/// in this order, so its partial effect is described by this predicate.
pub open spec fn sprite_covers_upto(
    rows: Seq<u8>,
    x0: int,
    y0: int,
    cx: int,
    cy: int,
    r_lim: int,
    c_lim: int,
) -> bool {
    exists|r: int, c: int|
        0 <= r < rows.len() && 0 <= c < 8 && (r < r_lim || (r == r_lim && c < c_lim))
            && sprite_row_bit(rows[r], c) && (x0 + c) % (WIDTH as int) == cx && (y0 + r) % (
        HEIGHT as int) == cy
}

/// Like [`draw_collision`], restricted to the pairs before `(r_lim, c_lim)`
/// in draw order.
pub open spec fn draw_collision_upto(
    fb: Seq<bool>,
    rows: Seq<u8>,
    x0: int,
    y0: int,
    r_lim: int,
    c_lim: int,
) -> bool {
    exists|r: int, c: int|
        0 <= r < rows.len() && 0 <= c < 8 && (r < r_lim || (r == r_lim && c < c_lim))
            && sprite_row_bit(rows[r], c) && fb[((y0 + r) % (HEIGHT as int)) * (WIDTH as int) + (
            x0 + c) % (WIDTH as int)]
}

/// The draw instruction: XOR the `n`-row sprite at the index register onto
/// the framebuffer at (register x, register y), with register F set to 1
/// exactly when a lit cell is turned off, or a fault if the sprite bytes
/// reach past the end of memory.
pub open spec fn spec_draw(s: MachineState, x: u8, y: u8, n: u8) -> Result<MachineState, Fault>
    recommends
        state_wf(s),
        x < 16,
        y < 16,
        n < 16,
{
    if n > 0 && s.i + n > MEM_SIZE {
        Err(Fault::MemoryOutOfBounds)
    } else {
        let rows = if n == 0 {
            Seq::<u8>::empty()
        } else {
            s.mem.subrange(s.i as int, s.i + n)
        };
        let x0 = s.v[x as int] as int;
        let y0 = s.v[y as int] as int;
        let flag: u8 = if draw_collision(s.fb, rows, x0, y0) {
            1
        } else {
            0
        };
        Ok(
            advance(
                MachineState { fb: draw_fb(s.fb, rows, x0, y0), v: s.v.update(15, flag), ..s },
            ),
        )
    }
}

/// The effect of one decoded instruction on the machine, `Ok` with the next
/// state or `Err` with an untouched one. `rnd` is the byte the entropy
/// source supplied; only a random instruction reads it.
pub open spec fn spec_exec(s: MachineState, ins: Instr, rnd: u8) -> Result<MachineState, Fault>
    recommends
        state_wf(s),
        instr_wf(ins),
{
    match ins {
        Instr::Cls => Ok(advance(MachineState { fb: blank_fb(), ..s })),
        Instr::Ret => if s.sp == 0 {
            Err(Fault::StackUnderflow)
        } else {
            Ok(
                MachineState {
                    sp: (s.sp - 1) as u8,
                    pc: s.stack[s.sp - 1].wrapping_add(2),
                    ..s
                },
            )
        },
        Instr::Jump { nnn } => Ok(MachineState { pc: nnn, ..s }),
        Instr::Call { nnn } => if s.sp >= 16 {
            Err(Fault::StackOverflow)
        } else {
            Ok(
                MachineState {
                    stack: s.stack.update(s.sp as int, s.pc),
                    sp: (s.sp + 1) as u8,
                    pc: nnn,
                    ..s
                },
            )
        },
        Instr::SkipEqImm { x, nn } => Ok(skip_if(s, s.v[x as int] == nn)),
        Instr::SkipNeImm { x, nn } => Ok(skip_if(s, s.v[x as int] != nn)),
        Instr::SkipEqReg { x, y } => Ok(skip_if(s, s.v[x as int] == s.v[y as int])),
        Instr::SetImm { x, nn } => Ok(advance(MachineState { v: s.v.update(x as int, nn), ..s })),
        Instr::AddImm { x, nn } => Ok(
            advance(MachineState { v: s.v.update(x as int, s.v[x as int].wrapping_add(nn)), ..s }),
        ),
        Instr::Copy { x, y } => Ok(
            advance(MachineState { v: s.v.update(x as int, s.v[y as int]), ..s }),
        ),
        Instr::Or { x, y } => Ok(
            advance(
                MachineState { v: s.v.update(x as int, s.v[x as int] | s.v[y as int]), ..s },
            ),
        ),
        Instr::And { x, y } => Ok(
            advance(
                MachineState { v: s.v.update(x as int, s.v[x as int] & s.v[y as int]), ..s },
            ),
        ),
        Instr::Xor { x, y } => Ok(
            advance(
                MachineState { v: s.v.update(x as int, s.v[x as int] ^ s.v[y as int]), ..s },
            ),
        ),
        Instr::Add { x, y } => {
            let a = s.v[x as int];
            let b = s.v[y as int];
            let flag: u8 = if a + b > 255 { 1 } else { 0 };
            Ok(
                advance(
                    MachineState {
                        v: s.v.update(x as int, a.wrapping_add(b)).update(15, flag),
                        ..s
                    },
                ),
            )
        },
        Instr::Sub { x, y } => {
            let a = s.v[x as int];
            let b = s.v[y as int];
            let flag: u8 = if b > a { 0 } else { 1 };
            Ok(
                advance(
                    MachineState {
                        v: s.v.update(x as int, a.wrapping_sub(b)).update(15, flag),
                        ..s
                    },
                ),
            )
        },
        Instr::Shr { x, y } => {
            let o = if s.quirks.shift_reads_y { s.v[y as int] } else { s.v[x as int] };
            Ok(
                advance(
                    MachineState {
                        v: s.v.update(x as int, o >> 1u8).update(15, o & 1),
                        ..s
                    },
                ),
            )
        },
        Instr::SubRev { x, y } => {
            let a = s.v[x as int];
            let b = s.v[y as int];
            let flag: u8 = if a > b { 0 } else { 1 };
            Ok(
                advance(
                    MachineState {
                        v: s.v.update(x as int, b.wrapping_sub(a)).update(15, flag),
                        ..s
                    },
                ),
            )
        },
        Instr::Shl { x, y } => {
            let o = if s.quirks.shift_reads_y { s.v[y as int] } else { s.v[x as int] };
            Ok(
                advance(
                    MachineState {
                        v: s.v.update(x as int, o << 1u8).update(15, o >> 7u8),
                        ..s
                    },
                ),
            )
        },
        Instr::SkipNeReg { x, y } => Ok(skip_if(s, s.v[x as int] != s.v[y as int])),
        Instr::SetIndex { nnn } => Ok(advance(MachineState { i: nnn, ..s })),
        Instr::JumpPlus { nnn } => {
            let reg: int = if s.quirks.jump_adds_x { (nnn >> 8u16) as int } else { 0 };
            Ok(MachineState { pc: (nnn + s.v[reg]) as u16, ..s })
        },
        Instr::Random { x, nn } => Ok(
            advance(MachineState { v: s.v.update(x as int, rnd & nn), ..s }),
        ),
        Instr::Draw { x, y, n } => spec_draw(s, x, y, n),
        Instr::SkipKey { x } => Ok(skip_if(s, s.keys[(s.v[x as int] & 0xF) as int])),
        Instr::SkipNoKey { x } => Ok(skip_if(s, !s.keys[(s.v[x as int] & 0xF) as int])),
        Instr::ReadDelay { x } => Ok(
            advance(MachineState { v: s.v.update(x as int, s.delay), ..s }),
        ),
        Instr::WaitKey { x } => match lowest_pressed(s.keys, 0) {
            Some(k) => Ok(advance(MachineState { v: s.v.update(x as int, k), ..s })),
            None => Ok(s),
        },
        Instr::SetDelay { x } => Ok(advance(MachineState { delay: s.v[x as int], ..s })),
        Instr::SetSound { x } => Ok(advance(MachineState { sound: s.v[x as int], ..s })),
        Instr::AddIndex { x } => {
            let i2 = s.i.wrapping_add(s.v[x as int] as u16);
            let flag: u8 = if i2 > 0xFFF { 1 } else { 0 };
            Ok(advance(MachineState { i: i2, v: s.v.update(15, flag), ..s }))
        },
        Instr::FontIndex { x } => Ok(
            advance(MachineState { i: (s.v[x as int] * GLYPH_HEIGHT) as u16, ..s }),
        ),
        Instr::StoreBcd { x } => {
            if s.i + 2 >= MEM_SIZE {
                Err(Fault::MemoryOutOfBounds)
            } else {
                let a = s.v[x as int];
                let mem2 = s.mem.update(s.i as int, (a / 100) as u8).update(
                    s.i + 1,
                    ((a % 100) / 10) as u8,
                ).update(s.i + 2, (a % 10) as u8);
                Ok(advance(MachineState { mem: mem2, ..s }))
            }
        },
        Instr::StoreRegs { x } => {
            if s.i + x >= MEM_SIZE {
                Err(Fault::MemoryOutOfBounds)
            } else {
                let mem2 = Seq::new(
                    s.mem.len(),
                    |j: int| if s.i <= j <= s.i + x { s.v[j - s.i] } else { s.mem[j] },
                );
                Ok(advance(MachineState { mem: mem2, ..s }))
            }
        },
        Instr::LoadRegs { x } => {
            if s.i + x >= MEM_SIZE {
                Err(Fault::MemoryOutOfBounds)
            } else {
                let v2 = Seq::new(
                    s.v.len(),
                    |k: int| if 0 <= k <= x { s.mem[s.i + k] } else { s.v[k] },
                );
                Ok(advance(MachineState { v: v2, ..s }))
            }
        },
        Instr::Unknown { .. } => Ok(advance(s)),
    }
}

/// The opcode at the program counter, fetched big-endian, or a fault if the
/// counter has left the address space.
pub open spec fn spec_fetch(s: MachineState) -> Result<u16, Fault>
    recommends
        state_wf(s),
{
    if s.pc + 1 >= MEM_SIZE {
        Err(Fault::MemoryOutOfBounds)
    } else {
        Ok(((s.mem[s.pc as int] as u16) << 8u16) | (s.mem[s.pc + 1] as u16))
    }
}

/// One whole machine step: fetch, decode, execute.
pub open spec fn spec_step(s: MachineState, rnd: u8) -> Result<MachineState, Fault>
    recommends
        state_wf(s),
{
    match spec_fetch(s) {
        Ok(op) => spec_exec(s, spec_decode(op), rnd),
        Err(f) => Err(f),
    }
}

/// One timer after `dt` phase units have elapsed: a non-zero counter whose
/// phase has run out decrements once and rewinds its phase a full period; a
/// zero counter, and its phase, are left alone.
pub open spec fn tick_timer(count: u8, phase: u32, dt: u32) -> (u8, u32) {
    if count == 0 {
        (count, phase)
    } else if dt >= phase {
        ((count - 1) as u8, PHASE_PER_TICK)
    } else {
        (count, (phase - dt) as u32)
    }
}

/// Both timers after `dt` phase units have elapsed.
pub open spec fn spec_update_timers(s: MachineState, dt: u32) -> MachineState {
    MachineState {
        delay: tick_timer(s.delay, s.delay_phase, dt).0,
        delay_phase: tick_timer(s.delay, s.delay_phase, dt).1,
        sound: tick_timer(s.sound, s.sound_phase, dt).0,
        sound_phase: tick_timer(s.sound, s.sound_phase, dt).1,
        ..s
    }
}

/// The power-on state: font at address 0, everything else zeroed, program
/// counter at the program start.
pub open spec fn spec_power_on(quirks: Quirks) -> MachineState {
    MachineState {
        mem: crate::consts::font_seq() + Seq::new((MEM_SIZE - FONT_SIZE) as nat, |j: int| 0u8),
        v: Seq::new(16, |k: int| 0u8),
        i: 0,
        pc: PROGRAM_START as u16,
        stack: Seq::new(16, |k: int| 0u16),
        sp: 0,
        delay: 0,
        sound: 0,
        delay_phase: 0,
        sound_phase: 0,
        fb: blank_fb(),
        keys: Seq::new(16, |k: int| false),
        quirks,
    }
}

/// The reset state: registers, stack, timers and framebuffer cleared and the
/// program counter rewound, with memory (font and program image), keypad and
/// quirks kept.
pub open spec fn spec_reset(s: MachineState) -> MachineState {
    MachineState {
        mem: s.mem,
        keys: s.keys,
        quirks: s.quirks,
        ..spec_power_on(s.quirks)
    }
}

/// What one machine step reports back to the host: the opcode it fetched,
/// whether it drew (so the host can refresh the display), and whether the
/// opcode was undefined (so the host can report it).
#[derive(Clone, Copy, PartialEq, Eq, Structural, Debug)]
pub struct StepEvent {
    /// The 16-bit opcode that was fetched and executed.
    pub opcode: u16,
    /// True if the instruction was a draw, so the framebuffer may have
    /// changed and the display sink should be handed the new grid.
    pub drew: bool,
    /// True if the opcode is not one the machine defines; it was skipped.
    pub unknown: bool,
}

/// The event a step that fetched `op` reports.
pub open spec fn spec_event(op: u16) -> StepEvent {
    StepEvent {
        opcode: op,
        drew: spec_decode(op) is Draw,
        unknown: spec_decode(op) is Unknown,
    }
}

/// How an executed instruction, run on `pre` with random byte `rnd`, relates
/// the state `post` and result `r` it left: on `Ok` the machine moved to the
/// state the model names; on a fault it did not move at all.
pub open spec fn exec_outcome(
    pre: MachineState,
    ins: Instr,
    rnd: u8,
    post: MachineState,
    r: Result<(), Fault>,
) -> bool {
    match spec_exec(pre, ins, rnd) {
        Ok(s2) => r == Ok::<(), Fault>(()) && post == s2,
        Err(f) => r == Err::<(), Fault>(f) && post == pre,
    }
}

/// How one whole step (fetch, decode, execute), run on `pre` with random
/// byte `rnd`, relates the state `post` and result `r` it left.
pub open spec fn step_outcome(
    pre: MachineState,
    rnd: u8,
    post: MachineState,
    r: Result<StepEvent, Fault>,
) -> bool {
    match spec_fetch(pre) {
        Ok(op) => match spec_exec(pre, spec_decode(op), rnd) {
            Ok(s2) => r == Ok::<StepEvent, Fault>(spec_event(op)) && post == s2,
            Err(f) => r == Err::<StepEvent, Fault>(f) && post == pre,
        },
        Err(f) => r == Err::<StepEvent, Fault>(f) && post == pre,
    }
}

/// When some key at or after `from` is pressed, the lowest such index is
/// reported, and it lies between `from` and the end of the keypad.
pub proof fn lemma_lowest_pressed_in_range(keys: Seq<bool>, from: int)
    requires
        keys.len() <= 256,
    ensures
        lowest_pressed(keys, from) matches Some(k) ==> from <= k < keys.len() && keys[k as int],
    decreases keys.len() - from,
{
    if 0 <= from < keys.len() && !keys[from] {
        lemma_lowest_pressed_in_range(keys, from + 1);
    }
}

/// Two numbers strictly fewer than 32 apart land on distinct rows of the
/// 32-row screen.
pub proof fn lemma_mod_distinct_lt_32(a: u16, b: u16)
    requires
        a < b,
        b - a < 32,
    ensures
        a % 32 != b % 32,
{
    assert(a % 32 != b % 32) by (bit_vector)
        requires
            a < b,
            b - a < 32,
    ;
}

/// Two numbers strictly fewer than 64 apart land on distinct columns of the
/// 64-column screen.
pub proof fn lemma_mod_distinct_lt_64(a: u16, b: u16)
    requires
        a < b,
        b - a < 64,
    ensures
        a % 64 != b % 64,
{
    assert(a % 64 != b % 64) by (bit_vector)
        requires
            a < b,
            b - a < 64,
    ;
}

/// The low nibble of a byte names one of the sixteen keys.
pub proof fn lemma_low_nibble(b: u8)
    ensures
        b & 0xF < 16,
{
    assert(b & 0xF < 16) by (bit_vector);
}

/// Memory after a program image lands at the program start.
pub open spec fn spec_load_rom(mem: Seq<u8>, rom: Seq<u8>) -> Seq<u8> {
    Seq::new(
        mem.len(),
        |j: int|
            if PROGRAM_START <= j < PROGRAM_START + rom.len() {
                rom[j - PROGRAM_START]
            } else {
                mem[j]
            },
    )
}

} // verus!
