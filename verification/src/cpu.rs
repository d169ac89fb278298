//! The executable engine: an owned machine state with one operation per
//! instruction group, each proved to follow the model in [`crate::model`].

use vstd::prelude::*;

verus! {

use crate::consts::{FB_SIZE, FONT_SIZE, HEIGHT, MAX_ROM_SIZE, MEM_SIZE, PROGRAM_START, WIDTH,
    font_bytes, font_seq};
use crate::model::{Fault, Instr, MachineState, Quirks, StepEvent, exec_outcome, instr_wf,
    lowest_pressed, spec_decode, spec_exec, spec_fetch, spec_load_rom, spec_power_on, spec_reset,
    spec_update_timers, state_wf, step_outcome};

/// The instruction named by the 16-bit opcode `op`, exactly as the model's
/// [`spec_decode`] names it.
pub fn decode(op: u16) -> (ins: Instr)
    ensures
        ins == spec_decode(op),
        instr_wf(ins),
{
    proof {
        assert(((op >> 8) & 0xF) < 16) by (bit_vector);
        assert(((op >> 4) & 0xF) < 16) by (bit_vector);
        assert((op & 0xF) < 16) by (bit_vector);
        assert((op & 0xFFF) < 0x1000) by (bit_vector);
    }
    let x = ((op >> 8) & 0xF) as u8;
    let y = ((op >> 4) & 0xF) as u8;
    let nn = (op & 0xFF) as u8;
    let nnn = op & 0xFFF;
    let n = (op & 0xF) as u8;
    let top = op >> 12;
    if top == 0x0 {
        if nn == 0xE0 {
            Instr::Cls
        } else if nn == 0xEE {
            Instr::Ret
        } else {
            Instr::Unknown { op }
        }
    } else if top == 0x1 {
        Instr::Jump { nnn }
    } else if top == 0x2 {
        Instr::Call { nnn }
    } else if top == 0x3 {
        Instr::SkipEqImm { x, nn }
    } else if top == 0x4 {
        Instr::SkipNeImm { x, nn }
    } else if top == 0x5 {
        if n == 0x0 {
            Instr::SkipEqReg { x, y }
        } else {
            Instr::Unknown { op }
        }
    } else if top == 0x6 {
        Instr::SetImm { x, nn }
    } else if top == 0x7 {
        Instr::AddImm { x, nn }
    } else if top == 0x8 {
        if n == 0x0 {
            Instr::Copy { x, y }
        } else if n == 0x1 {
            Instr::Or { x, y }
        } else if n == 0x2 {
            Instr::And { x, y }
        } else if n == 0x3 {
            Instr::Xor { x, y }
        } else if n == 0x4 {
            Instr::Add { x, y }
        } else if n == 0x5 {
            Instr::Sub { x, y }
        } else if n == 0x6 {
            Instr::Shr { x, y }
        } else if n == 0x7 {
            Instr::SubRev { x, y }
        } else if n == 0xE {
            Instr::Shl { x, y }
        } else {
            Instr::Unknown { op }
        }
    } else if top == 0x9 {
        if n == 0x0 {
            Instr::SkipNeReg { x, y }
        } else {
            Instr::Unknown { op }
        }
    } else if top == 0xA {
        Instr::SetIndex { nnn }
    } else if top == 0xB {
        Instr::JumpPlus { nnn }
    } else if top == 0xC {
        Instr::Random { x, nn }
    } else if top == 0xD {
        Instr::Draw { x, y, n }
    } else if top == 0xE {
        if nn == 0x9E {
            Instr::SkipKey { x }
        } else if nn == 0xA1 {
            Instr::SkipNoKey { x }
        } else {
            Instr::Unknown { op }
        }
    } else {
        if nn == 0x07 {
            Instr::ReadDelay { x }
        } else if nn == 0x0A {
            Instr::WaitKey { x }
        } else if nn == 0x15 {
            Instr::SetDelay { x }
        } else if nn == 0x18 {
            Instr::SetSound { x }
        } else if nn == 0x1E {
            Instr::AddIndex { x }
        } else if nn == 0x29 {
            Instr::FontIndex { x }
        } else if nn == 0x33 {
            Instr::StoreBcd { x }
        } else if nn == 0x55 {
            Instr::StoreRegs { x }
        } else if nn == 0x65 {
            Instr::LoadRegs { x }
        } else {
            Instr::Unknown { op }
        }
    }
}

/// No sprite bit drawn before `(row, col)` lands on the very cell that
/// `(row, col)` lands on: rows hit distinct framebuffer rows (fewer than 32
/// of them) and, within a row, the eight bits hit distinct columns.
proof fn lemma_prior_misses_cell(rows: Seq<u8>, x0: int, y0: int, row: int, col: int)
    requires
        rows.len() < 32,
        0 <= x0 < 256,
        0 <= y0 < 256,
        0 <= row < rows.len(),
        0 <= col < 8,
    ensures
        !crate::model::sprite_covers_upto(
            rows,
            x0,
            y0,
            (x0 + col) % (WIDTH as int),
            (y0 + row) % (HEIGHT as int),
            row,
            col,
        ),
{
    let cxt = (x0 + col) % (WIDTH as int);
    let cyt = (y0 + row) % (HEIGHT as int);
    if crate::model::sprite_covers_upto(rows, x0, y0, cxt, cyt, row, col) {
        let (r, c) = choose|r: int, c: int|
            0 <= r < rows.len() && 0 <= c < 8 && (r < row || (r == row && c < col))
                && crate::model::sprite_row_bit(rows[r], c) && (x0 + c) % (WIDTH as int) == cxt
                && (y0 + r) % (HEIGHT as int) == cyt;
        if r < row {
            crate::model::lemma_mod_distinct_lt_32((y0 + r) as u16, (y0 + row) as u16);
        } else {
            crate::model::lemma_mod_distinct_lt_64((x0 + c) as u16, (x0 + col) as u16);
        }
    }
}

/// Advancing the draw order past a set bit adds exactly the cell that bit
/// lands on to the covered set, and its lit-ness to the collision account.
proof fn lemma_draw_step_hit(fb: Seq<bool>, rows: Seq<u8>, x0: int, y0: int, row: int, col: int)
    requires
        0 <= row < rows.len(),
        0 <= col < 8,
        crate::model::sprite_row_bit(rows[row], col),
    ensures
        forall|cx: int, cy: int|
            #[trigger] crate::model::sprite_covers_upto(rows, x0, y0, cx, cy, row, col + 1) == (
            crate::model::sprite_covers_upto(rows, x0, y0, cx, cy, row, col) || (cx == (x0 + col)
                % (WIDTH as int) && cy == (y0 + row) % (HEIGHT as int))),
        crate::model::draw_collision_upto(fb, rows, x0, y0, row, col + 1) == (
        crate::model::draw_collision_upto(fb, rows, x0, y0, row, col) || fb[((y0 + row) % (
        HEIGHT as int)) * (WIDTH as int) + (x0 + col) % (WIDTH as int)]),
{
    let cxt = (x0 + col) % (WIDTH as int);
    let cyt = (y0 + row) % (HEIGHT as int);
    assert forall|cx: int, cy: int|
        #[trigger] crate::model::sprite_covers_upto(rows, x0, y0, cx, cy, row, col + 1) == (
        crate::model::sprite_covers_upto(rows, x0, y0, cx, cy, row, col) || (cx == cxt && cy
            == cyt)) by {
        if crate::model::sprite_covers_upto(rows, x0, y0, cx, cy, row, col + 1) {
            let (r, c) = choose|r: int, c: int|
                0 <= r < rows.len() && 0 <= c < 8 && (r < row || (r == row && c < col + 1))
                    && crate::model::sprite_row_bit(rows[r], c) && (x0 + c) % (WIDTH as int) == cx
                    && (y0 + r) % (HEIGHT as int) == cy;
            if r == row && c == col {
                assert(cx == cxt && cy == cyt);
            } else {
                assert(crate::model::sprite_covers_upto(rows, x0, y0, cx, cy, row, col));
            }
        }
        if cx == cxt && cy == cyt {
            assert(crate::model::sprite_covers_upto(rows, x0, y0, cx, cy, row, col + 1));
        }
    }
    if crate::model::draw_collision_upto(fb, rows, x0, y0, row, col + 1) {
        let (r, c) = choose|r: int, c: int|
            0 <= r < rows.len() && 0 <= c < 8 && (r < row || (r == row && c < col + 1))
                && crate::model::sprite_row_bit(rows[r], c) && fb[((y0 + r) % (HEIGHT as int)) * (
            WIDTH as int) + (x0 + c) % (WIDTH as int)];
        if !(r == row && c == col) {
            assert(crate::model::draw_collision_upto(fb, rows, x0, y0, row, col));
        }
    }
    if crate::model::draw_collision_upto(fb, rows, x0, y0, row, col) || fb[cyt * (WIDTH as int)
        + cxt] {
        assert(crate::model::draw_collision_upto(fb, rows, x0, y0, row, col + 1));
    }
}

/// Advancing the draw order past a clear bit changes nothing.
proof fn lemma_draw_step_miss(fb: Seq<bool>, rows: Seq<u8>, x0: int, y0: int, row: int, col: int)
    requires
        0 <= row < rows.len(),
        0 <= col < 8,
        !crate::model::sprite_row_bit(rows[row], col),
    ensures
        forall|cx: int, cy: int|
            #[trigger] crate::model::sprite_covers_upto(rows, x0, y0, cx, cy, row, col + 1)
                == crate::model::sprite_covers_upto(rows, x0, y0, cx, cy, row, col),
        crate::model::draw_collision_upto(fb, rows, x0, y0, row, col + 1)
            == crate::model::draw_collision_upto(fb, rows, x0, y0, row, col),
{
    assert forall|cx: int, cy: int|
        #[trigger] crate::model::sprite_covers_upto(rows, x0, y0, cx, cy, row, col + 1)
            == crate::model::sprite_covers_upto(rows, x0, y0, cx, cy, row, col) by {
        if crate::model::sprite_covers_upto(rows, x0, y0, cx, cy, row, col + 1) {
            let (r, c) = choose|r: int, c: int|
                0 <= r < rows.len() && 0 <= c < 8 && (r < row || (r == row && c < col + 1))
                    && crate::model::sprite_row_bit(rows[r], c) && (x0 + c) % (WIDTH as int) == cx
                    && (y0 + r) % (HEIGHT as int) == cy;
            assert(crate::model::sprite_covers_upto(rows, x0, y0, cx, cy, row, col));
        }
    }
    if crate::model::draw_collision_upto(fb, rows, x0, y0, row, col + 1) {
        let (r, c) = choose|r: int, c: int|
            0 <= r < rows.len() && 0 <= c < 8 && (r < row || (r == row && c < col + 1))
                && crate::model::sprite_row_bit(rows[r], c) && fb[((y0 + r) % (HEIGHT as int)) * (
            WIDTH as int) + (x0 + c) % (WIDTH as int)];
        assert(crate::model::draw_collision_upto(fb, rows, x0, y0, row, col));
    }
}

/// Finishing a row's eight bits is the same as standing at the start of the
/// next row.
proof fn lemma_draw_row_roll(fb: Seq<bool>, rows: Seq<u8>, x0: int, y0: int, row: int)
    requires
        0 <= row,
    ensures
        forall|cx: int, cy: int|
            #[trigger] crate::model::sprite_covers_upto(rows, x0, y0, cx, cy, row, 8)
                == crate::model::sprite_covers_upto(rows, x0, y0, cx, cy, row + 1, 0),
        crate::model::draw_collision_upto(fb, rows, x0, y0, row, 8)
            == crate::model::draw_collision_upto(fb, rows, x0, y0, row + 1, 0),
{
}

/// Standing past the last row covers exactly what the whole sprite covers.
proof fn lemma_draw_full(fb: Seq<bool>, rows: Seq<u8>, x0: int, y0: int)
    ensures
        forall|cx: int, cy: int|
            #[trigger] crate::model::sprite_covers_upto(rows, x0, y0, cx, cy, rows.len() as int, 0)
                == crate::model::sprite_covers(rows, x0, y0, cx, cy),
        crate::model::draw_collision_upto(fb, rows, x0, y0, rows.len() as int, 0)
            == crate::model::draw_collision(fb, rows, x0, y0),
{
}

/// The machine: a 4096-byte address space (font at address 0, program at
/// `PROGRAM_START`), sixteen 8-bit registers, a 16-bit index register, a
/// sixteen-slot call stack, two 60 Hz countdown timers and a 64x32
/// one-bit framebuffer.
///
/// Its ghost view is the [`MachineState`] the model speaks of; every
/// operation's contract says exactly which model state it moves to.
pub struct Cpu {
    /// The address space.
    pub memory: Vec<u8>,
    /// The sixteen general-purpose registers.
    pub vreg: Vec<u8>,
    /// The index register.
    pub ireg: u16,
    /// The program counter.
    pub pc: u16,
    /// The return-address slots.
    pub stack: Vec<u16>,
    /// The stack pointer: slots in use, 0 to 16.
    pub sp: u8,
    /// The delay timer.
    pub delay_timer: u8,
    /// The sound timer.
    pub sound_timer: u8,
    /// Phase units left until the delay timer next decrements.
    pub delay_phase: u32,
    /// Phase units left until the sound timer next decrements.
    pub sound_phase: u32,
    /// The framebuffer, row-major: cell `y * WIDTH + x`.
    pub pixels: Vec<bool>,
    /// The key-pressed flags, filled in by the host's input layer.
    pub keypad: Vec<bool>,
    /// The compatibility choices in force.
    pub quirks: Quirks,
}

impl View for Cpu {
    type V = MachineState;

    open spec fn view(&self) -> MachineState {
        MachineState {
            mem: self.memory@,
            v: self.vreg@,
            i: self.ireg,
            pc: self.pc,
            stack: self.stack@,
            sp: self.sp,
            delay: self.delay_timer,
            sound: self.sound_timer,
            delay_phase: self.delay_phase,
            sound_phase: self.sound_phase,
            fb: self.pixels@,
            keys: self.keypad@,
            quirks: self.quirks,
        }
    }
}

/// A vector of `n` copies of `val`.
fn filled<T: Copy>(val: T, n: usize) -> (r: Vec<T>)
    ensures
        r@ == Seq::new(n as nat, |k: int| val),
{
    let mut r: Vec<T> = Vec::new();
    let mut k: usize = 0;
    while k < n
        invariant
            k <= n,
            r@ == Seq::new(k as nat, |j: int| val),
        decreases n - k,
    {
        r.push(val);
        k = k + 1;
        proof {
            assert(r@ =~= Seq::new(k as nat, |j: int| val));
        }
    }
    r
}

impl Cpu {
    /// The structural invariant: fixed sizes everywhere and a stack pointer
    /// within its slots. Established by [`Cpu::new`] and preserved by every
    /// operation.
    pub open spec fn wf(&self) -> bool {
        state_wf(self@)
    }

    /// Builds the powered-on machine: font atlas at address 0, registers,
    /// stack, timers, framebuffer and keypad cleared, program counter at the
    /// program start, default quirks.
    pub fn new() -> (cpu: Cpu)
        ensures
            cpu.wf(),
            cpu@ == spec_power_on(Quirks { shift_reads_y: false, jump_adds_x: false }),
    {
        let mut memory = font_bytes();
        while memory.len() < MEM_SIZE
            invariant
                FONT_SIZE <= memory@.len() <= MEM_SIZE,
                memory@ =~= font_seq() + Seq::new((memory@.len() - FONT_SIZE) as nat, |j: int| 0u8),
            decreases MEM_SIZE - memory@.len(),
        {
            memory.push(0);
            proof {
                assert(memory@ =~= font_seq() + Seq::new(
                    (memory@.len() - FONT_SIZE) as nat,
                    |j: int| 0u8,
                ));
            }
        }
        let cpu = Cpu {
            memory,
            vreg: filled(0u8, 16),
            ireg: 0,
            pc: PROGRAM_START as u16,
            stack: filled(0u16, 16),
            sp: 0,
            delay_timer: 0,
            sound_timer: 0,
            delay_phase: 0,
            sound_phase: 0,
            pixels: filled(false, FB_SIZE),
            keypad: filled(false, 16),
            quirks: Quirks { shift_reads_y: false, jump_adds_x: false },
        };
        proof {
            assert(cpu@.fb =~= crate::model::blank_fb());
            assert(cpu@ == spec_power_on(Quirks { shift_reads_y: false, jump_adds_x: false }));
        }
        cpu
    }

    /// Places a program image at the program start. An image longer than
    /// `MAX_ROM_SIZE` bytes does not fit and is refused whole: nothing is
    /// written and the machine is unchanged.
    pub fn load_rom(&mut self, rom: &Vec<u8>) -> (r: Result<(), Fault>)
        requires
            old(self).wf(),
        ensures
            final(self).wf(),
            rom@.len() <= MAX_ROM_SIZE ==> r == Ok::<(), Fault>(()) && final(self)@
                == (MachineState { mem: spec_load_rom(old(self)@.mem, rom@), ..old(self)@ }),
            rom@.len() > MAX_ROM_SIZE ==> r == Err::<(), Fault>(Fault::RomTooLarge)
                && final(self)@ == old(self)@,
    {
        if rom.len() > MAX_ROM_SIZE {
            return Err(Fault::RomTooLarge);
        }
        let ghost pre = self@;
        let n = rom.len();
        let mut k: usize = 0;
        while k < n
            invariant
                k <= n,
                n == rom@.len() <= MAX_ROM_SIZE,
                self@ == (MachineState { mem: self@.mem, ..pre }),
                self@.mem.len() == MEM_SIZE,
                forall|j: int|
                    PROGRAM_START <= j < PROGRAM_START + k ==> self@.mem[j] == rom@[j
                        - PROGRAM_START],
                forall|j: int|
                    0 <= j < MEM_SIZE && !(PROGRAM_START <= j < PROGRAM_START + k)
                        ==> self@.mem[j] == pre.mem[j],
            decreases n - k,
        {
            self.memory[PROGRAM_START + k] = rom[k];
            k = k + 1;
        }
        proof {
            assert(self@.mem =~= spec_load_rom(pre.mem, rom@));
        }
        Ok(())
    }

    /// Returns the machine to its power-on state while keeping the memory
    /// image (font and loaded program), the keypad flags and the quirks.
    pub fn reset(&mut self)
        requires
            old(self).wf(),
        ensures
            final(self).wf(),
            final(self)@ == spec_reset(old(self)@),
    {
        self.vreg = filled(0u8, 16);
        self.ireg = 0;
        self.pc = PROGRAM_START as u16;
        self.stack = filled(0u16, 16);
        self.sp = 0;
        self.delay_timer = 0;
        self.sound_timer = 0;
        self.delay_phase = 0;
        self.sound_phase = 0;
        self.pixels = filled(false, FB_SIZE);
        proof {
            assert(self@.fb =~= crate::model::blank_fb());
            assert(self@ == spec_reset(old(self)@));
        }
    }

    /// Advances both timers by `dt` phase units (one unit is 1/3600 of a
    /// second, sixty to a 60 Hz period). A non-zero counter whose phase has
    /// run out decrements once — never more, however large `dt` is — and its
    /// phase rewinds a full period; a counter at zero is left alone.
    pub fn update_timers(&mut self, dt: u32)
        requires
            old(self).wf(),
        ensures
            final(self).wf(),
            final(self)@ == spec_update_timers(old(self)@, dt),
    {
        if self.delay_timer > 0 {
            if dt >= self.delay_phase {
                self.delay_timer = self.delay_timer - 1;
                self.delay_phase = crate::consts::PHASE_PER_TICK;
            } else {
                self.delay_phase = self.delay_phase - dt;
            }
        }
        if self.sound_timer > 0 {
            if dt >= self.sound_phase {
                self.sound_timer = self.sound_timer - 1;
                self.sound_phase = crate::consts::PHASE_PER_TICK;
            } else {
                self.sound_phase = self.sound_phase - dt;
            }
        }
    }

    /// Records one key as pressed or released. The host's input layer calls
    /// this once per changed key, each frame.
    pub fn set_key(&mut self, key: u8, pressed: bool)
        requires
            old(self).wf(),
            key < 16,
        ensures
            final(self).wf(),
            final(self)@ == (MachineState {
                keys: old(self)@.keys.update(key as int, pressed),
                ..old(self)@
            }),
    {
        self.keypad[key as usize] = pressed;
    }

    /// The opcode at the program counter, fetched big-endian.
    fn fetch(&self) -> (r: Result<u16, Fault>)
        requires
            self.wf(),
        ensures
            r == spec_fetch(self@),
    {
        let pc = self.pc as usize;
        if pc + 1 >= MEM_SIZE {
            Err(Fault::MemoryOutOfBounds)
        } else {
            Ok(((self.memory[pc] as u16) << 8u16) | (self.memory[pc + 1] as u16))
        }
    }

    /// The lowest pressed key, if any key is down.
    fn first_pressed_key(&self) -> (r: Option<u8>)
        requires
            self.wf(),
        ensures
            r == lowest_pressed(self@.keys, 0),
    {
        let mut k: usize = 0;
        while k < 16
            invariant
                self.wf(),
                k <= 16,
                lowest_pressed(self@.keys, 0) == lowest_pressed(self@.keys, k as int),
            decreases 16 - k,
        {
            if self.keypad[k] {
                return Some(k as u8);
            }
            k = k + 1;
        }
        None
    }

    /// Stores registers 0 through `x` into memory at the index register, or
    /// faults, touching nothing, if the last byte would land past the end.
    fn store_regs(&mut self, x: u8) -> (r: Result<(), Fault>)
        requires
            old(self).wf(),
            x < 16,
        ensures
            final(self).wf(),
            exec_outcome(old(self)@, Instr::StoreRegs { x }, 0, final(self)@, r),
    {
        let i = self.ireg as usize;
        if i + x as usize >= MEM_SIZE {
            return Err(Fault::MemoryOutOfBounds);
        }
        let ghost pre = self@;
        let mut k: usize = 0;
        while k <= x as usize
            invariant
                state_wf(pre),
                pre.i + x < MEM_SIZE,
                i == pre.i,
                x < 16,
                k <= x + 1,
                self@ == (MachineState { mem: self@.mem, ..pre }),
                self@.mem.len() == MEM_SIZE,
                forall|j: int| i <= j < i + k ==> self@.mem[j] == pre.v[j - i],
                forall|j: int|
                    0 <= j < MEM_SIZE && !(i <= j < i + k) ==> self@.mem[j] == pre.mem[j],
            decreases x + 1 - k,
        {
            self.memory[i + k] = self.vreg[k];
            k = k + 1;
        }
        self.pc = self.pc.wrapping_add(2);
        proof {
            let s2 = spec_exec(pre, Instr::StoreRegs { x }, 0).unwrap();
            assert(self@.mem =~= s2.mem);
        }
        Ok(())
    }

    /// Loads registers 0 through `x` from memory at the index register, or
    /// faults, touching nothing, if the last byte lies past the end.
    fn load_regs(&mut self, x: u8) -> (r: Result<(), Fault>)
        requires
            old(self).wf(),
            x < 16,
        ensures
            final(self).wf(),
            exec_outcome(old(self)@, Instr::LoadRegs { x }, 0, final(self)@, r),
    {
        let i = self.ireg as usize;
        if i + x as usize >= MEM_SIZE {
            return Err(Fault::MemoryOutOfBounds);
        }
        let ghost pre = self@;
        let mut k: usize = 0;
        while k <= x as usize
            invariant
                state_wf(pre),
                pre.i + x < MEM_SIZE,
                i == pre.i,
                x < 16,
                k <= x + 1,
                self@ == (MachineState { v: self@.v, ..pre }),
                self@.v.len() == 16,
                forall|j: int| 0 <= j < k ==> self@.v[j] == pre.mem[i + j],
                forall|j: int| k <= j < 16 ==> self@.v[j] == pre.v[j],
            decreases x + 1 - k,
        {
            self.vreg[k] = self.memory[i + k];
            k = k + 1;
        }
        self.pc = self.pc.wrapping_add(2);
        proof {
            let s2 = spec_exec(pre, Instr::LoadRegs { x }, 0).unwrap();
            assert(self@.v =~= s2.v);
        }
        Ok(())
    }

    /// Stores the three decimal digits of register `x` at the index
    /// register, hundreds first, or faults if the three bytes do not fit.
    fn store_bcd(&mut self, x: u8) -> (r: Result<(), Fault>)
        requires
            old(self).wf(),
            x < 16,
        ensures
            final(self).wf(),
            exec_outcome(old(self)@, Instr::StoreBcd { x }, 0, final(self)@, r),
    {
        let i = self.ireg as usize;
        if i + 2 >= MEM_SIZE {
            return Err(Fault::MemoryOutOfBounds);
        }
        let a = self.vreg[x as usize];
        self.memory[i] = a / 100;
        self.memory[i + 1] = (a % 100) / 10;
        self.memory[i + 2] = a % 10;
        self.pc = self.pc.wrapping_add(2);
        Ok(())
    }

    /// Draws the `n`-row sprite at the index register with its top-left
    /// corner at (register `x`, register `y`): each set sprite bit flips one
    /// framebuffer cell, both axes wrapping, and register F reports whether
    /// any lit cell was turned off. Faults, touching nothing, if the sprite
    /// bytes reach past the end of memory.
    pub fn draw(&mut self, x: u8, y: u8, n: u8) -> (r: Result<(), Fault>)
        requires
            old(self).wf(),
            x < 16,
            y < 16,
            n < 16,
        ensures
            final(self).wf(),
            match crate::model::spec_draw(old(self)@, x, y, n) {
                Ok(s2) => r == Ok::<(), Fault>(()) && final(self)@ == s2,
                Err(f) => r == Err::<(), Fault>(f) && final(self)@ == old(self)@,
            },
    {
        let i = self.ireg as usize;
        if n > 0 && i + (n as usize) > MEM_SIZE {
            return Err(Fault::MemoryOutOfBounds);
        }
        let ghost pre = self@;
        let ghost rows = if n == 0 {
            Seq::<u8>::empty()
        } else {
            pre.mem.subrange(pre.i as int, pre.i + n)
        };
        let x0 = self.vreg[x as usize] as usize;
        let y0 = self.vreg[y as usize] as usize;
        let mut collision: bool = false;
        let mut row: usize = 0;
        while row < n as usize
            invariant
                state_wf(pre),
                x < 16,
                y < 16,
                n < 16,
                i == pre.i,
                n > 0 ==> pre.i + n <= MEM_SIZE,
                rows == (if n == 0 {
                    Seq::<u8>::empty()
                } else {
                    pre.mem.subrange(pre.i as int, pre.i + n)
                }),
                rows.len() == n,
                x0 == pre.v[x as int],
                y0 == pre.v[y as int],
                row <= n,
                self@ == (MachineState { fb: self@.fb, ..pre }),
                self@.fb.len() == FB_SIZE,
                forall|idx: int|
                    0 <= idx < FB_SIZE ==> self@.fb[idx] == (pre.fb[idx]
                        != crate::model::sprite_covers_upto(
                        rows,
                        x0 as int,
                        y0 as int,
                        idx % (WIDTH as int),
                        idx / (WIDTH as int),
                        row as int,
                        0,
                    )),
                collision == crate::model::draw_collision_upto(
                    pre.fb,
                    rows,
                    x0 as int,
                    y0 as int,
                    row as int,
                    0,
                ),
            decreases n - row,
        {
            let byte = self.memory[i + row];
            assert(byte == rows[row as int]);
            let mut col: usize = 0;
            while col < 8
                invariant
                    state_wf(pre),
                    x < 16,
                    y < 16,
                    n < 16,
                    i == pre.i,
                    n > 0 ==> pre.i + n <= MEM_SIZE,
                    rows == (if n == 0 {
                        Seq::<u8>::empty()
                    } else {
                        pre.mem.subrange(pre.i as int, pre.i + n)
                    }),
                    rows.len() == n,
                    x0 == pre.v[x as int],
                    y0 == pre.v[y as int],
                    row < n,
                    col <= 8,
                    byte == rows[row as int],
                    self@ == (MachineState { fb: self@.fb, ..pre }),
                    self@.fb.len() == FB_SIZE,
                    forall|idx: int|
                        0 <= idx < FB_SIZE ==> self@.fb[idx] == (pre.fb[idx]
                            != crate::model::sprite_covers_upto(
                            rows,
                            x0 as int,
                            y0 as int,
                            idx % (WIDTH as int),
                            idx / (WIDTH as int),
                            row as int,
                            col as int,
                        )),
                    collision == crate::model::draw_collision_upto(
                        pre.fb,
                        rows,
                        x0 as int,
                        y0 as int,
                        row as int,
                        col as int,
                    ),
                decreases 8 - col,
            {
                if byte & (0x80u8 >> (col as u8)) != 0 {
                    let cx = (x0 + col) % WIDTH;
                    let cy = (y0 + row) % HEIGHT;
                    let idx = cy * WIDTH + cx;
                    proof {
                        assert(crate::model::sprite_row_bit(rows[row as int], col as int));
                        lemma_prior_misses_cell(
                            rows,
                            x0 as int,
                            y0 as int,
                            row as int,
                            col as int,
                        );
                        lemma_draw_step_hit(
                            pre.fb,
                            rows,
                            x0 as int,
                            y0 as int,
                            row as int,
                            col as int,
                        );
                        assert(self@.fb[idx as int] == pre.fb[idx as int]);
                    }
                    if self.pixels[idx] {
                        collision = true;
                        self.pixels[idx] = false;
                    } else {
                        self.pixels[idx] = true;
                    }
                } else {
                    proof {
                        assert(!crate::model::sprite_row_bit(rows[row as int], col as int));
                        lemma_draw_step_miss(
                            pre.fb,
                            rows,
                            x0 as int,
                            y0 as int,
                            row as int,
                            col as int,
                        );
                    }
                }
                col = col + 1;
            }
            proof {
                lemma_draw_row_roll(pre.fb, rows, x0 as int, y0 as int, row as int);
            }
            row = row + 1;
        }
        proof {
            lemma_draw_full(pre.fb, rows, x0 as int, y0 as int);
            assert(self@.fb =~= crate::model::draw_fb(pre.fb, rows, x0 as int, y0 as int));
        }
        self.vreg[15] = if collision {
            1
        } else {
            0
        };
        self.pc = self.pc.wrapping_add(2);
        Ok(())
    }

    /// Executes one decoded instruction: the dispatch half of a machine
    /// step, usable on its own to drive any single instruction. `rnd` is the
    /// byte the entropy source supplied; only a random instruction reads it.
    /// On `Ok` the machine has moved exactly as the model's [`spec_exec`]
    /// says; on a fault it has not moved at all.
    pub fn exec_instr(&mut self, ins: Instr, rnd: u8) -> (r: Result<(), Fault>)
        requires
            old(self).wf(),
            instr_wf(ins),
        ensures
            final(self).wf(),
            exec_outcome(old(self)@, ins, rnd, final(self)@, r),
    {
        let ghost pre = self@;
        match ins {
            Instr::Cls => {
                self.pixels = filled(false, FB_SIZE);
                proof {
                    assert(self@.fb =~= crate::model::blank_fb());
                }
                self.pc = self.pc.wrapping_add(2);
                Ok(())
            },
            Instr::Ret => {
                if self.sp == 0 {
                    Err(Fault::StackUnderflow)
                } else {
                    self.sp = self.sp - 1;
                    self.pc = self.stack[self.sp as usize].wrapping_add(2);
                    Ok(())
                }
            },
            Instr::Jump { nnn } => {
                self.pc = nnn;
                Ok(())
            },
            Instr::Call { nnn } => {
                if self.sp >= 16 {
                    Err(Fault::StackOverflow)
                } else {
                    self.stack[self.sp as usize] = self.pc;
                    self.sp = self.sp + 1;
                    self.pc = nnn;
                    Ok(())
                }
            },
            Instr::SkipEqImm { x, nn } => {
                if self.vreg[x as usize] == nn {
                    self.pc = self.pc.wrapping_add(4);
                } else {
                    self.pc = self.pc.wrapping_add(2);
                }
                Ok(())
            },
            Instr::SkipNeImm { x, nn } => {
                if self.vreg[x as usize] != nn {
                    self.pc = self.pc.wrapping_add(4);
                } else {
                    self.pc = self.pc.wrapping_add(2);
                }
                Ok(())
            },
            Instr::SkipEqReg { x, y } => {
                if self.vreg[x as usize] == self.vreg[y as usize] {
                    self.pc = self.pc.wrapping_add(4);
                } else {
                    self.pc = self.pc.wrapping_add(2);
                }
                Ok(())
            },
            Instr::SetImm { x, nn } => {
                self.vreg[x as usize] = nn;
                self.pc = self.pc.wrapping_add(2);
                Ok(())
            },
            Instr::AddImm { x, nn } => {
                self.vreg[x as usize] = self.vreg[x as usize].wrapping_add(nn);
                self.pc = self.pc.wrapping_add(2);
                Ok(())
            },
            Instr::Copy { x, y } => {
                self.vreg[x as usize] = self.vreg[y as usize];
                self.pc = self.pc.wrapping_add(2);
                Ok(())
            },
            Instr::Or { x, y } => {
                self.vreg[x as usize] = self.vreg[x as usize] | self.vreg[y as usize];
                self.pc = self.pc.wrapping_add(2);
                Ok(())
            },
            Instr::And { x, y } => {
                self.vreg[x as usize] = self.vreg[x as usize] & self.vreg[y as usize];
                self.pc = self.pc.wrapping_add(2);
                Ok(())
            },
            Instr::Xor { x, y } => {
                self.vreg[x as usize] = self.vreg[x as usize] ^ self.vreg[y as usize];
                self.pc = self.pc.wrapping_add(2);
                Ok(())
            },
            Instr::Add { x, y } => {
                let a = self.vreg[x as usize];
                let b = self.vreg[y as usize];
                let sum = a as u16 + b as u16;
                self.vreg[x as usize] = a.wrapping_add(b);
                self.vreg[15] = if sum > 255 {
                    1
                } else {
                    0
                };
                self.pc = self.pc.wrapping_add(2);
                Ok(())
            },
            Instr::Sub { x, y } => {
                let a = self.vreg[x as usize];
                let b = self.vreg[y as usize];
                self.vreg[x as usize] = a.wrapping_sub(b);
                self.vreg[15] = if b > a {
                    0
                } else {
                    1
                };
                self.pc = self.pc.wrapping_add(2);
                Ok(())
            },
            Instr::Shr { x, y } => {
                let o = if self.quirks.shift_reads_y {
                    self.vreg[y as usize]
                } else {
                    self.vreg[x as usize]
                };
                self.vreg[x as usize] = o >> 1u8;
                self.vreg[15] = o & 1;
                self.pc = self.pc.wrapping_add(2);
                Ok(())
            },
            Instr::SubRev { x, y } => {
                let a = self.vreg[x as usize];
                let b = self.vreg[y as usize];
                self.vreg[x as usize] = b.wrapping_sub(a);
                self.vreg[15] = if a > b {
                    0
                } else {
                    1
                };
                self.pc = self.pc.wrapping_add(2);
                Ok(())
            },
            Instr::Shl { x, y } => {
                let o = if self.quirks.shift_reads_y {
                    self.vreg[y as usize]
                } else {
                    self.vreg[x as usize]
                };
                self.vreg[x as usize] = o << 1u8;
                self.vreg[15] = o >> 7u8;
                self.pc = self.pc.wrapping_add(2);
                Ok(())
            },
            Instr::SkipNeReg { x, y } => {
                if self.vreg[x as usize] != self.vreg[y as usize] {
                    self.pc = self.pc.wrapping_add(4);
                } else {
                    self.pc = self.pc.wrapping_add(2);
                }
                Ok(())
            },
            Instr::SetIndex { nnn } => {
                self.ireg = nnn;
                self.pc = self.pc.wrapping_add(2);
                Ok(())
            },
            Instr::JumpPlus { nnn } => {
                proof {
                    assert(nnn >> 8u16 < 16) by (bit_vector)
                        requires
                            nnn < 0x1000,
                    ;
                }
                let reg: usize = if self.quirks.jump_adds_x {
                    (nnn >> 8u16) as usize
                } else {
                    0
                };
                self.pc = nnn + (self.vreg[reg] as u16);
                Ok(())
            },
            Instr::Random { x, nn } => {
                self.vreg[x as usize] = rnd & nn;
                self.pc = self.pc.wrapping_add(2);
                Ok(())
            },
            Instr::Draw { x, y, n } => self.draw(x, y, n),
            Instr::SkipKey { x } => {
                proof {
                    crate::model::lemma_low_nibble(pre.v[x as int]);
                }
                let k = (self.vreg[x as usize] & 0xF) as usize;
                if self.keypad[k] {
                    self.pc = self.pc.wrapping_add(4);
                } else {
                    self.pc = self.pc.wrapping_add(2);
                }
                Ok(())
            },
            Instr::SkipNoKey { x } => {
                proof {
                    crate::model::lemma_low_nibble(pre.v[x as int]);
                }
                let k = (self.vreg[x as usize] & 0xF) as usize;
                if !self.keypad[k] {
                    self.pc = self.pc.wrapping_add(4);
                } else {
                    self.pc = self.pc.wrapping_add(2);
                }
                Ok(())
            },
            Instr::ReadDelay { x } => {
                self.vreg[x as usize] = self.delay_timer;
                self.pc = self.pc.wrapping_add(2);
                Ok(())
            },
            Instr::WaitKey { x } => {
                proof {
                    crate::model::lemma_lowest_pressed_in_range(pre.keys, 0);
                }
                match self.first_pressed_key() {
                    Some(k) => {
                        self.vreg[x as usize] = k;
                        self.pc = self.pc.wrapping_add(2);
                    },
                    None => {},
                }
                Ok(())
            },
            Instr::SetDelay { x } => {
                self.delay_timer = self.vreg[x as usize];
                self.pc = self.pc.wrapping_add(2);
                Ok(())
            },
            Instr::SetSound { x } => {
                self.sound_timer = self.vreg[x as usize];
                self.pc = self.pc.wrapping_add(2);
                Ok(())
            },
            Instr::AddIndex { x } => {
                self.ireg = self.ireg.wrapping_add(self.vreg[x as usize] as u16);
                self.vreg[15] = if self.ireg > 0xFFF {
                    1
                } else {
                    0
                };
                self.pc = self.pc.wrapping_add(2);
                Ok(())
            },
            Instr::FontIndex { x } => {
                self.ireg = (self.vreg[x as usize] as u16) * 5;
                self.pc = self.pc.wrapping_add(2);
                Ok(())
            },
            Instr::StoreBcd { x } => {
                let r = self.store_bcd(x);
                proof {
                    assert(spec_exec(pre, ins, rnd) == spec_exec(pre, ins, 0));
                }
                r
            },
            Instr::StoreRegs { x } => {
                let r = self.store_regs(x);
                proof {
                    assert(spec_exec(pre, ins, rnd) == spec_exec(pre, ins, 0));
                }
                r
            },
            Instr::LoadRegs { x } => {
                let r = self.load_regs(x);
                proof {
                    assert(spec_exec(pre, ins, rnd) == spec_exec(pre, ins, 0));
                }
                r
            },
            Instr::Unknown { .. } => {
                self.pc = self.pc.wrapping_add(2);
                Ok(())
            },
        }
    }

    /// One whole machine step at the host's chosen rate: fetch the opcode at
    /// the program counter, decode it, execute it, with the random byte
    /// drawn for it supplied by the caller. Everything the step does is
    /// pinned by the model's [`crate::model::spec_step`]; on a fault the
    /// machine does not move.
    pub fn tick_with_random(&mut self, rnd: u8) -> (r: Result<StepEvent, Fault>)
        requires
            old(self).wf(),
        ensures
            final(self).wf(),
            step_outcome(old(self)@, rnd, final(self)@, r),
    {
        let op = match self.fetch() {
            Ok(op) => op,
            Err(f) => {
                return Err(f);
            },
        };
        let ins = decode(op);
        let drew = match ins {
            Instr::Draw { .. } => true,
            _ => false,
        };
        let unknown = match ins {
            Instr::Unknown { .. } => true,
            _ => false,
        };
        match self.exec_instr(ins, rnd) {
            Ok(()) => Ok(StepEvent { opcode: op, drew, unknown }),
            Err(f) => Err(f),
        }
    }

    /// One whole machine step, drawing the random byte itself. What the
    /// machine does holds whatever byte the entropy source hands back;
    /// [`Cpu::tick_with_random`] pins the step for each particular byte.
    pub fn tick(&mut self) -> (r: Result<StepEvent, Fault>)
        requires
            old(self).wf(),
        ensures
            final(self).wf(),
            exists|rnd: u8| step_outcome(old(self)@, rnd, final(self)@, r),
    {
        let rnd = crate::rng::random_byte();
        let r = self.tick_with_random(rnd);
        proof {
            assert(step_outcome(old(self)@, rnd, self@, r));
        }
        r
    }

    /// Whether the audio sink should currently produce a tone.
    pub fn sound_active(&self) -> (r: bool)
        ensures
            r == (self@.sound > 0),
    {
        self.sound_timer > 0
    }

    /// One framebuffer cell; `x` counts from the left, `y` from the top.
    pub fn pixel(&self, x: usize, y: usize) -> (r: bool)
        requires
            self.wf(),
            x < WIDTH,
            y < HEIGHT,
        ensures
            r == self@.fb[y * WIDTH + x],
    {
        self.pixels[y * WIDTH + x]
    }
}

} // verus!
