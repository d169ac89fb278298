//! General laws of the machine, each proved from the model alone: they hold
//! of every state the engine can be in, because every engine operation is
//! proved to follow the model.

use vstd::prelude::*;

verus! {

use crate::consts::{FB_SIZE, HEIGHT, WIDTH};
use crate::model::{Fault, Instr, MachineState, advance, blank_fb, draw_collision, draw_fb,
    lowest_pressed, spec_decode, spec_draw, spec_exec, spec_fetch, spec_step,
    spec_update_timers, sprite_covers, sprite_row_bit, state_wf};

/// Adding register y into register x stores the 8-bit wrapped sum and sets
/// register F to 1 exactly when the unwrapped sum overflows eight bits. The
/// flag lands after the sum, so when x is register F itself only the flag
/// remains.
pub proof fn lemma_add_sets_carry(s: MachineState, x: u8, y: u8, rnd: u8)
    requires
        state_wf(s),
        x < 16,
        y < 16,
    ensures
        spec_exec(s, Instr::Add { x, y }, rnd) is Ok,
        ({
            let a = s.v[x as int];
            let b = s.v[y as int];
            let s2 = spec_exec(s, Instr::Add { x, y }, rnd).unwrap();
            &&& s2.v[15] == (if a + b >= 256 { 1u8 } else { 0u8 })
            &&& x != 15 ==> s2.v[x as int] == (a + b) % 256
        }),
{
}

/// Subtracting register y from register x stores the 8-bit wrapped
/// difference and sets register F to 0 exactly when a borrow occurred, that
/// is, when y held more than x; else to 1. As with the sum, the flag lands
/// after the difference.
pub proof fn lemma_sub_sets_borrow(s: MachineState, x: u8, y: u8, rnd: u8)
    requires
        state_wf(s),
        x < 16,
        y < 16,
    ensures
        spec_exec(s, Instr::Sub { x, y }, rnd) is Ok,
        ({
            let a = s.v[x as int];
            let b = s.v[y as int];
            let s2 = spec_exec(s, Instr::Sub { x, y }, rnd).unwrap();
            &&& s2.v[15] == (if b > a { 0u8 } else { 1u8 })
            &&& x != 15 ==> s2.v[x as int] == (a - b) % 256
        }),
{
}

/// True if every framebuffer cell is off.
pub open spec fn fb_all_off(fb: Seq<bool>) -> bool {
    forall|idx: int| 0 <= idx < fb.len() ==> !fb[idx]
}

/// Clearing the screen leaves every cell off.
pub proof fn lemma_cls_clears(s: MachineState, rnd: u8)
    ensures
        spec_exec(s, Instr::Cls, rnd) is Ok,
        fb_all_off(spec_exec(s, Instr::Cls, rnd).unwrap().fb),
{
}

/// The machine after running one step for each byte of `rnds`, stopping at
/// the first fault (a faulting step leaves the machine unchanged).
pub open spec fn spec_run(s: MachineState, rnds: Seq<u8>) -> MachineState
    decreases rnds.len(),
{
    if rnds.len() == 0 {
        s
    } else {
        match spec_step(s, rnds[0]) {
            Ok(s2) => spec_run(s2, rnds.skip(1)),
            Err(_) => s,
        }
    }
}

/// True if no step of the run fetches a draw instruction: every executed
/// opcode, up to the first fault, decodes to something other than a draw.
pub open spec fn run_avoids_draws(s: MachineState, rnds: Seq<u8>) -> bool
    decreases rnds.len(),
{
    if rnds.len() == 0 {
        true
    } else {
        match spec_fetch(s) {
            Ok(op) => !(spec_decode(op) is Draw) && match spec_step(s, rnds[0]) {
                Ok(s2) => run_avoids_draws(s2, rnds.skip(1)),
                Err(_) => true,
            },
            Err(_) => true,
        }
    }
}

/// No instruction but a draw can light a framebuffer cell: it either leaves
/// the framebuffer alone or clears it.
proof fn lemma_non_draw_keeps_fb_off(s: MachineState, ins: Instr, rnd: u8)
    requires
        !(ins is Draw),
        fb_all_off(s.fb),
    ensures
        match spec_exec(s, ins, rnd) {
            Ok(s2) => fb_all_off(s2.fb),
            Err(_) => true,
        },
{
    match spec_exec(s, ins, rnd) {
        Ok(s2) => {
            assert(s2.fb == s.fb || s2.fb == blank_fb());
        },
        Err(_) => {},
    }
}

/// A cleared screen stays cleared under any sequence of non-drawing
/// instructions: running from an all-off framebuffer through steps none of
/// which fetches a draw leaves every cell off.
pub proof fn lemma_clear_screen_stays_clear(s: MachineState, rnds: Seq<u8>)
    requires
        fb_all_off(s.fb),
        run_avoids_draws(s, rnds),
    ensures
        fb_all_off(spec_run(s, rnds).fb),
    decreases rnds.len(),
{
    if rnds.len() > 0 {
        match spec_fetch(s) {
            Ok(op) => {
                match spec_step(s, rnds[0]) {
                    Ok(s2) => {
                        lemma_non_draw_keeps_fb_off(s, spec_decode(op), rnds[0]);
                        lemma_clear_screen_stays_clear(s2, rnds.skip(1));
                    },
                    Err(_) => {},
                }
            },
            Err(_) => {},
        }
    }
}

/// Drawing the same sprite at the same spot twice in a row undoes itself:
/// XOR-compositing is its own inverse, so the framebuffer returns to its
/// pre-draw state, and register F afterwards reflects exactly the second
/// draw's collisions against what the first draw left. The coordinate
/// registers must not be register F itself, which the first draw overwrites.
pub proof fn lemma_draw_twice_restores(s: MachineState, x: u8, y: u8, n: u8)
    requires
        state_wf(s),
        x < 16,
        y < 16,
        n < 16,
        x != 15,
        y != 15,
        spec_draw(s, x, y, n) is Ok,
    ensures
        ({
            let s1 = spec_draw(s, x, y, n).unwrap();
            let rows = if n == 0 {
                Seq::<u8>::empty()
            } else {
                s.mem.subrange(s.i as int, s.i + n)
            };
            &&& spec_draw(s1, x, y, n) is Ok
            &&& spec_draw(s1, x, y, n).unwrap().fb =~= s.fb
            &&& spec_draw(s1, x, y, n).unwrap().v[15] == (if draw_collision(
                s1.fb,
                rows,
                s.v[x as int] as int,
                s.v[y as int] as int,
            ) {
                1u8
            } else {
                0u8
            })
        }),
{
    let s1 = spec_draw(s, x, y, n).unwrap();
    let rows = if n == 0 {
        Seq::<u8>::empty()
    } else {
        s.mem.subrange(s.i as int, s.i + n)
    };
    let x0 = s.v[x as int] as int;
    let y0 = s.v[y as int] as int;
    assert(s1.v[x as int] == s.v[x as int]);
    assert(s1.v[y as int] == s.v[y as int]);
    assert(spec_draw(s1, x, y, n).unwrap().fb =~= s.fb);
}

/// Sprite columns wrap: a sprite drawn at the rightmost column writes its
/// second column (bit 1 of each row) at column 0, on the row each sprite
/// row wraps to.
pub proof fn lemma_sprite_wraps(fb: Seq<bool>, rows: Seq<u8>, y0: int, r: int)
    requires
        fb.len() == FB_SIZE,
        rows.len() < 16,
        0 <= y0 < 256,
        0 <= r < rows.len(),
    ensures
        ({
            let cy = (y0 + r) % (HEIGHT as int);
            draw_fb(fb, rows, (WIDTH - 1) as int, y0)[cy * (WIDTH as int)] == (fb[cy * (
            WIDTH as int)] != sprite_row_bit(rows[r], 1))
        }),
{
    let x0 = (WIDTH - 1) as int;
    let cy = (y0 + r) % (HEIGHT as int);
    let idx = cy * (WIDTH as int);
    assert(idx % (WIDTH as int) == 0 && idx / (WIDTH as int) == cy) by (nonlinear_arith)
        requires
            0 <= cy < 32,
            idx == cy * 64,
            WIDTH == 64,
    ;
    if sprite_covers(rows, x0, y0, 0, cy) {
        let (r2, c2) = choose|r2: int, c2: int|
            0 <= r2 < rows.len() && 0 <= c2 < 8 && sprite_row_bit(rows[r2], c2) && (x0 + c2) % (
            WIDTH as int) == 0 && (y0 + r2) % (HEIGHT as int) == cy;
        assert(c2 == 1) by (nonlinear_arith)
            requires
                0 <= c2 < 8,
                (63 + c2) % 64 == 0,
        ;
        if r2 != r {
            if r2 < r {
                crate::model::lemma_mod_distinct_lt_32((y0 + r2) as u16, (y0 + r) as u16);
            } else {
                crate::model::lemma_mod_distinct_lt_32((y0 + r) as u16, (y0 + r2) as u16);
            }
        }
        assert(sprite_row_bit(rows[r], 1));
    }
    if sprite_row_bit(rows[r], 1) {
        assert((x0 + 1) % (WIDTH as int) == 0) by (nonlinear_arith)
            requires
                x0 == 63,
        ;
        assert(sprite_covers(rows, x0, y0, 0, cy));
    }
}

/// A call followed by its return puts the program counter exactly one
/// instruction past the call, for every stack depth the machine allows: the
/// call pushes, the return pops, and nothing else of the machine differs.
pub proof fn lemma_call_then_return(s: MachineState, nnn: u16, rnd1: u8, rnd2: u8)
    requires
        state_wf(s),
        nnn < 0x1000,
        s.sp < 16,
        s.pc + 2 <= 0xFFFF,
    ensures
        spec_exec(s, Instr::Call { nnn }, rnd1) is Ok,
        ({
            let s1 = spec_exec(s, Instr::Call { nnn }, rnd1).unwrap();
            &&& s1.pc == nnn
            &&& s1.sp == s.sp + 1
            &&& spec_exec(s1, Instr::Ret, rnd2) is Ok
            &&& spec_exec(s1, Instr::Ret, rnd2).unwrap() == (MachineState {
                stack: s.stack.update(s.sp as int, s.pc),
                pc: (s.pc + 2) as u16,
                ..s
            })
        }),
{
}

/// Waiting for a key holds the machine still while no key is down — the
/// program counter does not move, so the same instruction runs again next
/// tick — and, the moment one is, stores the lowest-indexed pressed key in
/// register x and moves past the instruction, on that tick alone.
pub proof fn lemma_wait_key(s: MachineState, x: u8, rnd: u8)
    requires
        state_wf(s),
        x < 16,
    ensures
        lowest_pressed(s.keys, 0) is None ==> spec_exec(s, Instr::WaitKey { x }, rnd) == Ok::<
            MachineState,
            Fault,
        >(s),
        lowest_pressed(s.keys, 0) matches Some(k) ==> spec_exec(s, Instr::WaitKey { x }, rnd)
            == Ok::<MachineState, Fault>(
            advance(MachineState { v: s.v.update(x as int, k), ..s }),
        ),
{
}

/// The machine after its timers advance once for each delta in `dts`.
pub open spec fn spec_run_timers(s: MachineState, dts: Seq<u32>) -> MachineState
    decreases dts.len(),
{
    if dts.len() == 0 {
        s
    } else {
        spec_run_timers(spec_update_timers(s, dts[0]), dts.skip(1))
    }
}

/// Half-period deltas drain a timer exactly: a delay timer holding `c`, with
/// at most half a period of phase left (as at power-on or right after the
/// timer is set), reaches zero under `2 * c` steps of half a period each —
/// so a timer at five ends at zero when five sixtieths of a second arrive as
/// ten steps of 1/120 s.
pub proof fn lemma_half_period_steps_drain_timer(s: MachineState, dts: Seq<u32>)
    requires
        s.delay > 0 ==> s.delay_phase <= 30,
        dts.len() == 2 * s.delay,
        forall|k: int| 0 <= k < dts.len() ==> dts[k] == 30,
    ensures
        spec_run_timers(s, dts).delay == 0,
    decreases s.delay,
{
    if s.delay > 0 {
        let s1 = spec_update_timers(s, dts[0]);
        let rest = dts.skip(1);
        let s2 = spec_update_timers(s1, rest[0]);
        let rest2 = rest.skip(1);
        assert(rest[0] == dts[1]);
        assert(s1.delay == s.delay - 1 && s1.delay_phase == 60);
        assert(s2.delay == s.delay - 1);
        assert(s2.delay > 0 ==> s2.delay_phase == 30);
        assert(forall|k: int| 0 <= k < rest2.len() ==> rest2[k] == dts[k + 2] && dts[k + 2] == 30);
        lemma_half_period_steps_drain_timer(s2, rest2);
        assert(spec_run_timers(s, dts) == spec_run_timers(s1, rest));
        assert(spec_run_timers(s1, rest) == spec_run_timers(s2, rest2));
    }
}

/// The key the wait reports really is the lowest-indexed pressed one: it is
/// pressed, and every key below it is not. When none is reported, no key at
/// all is pressed.
pub proof fn lemma_lowest_pressed_is_first(keys: Seq<bool>, from: int)
    requires
        keys.len() <= 256,
        0 <= from,
    ensures
        lowest_pressed(keys, from) matches Some(k) ==> from <= k < keys.len() && keys[k as int]
            && forall|j: int| from <= j < k ==> !keys[j],
        lowest_pressed(keys, from) is None ==> forall|j: int| from <= j < keys.len() ==> !keys[j],
    decreases keys.len() - from,
{
    if from < keys.len() && !keys[from] {
        lemma_lowest_pressed_is_first(keys, from + 1);
    }
}

} // verus!
