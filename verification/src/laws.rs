//! Properties that hold across instructions and steps.
use vstd::prelude::*;
use crate::boot::{initial_machine, FONT_DATA, FONT_SIZE};
use crate::machine::{
    Machine, last_pressed_except, op_family, op_nn, op_x, op_y, pressed_count, FLAG,
    MEMORY_SIZE, NUM_KEYS, NUM_REGS, SCREEN_HEIGHT, SCREEN_WIDTH, STACK_DEPTH,
};

verus! {

/// A call followed by a return resumes right after the call, with the stack pointer
/// back where it was; only the stack slot written by the call keeps the return address.
pub proof fn lemma_call_then_return(m: Machine, nnn: u16)
    requires
        m.wf(),
        m.sp < STACK_DEPTH,
        m.pc + 2 <= u16::MAX,
    ensures
        m.call(nnn).return_op() == (Machine {
            stack: m.stack.update(m.sp as int, (m.pc + 2) as u16),
            ..m.advance(2)
        }),
{
}

/// Drawing the same sprite twice at the same place leaves the display as it was.
pub proof fn lemma_render_twice_restores_screen(m: Machine, xr: int, yr: int, height: u8)
    requires
        m.wf(),
        0 <= xr < NUM_REGS,
        0 <= yr < NUM_REGS,
        m.render_ok(xr, yr, height),
    ensures
        m.render_sprite(xr, yr, height).render_ok(xr, yr, height),
        m.render_sprite(xr, yr, height).render_sprite(xr, yr, height).screen == m.screen,
{
    let m1 = m.render_sprite(xr, yr, height);
    let m2 = m1.render_sprite(xr, yr, height);
    assert(m1.v.update(FLAG as int, 0u8) =~= m.v.update(FLAG as int, 0u8));
    assert forall|r: int, c: int|
        #[trigger] m1.sprite_covers(xr, yr, height, r, c) == m.sprite_covers(xr, yr, height, r, c) by {}
    assert forall|r: int, c: int|
        0 <= r < SCREEN_HEIGHT && 0 <= c < SCREEN_WIDTH implies #[trigger] m2.screen[r][c]
        == m.screen[r][c] by {
        assert(m1.sprite_covers(xr, yr, height, r, c) == m.sprite_covers(xr, yr, height, r, c));
        let p = m.screen[r][c];
        assert((p ^ 0xff) ^ 0xff == p) by (bit_vector);
    }
    assert(m2.screen =~~= m.screen);
}

/// Loading registers from where they were just stored gives them back unchanged.
pub proof fn lemma_dump_then_load(m: Machine, x: int)
    requires
        m.wf(),
        0 <= x < NUM_REGS,
        m.i + x < MEMORY_SIZE,
    ensures
        m.reg_dump(x).reg_load(x).v == m.v,
{
    assert(m.reg_dump(x).reg_load(x).v =~= m.v);
}

/// FX33 stores three decimal digits whose value is `VX`.
pub proof fn lemma_bcd_digits(m: Machine, x: int)
    requires
        m.wf(),
        0 <= x < NUM_REGS,
        m.i + 2 < MEMORY_SIZE,
    ensures
        ({
            let mem = m.to_bcd(x).memory;
            &&& mem[m.i as int] < 10
            &&& mem[m.i + 1] < 10
            &&& mem[m.i + 2] < 10
            &&& mem[m.i as int] * 100 + mem[m.i + 1] * 10 + mem[m.i + 2] == m.v[x]
        }),
{
    let val = m.v[x];
    assert(val / 100 < 10 && (val / 100) * 100 + ((val / 10) % 10) * 10 + val % 10 == val)
        by (bit_vector);
}

/// 8XY4 (with X not the flag): the result plus 256 times the carry is the true sum.
pub proof fn lemma_add_carry(m: Machine, x: int, y: int)
    requires
        m.wf(),
        0 <= x < NUM_REGS,
        0 <= y < NUM_REGS,
        x != FLAG,
    ensures
        ({
            let after = m.assign_register_add(x, y);
            &&& after.v[FLAG as int] <= 1
            &&& after.v[x] + 256 * after.v[FLAG as int] == m.v[x] + m.v[y]
        }),
{
}

/// 8XY5 and 8XY7 (with X not the flag): the result is the true difference plus 256
/// times the borrow.
pub proof fn lemma_sub_borrow(m: Machine, x: int, y: int)
    requires
        m.wf(),
        0 <= x < NUM_REGS,
        0 <= y < NUM_REGS,
        x != FLAG,
    ensures
        ({
            let after = m.assign_register_sub(x, y);
            &&& after.v[FLAG as int] <= 1
            &&& after.v[x] == m.v[x] - m.v[y] + 256 * after.v[FLAG as int]
        }),
        ({
            let after = m.assign_register_sub_reversed(x, y);
            &&& after.v[FLAG as int] <= 1
            &&& after.v[x] == m.v[y] - m.v[x] + 256 * after.v[FLAG as int]
        }),
{
}

proof fn lemma_no_key_counts(key: Seq<bool>, x: int, n: int)
    requires
        0 <= n <= key.len(),
        forall|k: int| 0 <= k < n ==> !key[k],
    ensures
        pressed_count(key, n) == 0,
        last_pressed_except(key, x, n) is None,
    decreases n,
{
    if n > 0 {
        lemma_no_key_counts(key, x, n - 1);
    }
}

/// FX0A with no key down changes nothing, so the instruction runs again: it waits.
pub proof fn lemma_wait_without_keys(m: Machine, x: int)
    requires
        m.wf(),
        0 <= x < NUM_REGS,
        forall|k: int| 0 <= k < NUM_KEYS ==> !m.key[k],
    ensures
        m.wait_for_key(x) == m,
{
    lemma_no_key_counts(m.key, x, NUM_KEYS as int);
    assert(m.v.update(x, m.v[x]) =~= m.v);
}

/// FX29 points `I` at the five rows of the glyph of the digit in `VX`, as stored at
/// power-on.
pub proof fn lemma_font_pointer(x: int, d: u8, k: int)
    requires
        0 <= x < NUM_REGS,
        d < 16,
        0 <= k < 5,
    ensures
        ({
            let m = initial_machine().with_reg(x, d).set_i_to_font_ptr(x);
            m.memory[m.i + k] == FONT_DATA@[5 * d + k]
        }),
{
}

/// The power-on state has the model's shape and a blank display.
pub proof fn lemma_initial_state()
    ensures
        initial_machine().wf(),
        initial_machine().pixels_binary(),
        forall|r: int, c: int|
            0 <= r < SCREEN_HEIGHT && 0 <= c < SCREEN_WIDTH ==> #[trigger] initial_machine().screen[r][c]
                == 0,
        forall|a: int| 0 <= a < FONT_SIZE ==> #[trigger] initial_machine().memory[a] == FONT_DATA@[a],
{
}

/// Executing any instruction keeps the shape of the state, and changes the timers
/// only through FX15 and FX18.
proof fn lemma_execute_frame(t: Machine, op: u16, r: u8)
    requires
        t.wf(),
        t.execute_ok(op),
    ensures
        t.execute(op, r).wf(),
        !(op_family(op) == 0xf000 && op_nn(op) == 0x15) ==> t.execute(op, r).dt == t.dt,
        !(op_family(op) == 0xf000 && op_nn(op) == 0x18) ==> t.execute(op, r).st == t.st,
        op_family(op) != 0xd000 && !(op_family(op) == 0x0000 && op & 0x0fff == 0x0e0) ==> t.execute(op, r).screen == t.screen,
{
    assert(((op >> 8u16) & 0x000f) < 16) by (bit_vector);
    assert(((op >> 4u16) & 0x000f) < 16) by (bit_vector);
    assert((op & 0xf000) == 0x0000 || (op & 0xf000) == 0x1000 || (op & 0xf000) == 0x2000 || (op
        & 0xf000) == 0x3000 || (op & 0xf000) == 0x4000 || (op & 0xf000) == 0x5000 || (op
        & 0xf000) == 0x6000 || (op & 0xf000) == 0x7000 || (op & 0xf000) == 0x8000 || (op
        & 0xf000) == 0x9000 || (op & 0xf000) == 0xa000 || (op & 0xf000) == 0xb000 || (op
        & 0xf000) == 0xc000 || (op & 0xf000) == 0xd000 || (op & 0xf000) == 0xe000 || (op
        & 0xf000) == 0xf000) by (bit_vector);
    let x = op_x(op);
    let y = op_y(op);
    let f = op_family(op);
    let e = t.execute(op, r);
    if f == 0xd000 {
        assert forall|row: int| 0 <= row < SCREEN_HEIGHT implies #[trigger] e.screen[row].len()
            == SCREEN_WIDTH by {}
    } else if f == 0x0000 {
        assert forall|row: int| 0 <= row < SCREEN_HEIGHT implies #[trigger] e.screen[row].len()
            == SCREEN_WIDTH by {}
    } else if f == 0xf000 {
        assert(e.v.len() == NUM_REGS);
        assert(e.memory.len() == MEMORY_SIZE);
    }
}

/// A step keeps the model's shape and keeps every pixel either fully off or fully on.
pub proof fn lemma_step_preserves_pixels(m: Machine, r: u8)
    requires
        m.wf(),
        m.pixels_binary(),
        m.can_step(),
    ensures
        m.step(r).wf(),
        m.step(r).pixels_binary(),
{
    let op = m.opcode();
    let t = m.tick();
    lemma_execute_frame(t, op, r);
    let s = m.step(r);
    if op_family(op) == 0xd000 {
        assert forall|row: int, c: int|
            0 <= row < SCREEN_HEIGHT && 0 <= c < SCREEN_WIDTH implies (#[trigger] s.screen[row][c]
            == 0 || s.screen[row][c] == 0xff) by {
            let p = t.screen[row][c];
            assert(p == 0 || p == 0xff);
            assert(p == 0 ==> p ^ 0xff == 0xff) by (bit_vector);
            assert(p == 0xff ==> p ^ 0xff == 0) by (bit_vector);
        }
    }
}

/// The timers count down once per step (stopping at zero), except that FX15 and
/// FX18 load the timer they name.
pub proof fn lemma_step_counts_timers_down(m: Machine, r: u8)
    requires
        m.wf(),
        m.can_step(),
    ensures
        !(op_family(m.opcode()) == 0xf000 && op_nn(m.opcode()) == 0x15) ==> m.step(r).dt == m.tick().dt,
        !(op_family(m.opcode()) == 0xf000 && op_nn(m.opcode()) == 0x18) ==> m.step(r).st == m.tick().st,
{
    lemma_execute_frame(m.tick(), m.opcode(), r);
}

} // verus!
