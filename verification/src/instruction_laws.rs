//! What each instruction does, stated over the state before and after in plain
//! arithmetic and bit terms, independently of how the model computes it.
use vstd::prelude::*;
use crate::display::{pixel_lit, row_rects, screen_rects};
use crate::boot::{initial_machine, FONT_DATA, FONT_SIZE};
use crate::host::{after_event, ends_session, HostEvent, HostKey};
use crate::machine::{Machine, bit_set, op_family, op_n, op_nn, op_nnn, op_x, op_y, last_pressed_except, pressed_count, FLAG, MEMORY_SIZE, NUM_KEYS, NUM_REGS, SCREEN_HEIGHT, SCREEN_WIDTH, STACK_DEPTH};

verus! {

/// Bit `b` (0 is the least significant) of `val`.
pub open spec fn bit(val: u8, b: u8) -> bool {
    (val >> b) & 1u8 == 1u8
}

/// Only the registers and the program counter may differ between `a` and `b`.
pub open spec fn same_but_regs_and_pc(a: Machine, b: Machine) -> bool {
    &&& b.v.len() == a.v.len()
    &&& b.memory == a.memory
    &&& b.stack == a.stack
    &&& b.sp == a.sp
    &&& b.i == a.i
    &&& b.screen == a.screen
    &&& b.dt == a.dt
    &&& b.st == a.st
    &&& b.key == a.key
}

/// Registers other than `x` and `f` keep their values.
pub open spec fn other_regs_kept(a: Machine, b: Machine, x: int, f: int) -> bool {
    forall|k: int| 0 <= k < NUM_REGS && k != x && k != f ==> #[trigger] b.v[k] == a.v[k]
}

/// The word at the program counter is the byte there times 256 plus the next byte.
pub proof fn lemma_opcode_big_endian(m: Machine)
    requires
        m.wf(),
        m.pc + 1 < MEMORY_SIZE,
    ensures
        m.opcode() == m.memory[m.pc as int] * 256 + m.memory[m.pc + 1],
{
    let a = m.memory[m.pc as int];
    let b = m.memory[m.pc + 1];
    assert(((a as u16) << 8u16) | (b as u16) == a * 256 + b) by (bit_vector);
}

/// The conditional skips move the program counter by 4 exactly when their condition
/// holds, by 2 otherwise, and change nothing else.
pub proof fn lemma_skips(m: Machine, x: int, y: int, nn: u8)
    requires
        m.wf(),
        0 <= x < NUM_REGS,
        0 <= y < NUM_REGS,
        m.pc + 4 <= u16::MAX,
    ensures
        m.check_equality(x, nn) == (Machine {
            pc: (m.pc + if m.v[x] == nn { 4int } else { 2int }) as u16,
            ..m
        }),
        m.check_inequality(x, nn) == (Machine {
            pc: (m.pc + if m.v[x] != nn { 4int } else { 2int }) as u16,
            ..m
        }),
        m.check_v_equality(x, y) == (Machine {
            pc: (m.pc + if m.v[x] == m.v[y] { 4int } else { 2int }) as u16,
            ..m
        }),
        m.check_v_inequality(x, y) == (Machine {
            pc: (m.pc + if m.v[x] != m.v[y] { 4int } else { 2int }) as u16,
            ..m
        }),
        m.v[x] < NUM_KEYS ==> m.is_key_down(x) == (Machine {
            pc: (m.pc + if m.key[m.v[x] as int] { 4int } else { 2int }) as u16,
            ..m
        }),
        m.v[x] < NUM_KEYS ==> m.is_key_up(x) == (Machine {
            pc: (m.pc + if m.key[m.v[x] as int] { 2int } else { 4int }) as u16,
            ..m
        }),
{
}

/// Loads, copies and 8-bit additions into `VX`: the other registers and the rest of
/// the state stay, the program counter moves on by 2.
pub proof fn lemma_register_moves(m: Machine, x: int, y: int, nn: u8, r: u8)
    requires
        m.wf(),
        0 <= x < NUM_REGS,
        0 <= y < NUM_REGS,
        m.pc + 2 <= u16::MAX,
    ensures
        ({
            let a = m.set_register(x, nn);
            &&& a.v[x] == nn && other_regs_kept(m, a, x, x)
            &&& same_but_regs_and_pc(m, a) && a.pc == m.pc + 2
        }),
        ({
            let a = m.add_to_register(x, nn);
            &&& (a.v[x] == m.v[x] + nn || a.v[x] == m.v[x] + nn - 256)
            &&& other_regs_kept(m, a, x, x)
            &&& same_but_regs_and_pc(m, a) && a.pc == m.pc + 2
        }),
        ({
            let a = m.assign_register(x, y);
            &&& a.v[x] == m.v[y] && other_regs_kept(m, a, x, x)
            &&& same_but_regs_and_pc(m, a) && a.pc == m.pc + 2
        }),
        ({
            let a = m.get_delay(x);
            &&& a.v[x] == m.dt && other_regs_kept(m, a, x, x)
            &&& same_but_regs_and_pc(m, a) && a.pc == m.pc + 2
        }),
        ({
            let a = m.and_with(x, nn, r);
            &&& forall|b: u8| b < 8 ==> #[trigger] bit(a.v[x], b) == (bit(nn, b) && bit(r, b))
            &&& other_regs_kept(m, a, x, x)
            &&& same_but_regs_and_pc(m, a) && a.pc == m.pc + 2
        }),
{
    let vx = m.v[x];
    assert((vx + nn) % 256 == vx + nn || (vx + nn) % 256 == vx + nn - 256);
    let res = nn & r;
    assert(forall|b: u8| b < 8 ==> ((res >> b) & 1u8 == 1u8) == (((nn >> b) & 1u8 == 1u8) && ((r
        >> b) & 1u8 == 1u8))) by (bit_vector)
        requires
            res == nn & r,
    ;
}

/// The bitwise instructions combine `VX` and `VY` bit by bit.
pub proof fn lemma_bitwise(m: Machine, x: int, y: int)
    requires
        m.wf(),
        0 <= x < NUM_REGS,
        0 <= y < NUM_REGS,
        m.pc + 2 <= u16::MAX,
    ensures
        ({
            let a = m.assign_register_or(x, y);
            &&& forall|b: u8| b < 8 ==> #[trigger] bit(a.v[x], b) == (bit(m.v[x], b) || bit(m.v[y], b))
            &&& other_regs_kept(m, a, x, x)
            &&& same_but_regs_and_pc(m, a) && a.pc == m.pc + 2
        }),
        ({
            let a = m.assign_register_and(x, y);
            &&& forall|b: u8| b < 8 ==> #[trigger] bit(a.v[x], b) == (bit(m.v[x], b) && bit(m.v[y], b))
            &&& other_regs_kept(m, a, x, x)
            &&& same_but_regs_and_pc(m, a) && a.pc == m.pc + 2
        }),
        ({
            let a = m.assign_register_xor(x, y);
            &&& forall|b: u8| b < 8 ==> #[trigger] bit(a.v[x], b) == (bit(m.v[x], b) != bit(m.v[y], b))
            &&& other_regs_kept(m, a, x, x)
            &&& same_but_regs_and_pc(m, a) && a.pc == m.pc + 2
        }),
{
    let p = m.v[x];
    let q = m.v[y];
    let o = p | q;
    let n = p & q;
    let e = p ^ q;
    assert(forall|b: u8| b < 8 ==> ((o >> b) & 1u8 == 1u8) == (((p >> b) & 1u8 == 1u8) || ((q
        >> b) & 1u8 == 1u8))) by (bit_vector)
        requires
            o == p | q,
    ;
    assert(forall|b: u8| b < 8 ==> ((n >> b) & 1u8 == 1u8) == (((p >> b) & 1u8 == 1u8) && ((q
        >> b) & 1u8 == 1u8))) by (bit_vector)
        requires
            n == p & q,
    ;
    assert(forall|b: u8| b < 8 ==> ((e >> b) & 1u8 == 1u8) == (((p >> b) & 1u8 == 1u8) != ((q
        >> b) & 1u8 == 1u8))) by (bit_vector)
        requires
            e == p ^ q,
    ;
}

/// 8XY6 and 8XYE (X not the flag): the bit shifted out lands in `VF`. Shifting right,
/// twice the new `VX` plus `VF` is the old `VX`; shifting left, the new `VX` plus 256
/// times `VF` is twice the old `VX`. When X is the flag itself, the shift applies to
/// the bit just stored there.
pub proof fn lemma_shifts(m: Machine, x: int)
    requires
        m.wf(),
        0 <= x < NUM_REGS,
        m.pc + 2 <= u16::MAX,
    ensures
        ({
            let a = m.shift_register_right(x);
            &&& x != FLAG ==> a.v[FLAG as int] <= 1 && 2 * a.v[x] + a.v[FLAG as int] == m.v[x]
            &&& x == FLAG ==> a.v[FLAG as int] == 0
            &&& other_regs_kept(m, a, x, FLAG as int)
            &&& same_but_regs_and_pc(m, a) && a.pc == m.pc + 2
        }),
        ({
            let a = m.shift_register_left(x);
            &&& x != FLAG ==> a.v[FLAG as int] <= 1 && a.v[x] + 256 * a.v[FLAG as int] == 2 * m.v[x]
            &&& x == FLAG ==> a.v[FLAG as int] == 2 * (m.v[x] / 128)
            &&& other_regs_kept(m, a, x, FLAG as int)
            &&& same_but_regs_and_pc(m, a) && a.pc == m.pc + 2
        }),
{
}

/// 8XY4, 8XY5, 8XY7 leave every register but `VX` and `VF`, and the rest of the state.
pub proof fn lemma_arithmetic_frame(m: Machine, x: int, y: int)
    requires
        m.wf(),
        0 <= x < NUM_REGS,
        0 <= y < NUM_REGS,
        m.pc + 2 <= u16::MAX,
    ensures
        ({
            let a = m.assign_register_add(x, y);
            other_regs_kept(m, a, x, FLAG as int) && same_but_regs_and_pc(m, a) && a.pc == m.pc + 2
        }),
        ({
            let a = m.assign_register_sub(x, y);
            other_regs_kept(m, a, x, FLAG as int) && same_but_regs_and_pc(m, a) && a.pc == m.pc + 2
        }),
        ({
            let a = m.assign_register_sub_reversed(x, y);
            other_regs_kept(m, a, x, FLAG as int) && same_but_regs_and_pc(m, a) && a.pc == m.pc + 2
        }),
{
}

/// FX55 writes `V0` ..= `VX` to `I` ..= `I + X` and nothing else; FX65 reads every
/// `Vk` (k <= X) from `I + k`, whatever it held before, and keeps the rest.
pub proof fn lemma_store_load(m: Machine, x: int)
    requires
        m.wf(),
        0 <= x < NUM_REGS,
        m.i + x < MEMORY_SIZE,
        m.pc + 2 <= u16::MAX,
    ensures
        ({
            let a = m.reg_dump(x);
            &&& a.memory.len() == MEMORY_SIZE
            &&& forall|k: int| 0 <= k <= x ==> #[trigger] a.memory[m.i + k] == m.v[k]
            &&& forall|addr: int|
                0 <= addr < MEMORY_SIZE && !(m.i <= addr <= m.i + x) ==> #[trigger] a.memory[addr]
                    == m.memory[addr]
            &&& a.v == m.v && a.stack == m.stack && a.sp == m.sp && a.i == m.i
            &&& a.screen == m.screen && a.dt == m.dt && a.st == m.st && a.key == m.key
            &&& a.pc == m.pc + 2
        }),
        ({
            let a = m.reg_load(x);
            &&& a.v.len() == NUM_REGS
            &&& forall|k: int| 0 <= k <= x ==> #[trigger] a.v[k] == m.memory[m.i + k]
            &&& forall|k: int| x < k < NUM_REGS ==> #[trigger] a.v[k] == m.v[k]
            &&& same_but_regs_and_pc(m, a) && a.pc == m.pc + 2
        }),
{
}

/// FX33 writes exactly the three digit bytes.
pub proof fn lemma_bcd_frame(m: Machine, x: int)
    requires
        m.wf(),
        0 <= x < NUM_REGS,
        m.i + 2 < MEMORY_SIZE,
        m.pc + 2 <= u16::MAX,
    ensures
        ({
            let a = m.to_bcd(x);
            &&& a.memory.len() == MEMORY_SIZE
            &&& forall|addr: int|
                0 <= addr < MEMORY_SIZE && !(m.i <= addr <= m.i + 2) ==> #[trigger] a.memory[addr]
                    == m.memory[addr]
            &&& a.v == m.v && a.i == m.i && a.screen == m.screen && a.pc == m.pc + 2
        }),
{
}

/// The address register, timer and control-flow instructions, each in full: what it
/// sets, and that nothing else changes.
pub proof fn lemma_index_timer_flow(m: Machine, x: int, nnn: u16)
    requires
        m.wf(),
        0 <= x < NUM_REGS,
        m.pc + 2 <= u16::MAX,
    ensures
        m.set_i(nnn) == (Machine { i: nnn, pc: (m.pc + 2) as u16, ..m }),
        m.i + m.v[x] <= u16::MAX ==> m.add_to_i(x) == (Machine {
            i: (m.i + m.v[x]) as u16,
            pc: (m.pc + 2) as u16,
            ..m
        }),
        m.v[x] * 5 <= u8::MAX ==> m.set_i_to_font_ptr(x) == (Machine {
            i: (5 * m.v[x]) as u16,
            pc: (m.pc + 2) as u16,
            ..m
        }),
        m.set_delay_timer(x) == (Machine { dt: m.v[x], pc: (m.pc + 2) as u16, ..m }),
        m.set_sound_timer(x) == (Machine { st: m.v[x], pc: (m.pc + 2) as u16, ..m }),
        m.jump(nnn) == (Machine { pc: nnn, ..m }),
        nnn + m.v[0] <= u16::MAX ==> m.jump_plus_v0(nnn) == (Machine { pc: (nnn + m.v[0]) as u16, ..m }),
        m.sp < STACK_DEPTH ==> ({
            let a = m.call(nnn);
            &&& a.pc == nnn && a.sp == m.sp + 1
            &&& a.stack.len() == STACK_DEPTH
            &&& a.stack[m.sp as int] == m.pc + 2
            &&& forall|k: int| 0 <= k < STACK_DEPTH && k != m.sp ==> #[trigger] a.stack[k] == m.stack[k]
            &&& a.v == m.v && a.memory == m.memory && a.screen == m.screen && a.i == m.i
            &&& a.dt == m.dt && a.st == m.st && a.key == m.key
        }),
        1 <= m.sp <= STACK_DEPTH ==> m.return_op() == (Machine {
            pc: m.stack[m.sp - 1],
            sp: (m.sp - 1) as u16,
            ..m
        }),
{
}

/// 00E0 turns every pixel off and changes nothing else.
pub proof fn lemma_clear(m: Machine)
    requires
        m.wf(),
        m.pc + 2 <= u16::MAX,
    ensures
        ({
            let a = m.clear_screen();
            &&& a.wf()
            &&& forall|r: int, c: int|
                0 <= r < SCREEN_HEIGHT && 0 <= c < SCREEN_WIDTH ==> #[trigger] a.screen[r][c] == 0
            &&& a.v == m.v && a.memory == m.memory && a.i == m.i && a.pc == m.pc + 2
        }),
{
}


/// How many keys of the keypad are down.
pub open spec fn keys_down(key: Seq<bool>) -> int {
    (if key[0] { 1int } else { 0int }) + (if key[1] { 1int } else { 0int }) + (if key[2] { 1int } else { 0int })
        + (if key[3] { 1int } else { 0int }) + (if key[4] { 1int } else { 0int }) + (if key[5] { 1int } else { 0int })
        + (if key[6] { 1int } else { 0int }) + (if key[7] { 1int } else { 0int }) + (if key[8] { 1int } else { 0int })
        + (if key[9] { 1int } else { 0int }) + (if key[10] { 1int } else { 0int }) + (if key[11] { 1int } else { 0int })
        + (if key[12] { 1int } else { 0int }) + (if key[13] { 1int } else { 0int }) + (if key[14] { 1int } else { 0int })
        + (if key[15] { 1int } else { 0int })
}

proof fn lemma_last_pressed_is(key: Seq<bool>, x: int, j: int, n: int)
    requires
        0 <= j < n <= key.len(),
        key[j],
        j != x,
        forall|k: int| j < k < n && k != x ==> !#[trigger] key[k],
    ensures
        last_pressed_except(key, x, n) == Some(j),
    decreases n,
{
    if n - 1 > j {
        lemma_last_pressed_is(key, x, j, n - 1);
    }
}

proof fn lemma_none_pressed_except(key: Seq<bool>, x: int, n: int)
    requires
        0 <= n <= key.len(),
        forall|k: int| 0 <= k < n && k != x ==> !#[trigger] key[k],
    ensures
        last_pressed_except(key, x, n) is None,
    decreases n,
{
    if n > 0 {
        lemma_none_pressed_except(key, x, n - 1);
    }
}

/// FX0A: the program counter moves on by 2 for every key that is down (so with none
/// down the instruction runs again); `VX` takes the value of `Vj` for the highest key
/// `j` other than X that is down, and keeps its value when there is none.
pub proof fn lemma_wait_for_key(m: Machine, x: int)
    requires
        m.wf(),
        0 <= x < NUM_REGS,
        m.pc + 2 * NUM_KEYS <= u16::MAX,
    ensures
        ({
            let a = m.wait_for_key(x);
            &&& a.pc == m.pc + 2 * keys_down(m.key)
            &&& forall|j: int|
                0 <= j < NUM_KEYS && j != x && #[trigger] m.key[j] && (forall|k: int|
                    j < k < NUM_KEYS && k != x ==> !#[trigger] m.key[k]) ==> a.v[x] == m.v[j]
            &&& (forall|k: int| 0 <= k < NUM_KEYS && k != x ==> !#[trigger] m.key[k]) ==> a.v[x]
                == m.v[x]
            &&& other_regs_kept(m, a, x, x)
            &&& same_but_regs_and_pc(m, a)
        }),
{
    reveal_with_fuel(pressed_count, 17);
    assert(pressed_count(m.key, NUM_KEYS as int) == keys_down(m.key));
    assert forall|j: int|
        0 <= j < NUM_KEYS && j != x && #[trigger] m.key[j] && (forall|k: int|
            j < k < NUM_KEYS && k != x ==> !#[trigger] m.key[k]) implies m.wait_for_key(x).v[x] == m.v[j] by {
        lemma_last_pressed_is(m.key, x, j, NUM_KEYS as int);
    }
    if forall|k: int| 0 <= k < NUM_KEYS && k != x ==> !#[trigger] m.key[k] {
        lemma_none_pressed_except(m.key, x, NUM_KEYS as int);
    }
}

/// DXYN: with `sx`, `sy` the coordinates (`VX`, `VY`, read as 0 when the register is
/// `VF`), a pixel flips exactly when it lies in the sprite's box and its bit in the
/// sprite's row byte is set; every other pixel keeps its value. `VF` becomes 1 exactly
/// when some pixel that was 0xff is now 0, else 0.
pub proof fn lemma_render(m: Machine, xr: int, yr: int, height: u8)
    requires
        m.wf(),
        0 <= xr < NUM_REGS,
        0 <= yr < NUM_REGS,
        m.render_ok(xr, yr, height),
        m.pc + 2 <= u16::MAX,
    ensures
        ({
            let a = m.render_sprite(xr, yr, height);
            let sx: int = if xr == FLAG { 0 } else { m.v[xr] as int };
            let sy: int = if yr == FLAG { 0 } else { m.v[yr] as int };
            &&& a.wf()
            &&& forall|r: int, c: int|
                0 <= r < SCREEN_HEIGHT && 0 <= c < SCREEN_WIDTH ==> #[trigger] a.screen[r][c] == if sy
                    <= r < sy + height && sx <= c < sx + 8 && bit(
                    m.memory[m.i + (r - sy)],
                    (7 - (c - sx)) as u8,
                ) {
                    m.screen[r][c] ^ 0xff
                } else {
                    m.screen[r][c]
                }
            &&& a.v[FLAG as int] <= 1
            &&& (a.v[FLAG as int] == 1 <==> exists|r: int, c: int|
                0 <= r < SCREEN_HEIGHT && 0 <= c < SCREEN_WIDTH && m.screen[r][c] == 0xff
                    && #[trigger] a.screen[r][c] == 0)
            &&& other_regs_kept(m, a, FLAG as int, FLAG as int)
            &&& a.memory == m.memory && a.i == m.i && a.stack == m.stack && a.sp == m.sp
            &&& a.key == m.key && a.dt == m.dt && a.st == m.st && a.pc == m.pc + 2
        }),
{
    let a = m.render_sprite(xr, yr, height);
    assert forall|r: int, c: int| 0 <= r < SCREEN_HEIGHT && 0 <= c < SCREEN_WIDTH implies
        (m.screen[r][c] == 0xff && #[trigger] a.screen[r][c] == 0) == (m.sprite_covers(xr, yr, height, r, c)
        && m.screen[r][c] == 0xff) by {
        let p = m.screen[r][c];
        assert(p == 0xff ==> p ^ 0xff == 0) by (bit_vector);
    }
    if m.sprite_collides(xr, yr, height) {
        let (r, c) = choose|r: int, c: int|
            0 <= r < SCREEN_HEIGHT && 0 <= c < SCREEN_WIDTH && #[trigger] m.sprite_covers(
                xr,
                yr,
                height,
                r,
                c,
            ) && m.screen[r][c] == 0xff;
        assert(m.screen[r][c] == 0xff && a.screen[r][c] == 0);
    }
    if exists|r: int, c: int|
        0 <= r < SCREEN_HEIGHT && 0 <= c < SCREEN_WIDTH && m.screen[r][c] == 0xff
            && #[trigger] a.screen[r][c] == 0 {
        let (r, c) = choose|r: int, c: int|
            0 <= r < SCREEN_HEIGHT && 0 <= c < SCREEN_WIDTH && m.screen[r][c] == 0xff
                && #[trigger] a.screen[r][c] == 0;
        assert(m.sprite_covers(xr, yr, height, r, c));
    }
}


/// Decoding: one step counts the timers down (stopping at zero) and then runs the
/// instruction named by the two bytes `hi`, `lo` at the program counter, its operands
/// taken from the nibbles and bytes of those two: X is the low nibble of `hi`, Y the
/// high nibble of `lo`, N the low nibble of `lo`, NN is `lo` and NNN the low twelve
/// bits. Words no instruction matches change nothing but the timers.
pub proof fn lemma_step_decodes(m: Machine, r: u8)
    requires
        m.wf(),
        m.can_step(),
    ensures
        ({
            let hi = m.memory[m.pc as int];
            let lo = m.memory[m.pc + 1];
            let t = m.tick();
            let x = (hi % 16) as int;
            let y = (lo / 16) as int;
            let n = (lo % 16) as u8;
            let nnn = ((hi % 16) * 256 + lo) as u16;
            let s = m.step(r);
            &&& t == (Machine {
                dt: if m.dt > 0 { (m.dt - 1) as u8 } else { 0u8 },
                st: if m.st > 0 { (m.st - 1) as u8 } else { 0u8 },
                ..m
            })
            &&& hi == 0x00 && lo == 0xe0 ==> s == t.clear_screen()
            &&& hi == 0x00 && lo == 0xee ==> s == t.return_op()
            &&& hi / 16 == 0x0 && !(hi == 0x00 && (lo == 0xe0 || lo == 0xee)) ==> s == t
            &&& hi / 16 == 0x1 ==> s == t.jump(nnn)
            &&& hi / 16 == 0x2 ==> s == t.call(nnn)
            &&& hi / 16 == 0x3 ==> s == t.check_equality(x, lo)
            &&& hi / 16 == 0x4 ==> s == t.check_inequality(x, lo)
            &&& hi / 16 == 0x5 ==> s == t.check_v_equality(x, y)
            &&& hi / 16 == 0x6 ==> s == t.set_register(x, lo)
            &&& hi / 16 == 0x7 ==> s == t.add_to_register(x, lo)
            &&& hi / 16 == 0x8 && n == 0x0 ==> s == t.assign_register(x, y)
            &&& hi / 16 == 0x8 && n == 0x1 ==> s == t.assign_register_or(x, y)
            &&& hi / 16 == 0x8 && n == 0x2 ==> s == t.assign_register_and(x, y)
            &&& hi / 16 == 0x8 && n == 0x3 ==> s == t.assign_register_xor(x, y)
            &&& hi / 16 == 0x8 && n == 0x4 ==> s == t.assign_register_add(x, y)
            &&& hi / 16 == 0x8 && n == 0x5 ==> s == t.assign_register_sub(x, y)
            &&& hi / 16 == 0x8 && n == 0x6 ==> s == t.shift_register_right(x)
            &&& hi / 16 == 0x8 && n == 0x7 ==> s == t.assign_register_sub_reversed(x, y)
            &&& hi / 16 == 0x8 && n == 0xe ==> s == t.shift_register_left(x)
            &&& hi / 16 == 0x8 && 0x8 <= n <= 0xd ==> s == t
            &&& hi / 16 == 0x8 && n == 0xf ==> s == t
            &&& hi / 16 == 0x9 ==> s == t.check_v_inequality(x, y)
            &&& hi / 16 == 0xa ==> s == t.set_i(nnn)
            &&& hi / 16 == 0xb ==> s == t.jump_plus_v0(nnn)
            &&& hi / 16 == 0xc ==> s == t.and_with(x, lo, r)
            &&& hi / 16 == 0xd ==> s == t.render_sprite(x, y, n)
            &&& hi / 16 == 0xe && lo == 0x9e ==> s == (Machine {
                pc: (m.pc + if m.key[m.v[x] as int] { 4int } else { 2int }) as u16,
                ..t
            })
            &&& hi / 16 == 0xe && lo == 0xa1 ==> s == (Machine {
                pc: (m.pc + if m.key[m.v[x] as int] { 2int } else { 4int }) as u16,
                ..t
            })
            &&& hi / 16 == 0xe && lo != 0x9e && lo != 0xa1 ==> s == t
            &&& hi / 16 == 0xf && lo == 0x07 ==> s == t.get_delay(x)
            &&& hi / 16 == 0xf && lo == 0x0a ==> s == t.wait_for_key(x)
            &&& hi / 16 == 0xf && lo == 0x15 ==> s == t.set_delay_timer(x)
            &&& hi / 16 == 0xf && lo == 0x18 ==> s == t.set_sound_timer(x)
            &&& hi / 16 == 0xf && lo == 0x1e ==> s == t.add_to_i(x)
            &&& hi / 16 == 0xf && lo == 0x29 ==> s == t.set_i_to_font_ptr(x)
            &&& hi / 16 == 0xf && lo == 0x33 ==> s == t.to_bcd(x)
            &&& hi / 16 == 0xf && lo == 0x55 ==> s == t.reg_dump(x)
            &&& hi / 16 == 0xf && lo == 0x65 ==> s == t.reg_load(x)
            &&& hi / 16 == 0xf && !(lo == 0x07 || lo == 0x0a || lo == 0x15 || lo == 0x18 || lo
                == 0x1e || lo == 0x29 || lo == 0x33 || lo == 0x55 || lo == 0x65) ==> s == t
        }),
{
    let a = m.memory[m.pc as int];
    let b = m.memory[m.pc + 1];
    let op = m.opcode();
    assert(op == ((a as u16) << 8u16) | (b as u16));
    assert(((((a as u16) << 8u16) | (b as u16)) & 0xf000u16) == ((a / 16) as u16) * 4096u16
        && ((((a as u16) << 8u16) | (b as u16)) >> 8u16) & 0x000fu16 == (a % 16) as u16
        && ((((a as u16) << 8u16) | (b as u16)) >> 4u16) & 0x000fu16 == (b / 16) as u16
        && (((a as u16) << 8u16) | (b as u16)) & 0x000fu16 == (b % 16) as u16
        && (((a as u16) << 8u16) | (b as u16)) & 0x00ffu16 == b as u16
        && (((a as u16) << 8u16) | (b as u16)) & 0x0fffu16 == ((a % 16) as u16) * 256u16 + (b as u16))
        by (bit_vector);
    assert(op_family(op) == (a / 16) * 4096);
    assert(op_x(op) == a % 16);
    assert(op_y(op) == b / 16);
    assert(op_n(op) == b % 16);
    assert(op_nn(op) == b);
    assert(op_nnn(op) == (a % 16) * 256 + b);
}


/// The square drawn for the pixel at row `r`, column `c`: ten window pixels a side.
pub open spec fn square_at(r: int, c: int) -> (i32, i32, u32, u32) {
    ((10 * c) as i32, (10 * r) as i32, 10u32, 10u32)
}

/// Whether `rect` is the square of a lit pixel of `screen`.
pub open spec fn lit_square(screen: Seq<Seq<u8>>, rect: (i32, i32, u32, u32)) -> bool {
    &&& 0 <= rect.1 / 10 < SCREEN_HEIGHT
    &&& 0 <= rect.0 / 10 < SCREEN_WIDTH
    &&& rect == square_at(rect.1 / 10, rect.0 / 10)
    &&& screen[rect.1 / 10][rect.0 / 10] > 0
}

/// Position of a square in row-major order.
pub open spec fn square_rank(rect: (i32, i32, u32, u32)) -> int {
    (rect.1 / 10) * SCREEN_WIDTH + rect.0 / 10
}

proof fn lemma_row_squares(screen: Seq<Seq<u8>>, y: int, n: int)
    requires
        0 <= y < SCREEN_HEIGHT,
        0 <= n <= SCREEN_WIDTH,
    ensures
        forall|k: int| 0 <= k < row_rects(screen, y, n).len() ==> #[trigger] lit_square(screen, row_rects(screen, y, n)[k])
            && row_rects(screen, y, n)[k].1 / 10 == y && row_rects(screen, y, n)[k].0 / 10 < n,
        forall|j: int, k: int| 0 <= j < k < row_rects(screen, y, n).len() ==> square_rank(#[trigger] row_rects(screen, y, n)[j])
            < square_rank(#[trigger] row_rects(screen, y, n)[k]),
        forall|c: int| 0 <= c < n && screen[y][c] > 0 ==> #[trigger] row_rects(screen, y, n).contains(square_at(y, c)),
    decreases n,
{
    if n > 0 {
        lemma_row_squares(screen, y, n - 1);
        let prev = row_rects(screen, y, n - 1);
        let rr = row_rects(screen, y, n);
        let sq = square_at(y, n - 1);
        assert(sq.1 / 10 == y && sq.0 / 10 == n - 1);
        assert(pixel_lit(screen, y, n - 1) == (screen[y][n - 1] > 0));
        if pixel_lit(screen, y, n - 1) {
            assert(rr == prev.push(sq));
            assert(lit_square(screen, sq));
            assert forall|k: int| 0 <= k < rr.len() implies #[trigger] lit_square(screen, rr[k])
                && rr[k].1 / 10 == y && rr[k].0 / 10 < n by {
                if k < prev.len() {
                    assert(rr[k] == prev[k]);
                }
            }
            assert forall|j: int, k: int| 0 <= j < k < rr.len() implies square_rank(#[trigger] rr[j])
                < square_rank(#[trigger] rr[k]) by {
                assert(rr[j] == prev[j]);
                if k < prev.len() {
                    assert(rr[k] == prev[k]);
                } else {
                    assert(lit_square(screen, prev[j]));
                }
            }
            assert forall|c: int| 0 <= c < n && screen[y][c] > 0 implies #[trigger] rr.contains(square_at(y, c)) by {
                if c < n - 1 {
                    assert(prev.contains(square_at(y, c)));
                    let k = choose|k: int| 0 <= k < prev.len() && prev[k] == square_at(y, c);
                    assert(rr[k] == square_at(y, c));
                } else {
                    assert(rr[rr.len() - 1] == sq);
                }
            }
        } else {
            assert(rr == prev);
            assert forall|c: int| 0 <= c < n && screen[y][c] > 0 implies #[trigger] rr.contains(square_at(y, c)) by {
                assert(prev.contains(square_at(y, c)));
            }
        }
    }
}

proof fn lemma_screen_squares(screen: Seq<Seq<u8>>, n: int)
    requires
        0 <= n <= SCREEN_HEIGHT,
    ensures
        forall|k: int| 0 <= k < screen_rects(screen, n).len() ==> #[trigger] lit_square(screen, screen_rects(screen, n)[k])
            && screen_rects(screen, n)[k].1 / 10 < n,
        forall|j: int, k: int| 0 <= j < k < screen_rects(screen, n).len() ==> square_rank(#[trigger] screen_rects(screen, n)[j])
            < square_rank(#[trigger] screen_rects(screen, n)[k]),
        forall|r: int, c: int|
            0 <= r < n && 0 <= c < SCREEN_WIDTH && screen[r][c] > 0 ==> #[trigger] screen_rects(screen, n).contains(
                square_at(r, c),
            ),
    decreases n,
{
    if n > 0 {
        lemma_screen_squares(screen, n - 1);
        lemma_row_squares(screen, n - 1, SCREEN_WIDTH as int);
        let prev = screen_rects(screen, n - 1);
        let row = row_rects(screen, n - 1, SCREEN_WIDTH as int);
        let sr = screen_rects(screen, n);
        assert(sr == prev + row);
        assert forall|k: int| 0 <= k < sr.len() implies #[trigger] lit_square(screen, sr[k]) && sr[k].1 / 10 < n by {
            if k < prev.len() {
                assert(sr[k] == prev[k]);
            } else {
                assert(sr[k] == row[k - prev.len()]);
            }
        }
        assert forall|j: int, k: int| 0 <= j < k < sr.len() implies square_rank(#[trigger] sr[j])
            < square_rank(#[trigger] sr[k]) by {
            if k < prev.len() {
                assert(sr[j] == prev[j] && sr[k] == prev[k]);
            } else if j >= prev.len() {
                assert(sr[j] == row[j - prev.len()] && sr[k] == row[k - prev.len()]);
            } else {
                assert(sr[j] == prev[j] && sr[k] == row[k - prev.len()]);
                assert(lit_square(screen, prev[j]));
                assert(lit_square(screen, row[k - prev.len()]));
            }
        }
        assert forall|r: int, c: int|
            0 <= r < n && 0 <= c < SCREEN_WIDTH && screen[r][c] > 0 implies #[trigger] sr.contains(
                square_at(r, c),
            ) by {
            if r < n - 1 {
                assert(prev.contains(square_at(r, c)));
                let k = choose|k: int| 0 <= k < prev.len() && prev[k] == square_at(r, c);
                assert(sr[k] == square_at(r, c));
            } else {
                assert(row.contains(square_at(r, c)));
                let k = choose|k: int| 0 <= k < row.len() && row[k] == square_at(r, c);
                assert(sr[prev.len() + k] == square_at(r, c));
            }
        }
    }
}

/// What the window shows: the list holds the square of every lit pixel, only squares of
/// lit pixels, each once, in row-major order (so its length is the number of lit pixels).
pub proof fn lemma_paint_squares(screen: Seq<Seq<u8>>)
    ensures
        ({
            let sr = screen_rects(screen, SCREEN_HEIGHT as int);
            &&& forall|k: int| 0 <= k < sr.len() ==> #[trigger] lit_square(screen, sr[k])
            &&& forall|j: int, k: int| 0 <= j < k < sr.len() ==> square_rank(#[trigger] sr[j])
                < square_rank(#[trigger] sr[k])
            &&& forall|r: int, c: int|
                0 <= r < SCREEN_HEIGHT && 0 <= c < SCREEN_WIDTH && screen[r][c] > 0
                    ==> #[trigger] sr.contains(square_at(r, c))
        }),
{
    lemma_screen_squares(screen, SCREEN_HEIGHT as int);
}


/// `bit_set` is the binary digit: bit `b` of `byte` is the remainder of `byte` divided
/// by 2 to the `b`, taken modulo 2.
pub proof fn lemma_bit_set_is_binary_digit(byte: u8)
    ensures
        bit_set(byte, 0) == (byte % 2 == 1),
        bit_set(byte, 1) == ((byte / 2) % 2 == 1),
        bit_set(byte, 2) == ((byte / 4) % 2 == 1),
        bit_set(byte, 3) == ((byte / 8) % 2 == 1),
        bit_set(byte, 4) == ((byte / 16) % 2 == 1),
        bit_set(byte, 5) == ((byte / 32) % 2 == 1),
        bit_set(byte, 6) == ((byte / 64) % 2 == 1),
        bit_set(byte, 7) == ((byte / 128) % 2 == 1),
{
    assert(((byte >> 0u8) & 1u8 == 1u8) == (byte % 2 == 1)) by (bit_vector);
    assert(((byte >> 1u8) & 1u8 == 1u8) == ((byte / 2) % 2 == 1)) by (bit_vector);
    assert(((byte >> 2u8) & 1u8 == 1u8) == ((byte / 4) % 2 == 1)) by (bit_vector);
    assert(((byte >> 3u8) & 1u8 == 1u8) == ((byte / 8) % 2 == 1)) by (bit_vector);
    assert(((byte >> 4u8) & 1u8 == 1u8) == ((byte / 16) % 2 == 1)) by (bit_vector);
    assert(((byte >> 5u8) & 1u8 == 1u8) == ((byte / 32) % 2 == 1)) by (bit_vector);
    assert(((byte >> 6u8) & 1u8 == 1u8) == ((byte / 64) % 2 == 1)) by (bit_vector);
    assert(((byte >> 7u8) & 1u8 == 1u8) == ((byte / 128) % 2 == 1)) by (bit_vector);
}

/// Power-on: registers, stack, stack pointer, `I` and timers are zero, no key is down,
/// the display is blank, execution starts at 0x200, and memory holds the font at
/// 0 .. 80 and zeros after it.
pub proof fn lemma_power_on()
    ensures
        ({
            let m = initial_machine();
            &&& m.wf()
            &&& m.pc == 0x200 && m.sp == 0 && m.i == 0 && m.dt == 0 && m.st == 0
            &&& forall|k: int| 0 <= k < NUM_REGS ==> #[trigger] m.v[k] == 0
            &&& forall|k: int| 0 <= k < STACK_DEPTH ==> #[trigger] m.stack[k] == 0
            &&& forall|k: int| 0 <= k < NUM_KEYS ==> !#[trigger] m.key[k]
            &&& forall|r: int, c: int|
                0 <= r < SCREEN_HEIGHT && 0 <= c < SCREEN_WIDTH ==> #[trigger] m.screen[r][c] == 0
            &&& forall|a: int| 0 <= a < FONT_SIZE ==> #[trigger] m.memory[a] == FONT_DATA@[a]
            &&& forall|a: int| FONT_SIZE <= a < MEMORY_SIZE ==> #[trigger] m.memory[a] == 0
        }),
{
}

/// Loading a program puts its `k`-th byte at 0x200 + k and changes nothing else.
pub proof fn lemma_load_program(m: Machine, program: Seq<u8>)
    requires
        m.wf(),
        0x200 + program.len() <= MEMORY_SIZE,
    ensures
        ({
            let a = m.load_program(program);
            &&& a.memory.len() == MEMORY_SIZE
            &&& forall|k: int| 0 <= k < program.len() ==> #[trigger] a.memory[0x200 + k] == program[k]
            &&& forall|addr: int|
                0 <= addr < MEMORY_SIZE && !(0x200 <= addr < 0x200 + program.len()) ==> #[trigger] a.memory[addr]
                    == m.memory[addr]
            &&& a.v == m.v && a.pc == m.pc && a.i == m.i && a.screen == m.screen && a.key == m.key
            &&& a.stack == m.stack && a.sp == m.sp && a.dt == m.dt && a.st == m.st
        }),
{
}

/// Host events: the arrow keys Up, Left, Right, Down press (and on release free)
/// keypad keys 2, 4, 6, 8; no other event touches the state; the session ends on
/// closing the window or pressing Escape, and on nothing else.
pub proof fn lemma_host_events(m: Machine)
    requires
        m.wf(),
    ensures
        after_event(m, HostEvent::KeyDown(HostKey::Up)) == (Machine { key: m.key.update(2, true), ..m }),
        after_event(m, HostEvent::KeyDown(HostKey::Left)) == (Machine { key: m.key.update(4, true), ..m }),
        after_event(m, HostEvent::KeyDown(HostKey::Right)) == (Machine { key: m.key.update(6, true), ..m }),
        after_event(m, HostEvent::KeyDown(HostKey::Down)) == (Machine { key: m.key.update(8, true), ..m }),
        after_event(m, HostEvent::KeyUp(HostKey::Up)) == (Machine { key: m.key.update(2, false), ..m }),
        after_event(m, HostEvent::KeyUp(HostKey::Left)) == (Machine { key: m.key.update(4, false), ..m }),
        after_event(m, HostEvent::KeyUp(HostKey::Right)) == (Machine { key: m.key.update(6, false), ..m }),
        after_event(m, HostEvent::KeyUp(HostKey::Down)) == (Machine { key: m.key.update(8, false), ..m }),
        after_event(m, HostEvent::KeyDown(HostKey::Escape)) == m,
        after_event(m, HostEvent::KeyUp(HostKey::Escape)) == m,
        after_event(m, HostEvent::KeyDown(HostKey::Other)) == m,
        after_event(m, HostEvent::KeyUp(HostKey::Other)) == m,
        after_event(m, HostEvent::Quit) == m,
        after_event(m, HostEvent::Other) == m,
        forall|e: HostEvent|
            #[trigger] ends_session(e) <==> (e == HostEvent::Quit || e == HostEvent::KeyDown(HostKey::Escape)),
{
}

/// When a step can run, in plain terms: the two instruction bytes lie in memory, the
/// word is not 0000, a return has an address on the stack, a call has room on it, a
/// key test names a key, FX1E does not overflow `I`, FX29 names a digit whose glyph
/// address fits a byte, FX33 / FX55 / FX65 stay in memory, and a sprite's rows lie in
/// memory with no set, visible bit below the display.
pub proof fn lemma_can_step_plain(m: Machine)
    requires
        m.wf(),
        m.pc + 1 < MEMORY_SIZE,
    ensures
        ({
            let hi = m.memory[m.pc as int];
            let lo = m.memory[m.pc + 1];
            let x = (hi % 16) as int;
            let y = (lo / 16) as int;
            let h = lo % 16;
            let sx: int = if x == FLAG { 0 } else { m.v[x] as int };
            let sy: int = if y == FLAG { 0 } else { m.v[y] as int };
            m.can_step() <==> if hi / 16 == 0x0 {
                &&& !(hi == 0 && lo == 0)
                &&& (hi == 0 && lo == 0xee) ==> 1 <= m.sp <= STACK_DEPTH
            } else if hi / 16 == 0x2 {
                m.sp < STACK_DEPTH
            } else if hi / 16 == 0xd {
                &&& m.i + h <= MEMORY_SIZE
                &&& h > 0 ==> sy + h - 1 <= 255 && sx + 7 <= 255
                &&& forall|row: int, col: int|
                    0 <= row < h && 0 <= col < 8 && sx + col < SCREEN_WIDTH && #[trigger] bit(
                        m.memory[m.i + row],
                        (7 - col) as u8,
                    ) ==> sy + row < SCREEN_HEIGHT
            } else if hi / 16 == 0xe {
                (lo == 0x9e || lo == 0xa1) ==> m.v[x] < NUM_KEYS
            } else if hi / 16 == 0xf {
                &&& lo == 0x1e ==> m.i + m.v[x] <= u16::MAX
                &&& lo == 0x29 ==> 5 * m.v[x] <= u8::MAX
                &&& lo == 0x33 ==> m.i + 2 < MEMORY_SIZE
                &&& (lo == 0x55 || lo == 0x65) ==> m.i + x < MEMORY_SIZE
            } else {
                true
            }
        }),
{
    let a = m.memory[m.pc as int];
    let b = m.memory[m.pc + 1];
    let op = m.opcode();
    assert(((((a as u16) << 8u16) | (b as u16)) & 0xf000u16) == ((a / 16) as u16) * 4096u16
        && ((((a as u16) << 8u16) | (b as u16)) >> 8u16) & 0x000fu16 == (a % 16) as u16
        && ((((a as u16) << 8u16) | (b as u16)) >> 4u16) & 0x000fu16 == (b / 16) as u16
        && (((a as u16) << 8u16) | (b as u16)) & 0x000fu16 == (b % 16) as u16
        && (((a as u16) << 8u16) | (b as u16)) & 0x00ffu16 == b as u16
        && (((a as u16) << 8u16) | (b as u16)) & 0x0fffu16 == ((a % 16) as u16) * 256u16 + (b as u16))
        by (bit_vector);
    let t = m.tick();
    let xr = (a % 16) as int;
    let yr = (b / 16) as int;
    let h = (b % 16) as u8;
    if a / 16 == 0xd {
        let v0 = t.v.update(FLAG as int, 0u8);
        assert(v0[xr] == (if xr == FLAG { 0 } else { m.v[xr] as int }));
        assert(v0[yr] == (if yr == FLAG { 0 } else { m.v[yr] as int }));
        let sx = v0[xr] as int;
        let sy = v0[yr] as int;
        let plain = forall|row: int, col: int|
            0 <= row < h && 0 <= col < 8 && sx + col < SCREEN_WIDTH && #[trigger] bit(
                m.memory[m.i + row],
                (7 - col) as u8,
            ) ==> sy + row < SCREEN_HEIGHT;
        let modeled = forall|r: int, c: int| #[trigger] t.sprite_covers(xr, yr, h, r, c) ==> r < SCREEN_HEIGHT;
        if plain {
            assert forall|r: int, c: int| #[trigger] t.sprite_covers(xr, yr, h, r, c) implies r < SCREEN_HEIGHT by {
                assert(bit(m.memory[m.i + (r - sy)], (7 - (c - sx)) as u8));
            }
        }
        if modeled {
            assert forall|row: int, col: int|
                0 <= row < h && 0 <= col < 8 && sx + col < SCREEN_WIDTH && #[trigger] bit(
                    m.memory[m.i + row],
                    (7 - col) as u8,
                ) implies sy + row < SCREEN_HEIGHT by {
                assert(t.sprite_covers(xr, yr, h, sy + row, sx + col));
            }
        }
    }
}

} // verus!
