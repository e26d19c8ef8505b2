//! One cycle of the interpreter: fetch, count the timers down, decode, execute.
use vstd::prelude::*;
use crate::cpu::CPU;
use crate::machine::{
    lemma_pressed_count_bound, op_n, op_nn, op_nnn, op_x, op_y, MEMORY_SIZE, NUM_KEYS, STACK_DEPTH,
};

verus! {

broadcast use vstd::array::group_array_axioms;

impl CPU {
    /// Whether `step` can run from this state: the instruction at the program counter
    /// lies in memory, is not the null word 0000, and its operands stay in bounds.
    pub fn can_step(&self) -> (ok: bool)
        ensures
            ok == self@.can_step(),
    {
        proof {
            self.lemma_wf();
        }
        if !((self.pc as usize) + 1 < MEMORY_SIZE) {
            return false;
        }
        let op_code = self.read_instruction();
        let x = ((op_code >> 8) & 0x000f) as usize;
        let y = ((op_code >> 4) & 0x000f) as usize;
        let n = (op_code & 0x000f) as u8;
        let nn = (op_code & 0x00ff) as u8;
        let nnn = op_code & 0x0fff;
        proof {
            assert(((op_code >> 8u16) & 0x000f) < 16) by (bit_vector);
            assert(((op_code >> 4u16) & 0x000f) < 16) by (bit_vector);
            assert(op_code & 0x000f <= 0x000f && op_code & 0x00ff <= 0x00ff) by (bit_vector);
        }
        assert(x == op_x(op_code) && y == op_y(op_code) && n == op_n(op_code) && nn == op_nn(
            op_code,
        ) && nnn == op_nnn(op_code));
        let family = op_code & 0xf000;
        if family == 0x0000 {
            nnn != 0x000 && (nnn != 0x0ee || (1 <= self.sp && (self.sp as usize) <= STACK_DEPTH))
        } else if family == 0x2000 {
            (self.sp as usize) < STACK_DEPTH
        } else if family == 0xd000 {
            proof {
                assert forall|r: int, c: int|
                    #![trigger self@.tick().sprite_covers(x as int, y as int, n, r, c)]
                    #![trigger self@.sprite_covers(x as int, y as int, n, r, c)]
                    self@.tick().sprite_covers(x as int, y as int, n, r, c)
                        == self@.sprite_covers(x as int, y as int, n, r, c) by {}
            }
            self.sprite_fits(x, y, n)
        } else if family == 0xe000 {
            !(nn == 0x9e || nn == 0xa1) || (self.v[x] as usize) < NUM_KEYS
        } else if family == 0xf000 {
            (nn != 0x1e || (self.i as usize) + (self.v[x] as usize) <= 0xffff)
            && (nn != 0x29 || (self.v[x] as usize) * 5 <= 0xff)
            && (nn != 0x33 || (self.i as usize) + 2 < MEMORY_SIZE)
            && (!(nn == 0x55 || nn == 0x65) || (self.i as usize) + x < MEMORY_SIZE)
        } else {
            true
        }
    }

    /// Runs one instruction. The timers count down first; CXNN draws a random byte,
    /// so the outcome is the model's step for some byte `r`.
    pub fn step(&mut self)
        requires
            old(self)@.can_step(),
        ensures
            exists|r: u8| final(self)@ == #[trigger] old(self)@.step(r),
    {
        proof {
            self.lemma_wf();
        }
        let op_code = self.read_instruction();
        let x = ((op_code >> 8) & 0x000f) as usize;
        let y = ((op_code >> 4) & 0x000f) as usize;
        let n = (op_code & 0x000f) as u8;
        let nn = (op_code & 0x00ff) as u8;
        let nnn = op_code & 0x0fff;
        proof {
            assert(((op_code >> 8u16) & 0x000f) < 16) by (bit_vector);
            assert(((op_code >> 4u16) & 0x000f) < 16) by (bit_vector);
            assert(op_code & 0x0fff <= 0x0fff) by (bit_vector);
            assert(op_code & 0x000f <= 0x000f && op_code & 0x00ff <= 0x00ff) by (bit_vector);
            assert((op_code & 0xf000) == 0x0000 || (op_code & 0xf000) == 0x1000 || (op_code
                & 0xf000) == 0x2000 || (op_code & 0xf000) == 0x3000 || (op_code & 0xf000)
                == 0x4000 || (op_code & 0xf000) == 0x5000 || (op_code & 0xf000) == 0x6000
                || (op_code & 0xf000) == 0x7000 || (op_code & 0xf000) == 0x8000 || (op_code
                & 0xf000) == 0x9000 || (op_code & 0xf000) == 0xa000 || (op_code & 0xf000)
                == 0xb000 || (op_code & 0xf000) == 0xc000 || (op_code & 0xf000) == 0xd000
                || (op_code & 0xf000) == 0xe000 || (op_code & 0xf000) == 0xf000) by (bit_vector);
        }
        assert(x == op_x(op_code) && y == op_y(op_code) && n == op_n(op_code) && nn == op_nn(
            op_code,
        ) && nnn == op_nnn(op_code));
        if self.st > 0 {
            self.st -= 1
        };
        if self.dt > 0 {
            self.dt -= 1
        };
        let ghost ticked = self@;
        assert(ticked == old(self)@.tick());
        let ghost mut r: u8 = 0;
        match op_code & 0xf000 {
            0x0000 => match op_code & 0x0fff {
                0x0e0 => self.clear_screen(),
                0x0ee => self.return_op(),
                _ => {},
            },
            0x1000 => self.jump(nnn),
            0x2000 => self.call(nnn),
            0x3000 => self.check_equality(x, nn),
            0x4000 => self.check_inequality(x, nn),
            0x5000 => self.check_v_equality(x, y),
            0x6000 => self.set_register(x, nn),
            0x7000 => self.add_to_register(x, nn),
            0x8000 => match n {
                0x0 => self.assign_register(x, y),
                0x1 => self.assign_register_or(x, y),
                0x2 => self.assign_register_and(x, y),
                0x3 => self.assign_register_xor(x, y),
                0x4 => self.assign_register_add(x, y),
                0x5 => self.assign_register_sub(x, y),
                0x6 => self.shift_register_right(x),
                0x7 => self.assign_register_sub_reversed(x, y),
                0xe => self.shift_register_left(x),
                _ => {},
            },
            0x9000 => self.check_v_inequality(x, y),
            0xa000 => self.set_i(nnn),
            0xb000 => self.jump_plus_v0(nnn),
            0xc000 => {
                self.and_rand(x, nn);
                proof {
                    r = self.v[x as int];
                }
            },
            0xd000 => self.render_sprite(x, y, n),
            0xe000 => match nn {
                0x9e => self.is_key_down(x),
                0xa1 => self.is_key_up(x),
                _ => {},
            },
            0xf000 => match nn {
                0x07 => self.get_delay(x),
                0x0A => {
                    proof {
                        lemma_pressed_count_bound(self.key@, 16);
                    }
                    self.wait_for_key(x)
                },
                0x15 => self.set_delay_timer(x),
                0x18 => self.set_sound_timer(x),
                0x1e => self.add_to_i(x),
                0x29 => self.set_i_to_font_ptr(x),
                0x33 => self.to_bcd(x),
                0x55 => self.reg_dump(x),
                0x65 => self.reg_load(x),
                _ => {},
            },
            _ => {},
        }
        assert(self@ == ticked.execute(op_code, r));
        assert(self@ == old(self)@.step(r));
    }
}

} // verus!
