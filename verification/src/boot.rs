//! The state the interpreter starts in, and loading a program into memory.
use vstd::prelude::*;
use crate::cpu::CPU;
use crate::machine::{Machine, blank_screen, MEMORY_SIZE, NUM_KEYS, NUM_REGS, PROGRAM_START, STACK_DEPTH};

verus! {

broadcast use vstd::array::group_array_axioms;

/// Number of bytes of the built-in font: sixteen glyphs of five rows each.
pub const FONT_SIZE: usize = 80;

/// The glyphs of the hexadecimal digits 0 .. F, five bytes (rows) each, stored
/// from address 0. The high four bits of each row are the pixels.
pub const FONT_DATA: [u8; 80] = [
    0xF0, 0x90, 0x90, 0x90, 0xF0,  // 0
    0x20, 0x60, 0x20, 0x20, 0x70,  // 1
    0xF0, 0x10, 0xF0, 0x80, 0xF0,  // 2
    0xF0, 0x10, 0xF0, 0x10, 0xF0,  // 3
    0x90, 0x90, 0xF0, 0x10, 0x10,  // 4
    0xF0, 0x80, 0xF0, 0x10, 0xF0,  // 5
    0xF0, 0x80, 0xF0, 0x90, 0xF0,  // 6
    0xF0, 0x10, 0x20, 0x40, 0x40,  // 7
    0xF0, 0x90, 0xF0, 0x90, 0xF0,  // 8
    0xF0, 0x90, 0xF0, 0x10, 0xF0,  // 9
    0xF0, 0x90, 0xF0, 0x90, 0x90,  // A
    0xE0, 0x90, 0xE0, 0x90, 0xE0,  // B
    0xF0, 0x80, 0x80, 0x80, 0xF0,  // C
    0xE0, 0x90, 0x90, 0x90, 0xE0,  // D
    0xF0, 0x80, 0xF0, 0x80, 0xF0,  // E
    0xF0, 0x80, 0xF0, 0x80, 0x80,  // F
];

/// The state after power-on: the font at address 0, everything else zero, the display
/// blank, no key down, execution about to start at `PROGRAM_START`.
pub open spec fn initial_machine() -> Machine {
    Machine {
        v: Seq::new(NUM_REGS as nat, |k: int| 0u8),
        memory: Seq::new(
            MEMORY_SIZE as nat,
            |a: int|
                if a < FONT_SIZE {
                    FONT_DATA@[a]
                } else {
                    0u8
                },
        ),
        stack: Seq::new(STACK_DEPTH as nat, |k: int| 0u16),
        pc: PROGRAM_START,
        sp: 0,
        i: 0,
        screen: blank_screen(),
        dt: 0,
        st: 0,
        key: Seq::new(NUM_KEYS as nat, |k: int| false),
    }
}

impl Machine {
    /// The state with `program` copied into memory from `PROGRAM_START` on.
    pub open spec fn load_program(self, program: Seq<u8>) -> Machine {
        Machine {
            memory: Seq::new(
                self.memory.len(),
                |a: int|
                    if PROGRAM_START <= a < PROGRAM_START + program.len() {
                        program[a - PROGRAM_START]
                    } else {
                        self.memory[a]
                    },
            ),
            ..self
        }
    }
}

impl CPU {
    /// A powered-on interpreter with the font in place.
    pub fn new() -> (cpu: CPU)
        ensures
            cpu@ == initial_machine(),
    {
        let mut cpu = CPU {
            memory: [0x0; 0xfff],
            stack: [0; 0x10],
            v: [0; 0x10],
            pc: 0x200,
            i: 0,
            sp: 0,
            screen: [[0x0; 64]; 32],
            st: 0,
            dt: 0,
            key: [false; 0x10],
        };
        let ghost m0 = cpu@;
        proof {
            let init = initial_machine();
            assert(m0.v =~= init.v);
            assert(m0.stack =~= init.stack);
            assert(m0.key =~= init.key);
            assert(m0.screen =~~= init.screen);
        }
        let mut k: usize = 0;
        while k < FONT_SIZE
            invariant
                k <= FONT_SIZE,
                cpu@ == (Machine {
                    memory: Seq::new(
                        MEMORY_SIZE as nat,
                        |a: int|
                            if a < k {
                                FONT_DATA@[a]
                            } else {
                                0u8
                            },
                    ),
                    ..m0
                }),
                m0 == (Machine { memory: m0.memory, ..initial_machine() }),
            decreases FONT_SIZE - k,
        {
            cpu.memory[k] = FONT_DATA[k];
            k += 1;
            assert(cpu@.memory =~= Seq::new(
                MEMORY_SIZE as nat,
                |a: int|
                    if a < k {
                        FONT_DATA@[a]
                    } else {
                        0u8
                    },
            ));
        }
        assert(cpu@.memory =~= initial_machine().memory);
        cpu
    }

    /// Copies `program` into memory from `PROGRAM_START` on.
    pub fn load_program(&mut self, program: &[u8])
        requires
            PROGRAM_START + program@.len() <= MEMORY_SIZE,
        ensures
            final(self)@ == old(self)@.load_program(program@),
    {
        let ghost m0 = self@;
        proof {
            self.lemma_wf();
        }
        let mut k: usize = 0;
        while k < program.len()
            invariant
                k <= program@.len(),
                PROGRAM_START + program@.len() <= MEMORY_SIZE,
                m0.wf(),
                self@ == m0.load_program(program@.take(k as int)),
            decreases program@.len() - k,
        {
            self.memory[0x200 + k] = program[k];
            k += 1;
            assert(self@.memory =~= m0.load_program(program@.take(k as int)).memory);
        }
        assert(program@.take(k as int) =~= program@);
    }
}

} // verus!
