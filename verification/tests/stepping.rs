use chip8::cpu::CPU;

fn with_program(program: &[u8]) -> CPU {
    let mut cpu = CPU::new();
    cpu.load_program(program);
    cpu
}

#[test]
fn step_runs_a_small_program() {
    // 6A05: VA = 5; 7A03: VA += 3; A300: I = 0x300; FA33: BCD of VA; 1208: jump to 0x208
    let mut cpu = with_program(&[0x6A, 0x05, 0x7A, 0x03, 0xA3, 0x00, 0xFA, 0x33, 0x12, 0x08]);
    for _ in 0..5 {
        assert!(cpu.can_step());
        cpu.step();
    }
    assert_eq!(cpu.v[0xA], 8);
    assert_eq!(cpu.i, 0x300);
    assert_eq!(&cpu.memory[0x300..0x303], &[0, 0, 8]);
    assert_eq!(cpu.pc, 0x208);
    cpu.step();
    assert_eq!(cpu.pc, 0x208);
}

#[test]
fn step_counts_timers_down_before_executing() {
    // F107: V1 = delay timer
    let mut cpu = with_program(&[0xF1, 0x07]);
    cpu.dt = 5;
    cpu.st = 1;
    cpu.step();
    assert_eq!(cpu.dt, 4);
    assert_eq!(cpu.st, 0);
    assert_eq!(cpu.v[1], 4);
    cpu.pc = 0x200;
    cpu.step();
    assert_eq!(cpu.st, 0);
}

#[test]
fn step_call_and_return() {
    // 2206: call 0x206; (0x202) 00E0; (0x206) 00EE
    let mut cpu = with_program(&[0x22, 0x06, 0x00, 0xE0, 0x00, 0x00, 0x00, 0xEE]);
    cpu.step();
    assert_eq!(cpu.pc, 0x206);
    assert_eq!(cpu.sp, 1);
    cpu.step();
    assert_eq!(cpu.pc, 0x202);
    assert_eq!(cpu.sp, 0);
    cpu.screen[0][0] = 0xff;
    cpu.step();
    assert_eq!(cpu.screen[0][0], 0);
    assert_eq!(cpu.pc, 0x204);
}

#[test]
fn step_draws_font_glyph() {
    // F029: I = glyph of V0; D125: draw 5 rows at (V1, V2)
    let mut cpu = with_program(&[0xF0, 0x29, 0xD1, 0x25]);
    cpu.v[0] = 1;
    cpu.v[1] = 8;
    cpu.v[2] = 4;
    cpu.step();
    assert_eq!(cpu.i, 5);
    cpu.step();
    // glyph "1" first row is 0x20: one pixel at column 8 + 2
    assert_eq!(cpu.screen[4][10], 0xff);
    assert_eq!(cpu.screen[4][8], 0);
    assert_eq!(cpu.v[0xf], 0);
    assert!(cpu.screen.iter().all(|row| row.iter().all(|p| *p == 0 || *p == 0xff)));
}

#[test]
fn step_random_stays_within_mask() {
    // C30F: V3 = random & 0x0F
    for _ in 0..50 {
        let mut cpu = with_program(&[0xC3, 0x0F]);
        cpu.step();
        assert_eq!(cpu.v[3] & 0x0f, cpu.v[3]);
        assert_eq!(cpu.pc, 0x202);
    }
}

#[test]
fn unknown_instruction_does_nothing() {
    // 8AB9 is not a known 8-family instruction; E0FF not a known E-family one
    let mut cpu = with_program(&[0x8A, 0xB9]);
    cpu.step();
    assert_eq!(cpu.pc, 0x200);
    let mut cpu = with_program(&[0xE0, 0xFF]);
    cpu.step();
    assert_eq!(cpu.pc, 0x200);
}

#[test]
fn can_step_refuses_faults() {
    let cpu = with_program(&[0x00, 0x00]);
    assert!(!cpu.can_step());
    let cpu = with_program(&[0x00, 0xEE]);
    assert!(!cpu.can_step());
    let mut cpu = with_program(&[0x22, 0x00]);
    cpu.sp = 16;
    assert!(!cpu.can_step());
    let mut cpu = with_program(&[0xE1, 0x9E]);
    cpu.v[1] = 16;
    assert!(!cpu.can_step());
    let mut cpu = with_program(&[0xF1, 0x29]);
    cpu.v[1] = 52;
    assert!(!cpu.can_step());
    cpu.v[1] = 51;
    assert!(cpu.can_step());
    let mut cpu = with_program(&[0xD1, 0x25]);
    cpu.v[2] = 28;
    assert!(!cpu.can_step());
    cpu.v[2] = 27;
    assert!(cpu.can_step());
    let mut cpu = CPU::new();
    cpu.pc = 0xffe;
    assert!(!cpu.can_step());
}
