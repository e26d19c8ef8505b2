use chip8::boot::FONT_DATA;
use chip8::cpu::CPU;
use chip8::sprite::is_bit_set;

fn fresh() -> CPU {
    CPU::new()
}

#[test]
fn new_machine_has_font_and_start_address() {
    let cpu = fresh();
    assert_eq!(cpu.pc, 0x200);
    assert_eq!(cpu.sp, 0);
    assert_eq!(cpu.i, 0);
    assert_eq!(&cpu.memory[0..80], &FONT_DATA[..]);
    assert!(cpu.memory[80..].iter().all(|b| *b == 0));
    assert!(cpu.screen.iter().all(|row| row.iter().all(|p| *p == 0)));
    assert_eq!(cpu.v, [0; 16]);
    assert_eq!(cpu.key, [false; 16]);
}

#[test]
fn load_program_places_bytes_at_0x200() {
    let mut cpu = fresh();
    cpu.load_program(&[0x12, 0x34, 0xAB]);
    assert_eq!(cpu.memory[0x200], 0x12);
    assert_eq!(cpu.memory[0x201], 0x34);
    assert_eq!(cpu.memory[0x202], 0xAB);
    assert_eq!(cpu.memory[0x203], 0);
    assert_eq!(cpu.memory[0x1ff], 0);
    assert_eq!(cpu.memory[5], FONT_DATA[5]);
}

#[test]
fn load_program_of_largest_size_fills_memory() {
    let mut cpu = fresh();
    let program = vec![0x77u8; 0xfff - 0x200];
    cpu.load_program(&program);
    assert_eq!(cpu.memory[0xffe], 0x77);
    assert_eq!(cpu.memory[0x200], 0x77);
}

#[test]
fn read_instruction_is_big_endian() {
    let mut cpu = fresh();
    cpu.memory[0x200] = 0xA2;
    cpu.memory[0x201] = 0xF0;
    assert_eq!(cpu.read_instruction(), 0xA2F0);
}

#[test]
fn is_bit_set_reads_each_bit() {
    assert!(is_bit_set(0b1000_0001, 7));
    assert!(is_bit_set(0b1000_0001, 0));
    assert!(!is_bit_set(0b1000_0001, 1));
    assert!(!is_bit_set(0, 3));
    assert!(is_bit_set(0xff, 4));
}

#[test]
fn clear_screen_blanks_and_advances() {
    let mut cpu = fresh();
    cpu.screen[3][5] = 0xff;
    cpu.clear_screen();
    assert_eq!(cpu.screen[3][5], 0);
    assert_eq!(cpu.pc, 0x202);
}

#[test]
fn call_pushes_and_return_pops() {
    let mut cpu = fresh();
    cpu.call(0x345);
    assert_eq!(cpu.pc, 0x345);
    assert_eq!(cpu.sp, 1);
    assert_eq!(cpu.stack[0], 0x202);
    cpu.return_op();
    assert_eq!(cpu.pc, 0x202);
    assert_eq!(cpu.sp, 0);
    assert_eq!(cpu.stack[0], 0x202);
}

#[test]
fn jump_and_jump_plus_v0() {
    let mut cpu = fresh();
    cpu.jump(0x456);
    assert_eq!(cpu.pc, 0x456);
    cpu.v[0] = 0x10;
    cpu.jump_plus_v0(0x300);
    assert_eq!(cpu.pc, 0x310);
    cpu.v[0] = 0xff;
    cpu.jump_plus_v0(0xfff);
    assert_eq!(cpu.pc, 0x10fe);
}

#[test]
fn skips_on_comparisons() {
    let mut cpu = fresh();
    cpu.v[3] = 7;
    cpu.v[4] = 7;
    cpu.v[5] = 8;
    cpu.check_equality(3, 7);
    assert_eq!(cpu.pc, 0x204);
    cpu.check_equality(3, 8);
    assert_eq!(cpu.pc, 0x206);
    cpu.check_inequality(3, 8);
    assert_eq!(cpu.pc, 0x20a);
    cpu.check_inequality(3, 7);
    assert_eq!(cpu.pc, 0x20c);
    cpu.check_v_equality(3, 4);
    assert_eq!(cpu.pc, 0x210);
    cpu.check_v_equality(3, 5);
    assert_eq!(cpu.pc, 0x212);
    cpu.check_v_inequality(3, 5);
    assert_eq!(cpu.pc, 0x216);
    cpu.check_v_inequality(3, 4);
    assert_eq!(cpu.pc, 0x218);
}

#[test]
fn register_loads_and_adds() {
    let mut cpu = fresh();
    cpu.set_register(2, 0xfe);
    assert_eq!(cpu.v[2], 0xfe);
    cpu.add_to_register(2, 3);
    assert_eq!(cpu.v[2], 1);
    assert_eq!(cpu.v[0xf], 0);
    assert_eq!(cpu.pc, 0x204);
    cpu.assign_register(5, 2);
    assert_eq!(cpu.v[5], 1);
}

#[test]
fn bitwise_register_ops() {
    let mut cpu = fresh();
    cpu.v[1] = 0b1100;
    cpu.v[2] = 0b1010;
    cpu.assign_register_or(1, 2);
    assert_eq!(cpu.v[1], 0b1110);
    cpu.v[1] = 0b1100;
    cpu.assign_register_and(1, 2);
    assert_eq!(cpu.v[1], 0b1000);
    cpu.v[1] = 0b1100;
    cpu.assign_register_xor(1, 2);
    assert_eq!(cpu.v[1], 0b0110);
    assert_eq!(cpu.pc, 0x206);
}

#[test]
fn add_sets_carry() {
    let mut cpu = fresh();
    cpu.v[1] = 200;
    cpu.v[2] = 100;
    cpu.assign_register_add(1, 2);
    assert_eq!(cpu.v[1], 44);
    assert_eq!(cpu.v[0xf], 1);
    // the law: result + 256 * carry == true sum
    assert_eq!(cpu.v[1] as u32 + 256 * cpu.v[0xf] as u32, 300);
    cpu.v[1] = 20;
    cpu.assign_register_add(1, 2);
    assert_eq!(cpu.v[1], 120);
    assert_eq!(cpu.v[0xf], 0);
}

#[test]
fn add_into_flag_register_keeps_the_carry() {
    let mut cpu = fresh();
    cpu.v[0xf] = 200;
    cpu.v[1] = 100;
    cpu.assign_register_add(0xf, 1);
    assert_eq!(cpu.v[0xf], 1);
}

#[test]
fn sub_sets_borrow_flag() {
    let mut cpu = fresh();
    cpu.v[1] = 5;
    cpu.v[2] = 7;
    cpu.assign_register_sub(1, 2);
    assert_eq!(cpu.v[1], 254);
    assert_eq!(cpu.v[0xf], 1);
    assert_eq!(cpu.v[1] as i32 - 256 * cpu.v[0xf] as i32, 5 - 7);
    cpu.v[1] = 9;
    cpu.assign_register_sub(1, 2);
    assert_eq!(cpu.v[1], 2);
    assert_eq!(cpu.v[0xf], 0);
}

#[test]
fn reversed_sub_sets_borrow_flag() {
    let mut cpu = fresh();
    cpu.v[1] = 7;
    cpu.v[2] = 5;
    cpu.assign_register_sub_reversed(1, 2);
    assert_eq!(cpu.v[1], 254);
    assert_eq!(cpu.v[0xf], 1);
    cpu.v[1] = 3;
    cpu.assign_register_sub_reversed(1, 2);
    assert_eq!(cpu.v[1], 2);
    assert_eq!(cpu.v[0xf], 0);
}

#[test]
fn shifts_move_the_outgoing_bit_to_flag() {
    let mut cpu = fresh();
    cpu.v[3] = 0b1000_0011;
    cpu.shift_register_right(3);
    assert_eq!(cpu.v[3], 0b0100_0001);
    assert_eq!(cpu.v[0xf], 1);
    cpu.v[3] = 0b1000_0011;
    cpu.shift_register_left(3);
    assert_eq!(cpu.v[3], 0b0000_0110);
    assert_eq!(cpu.v[0xf], 1);
    cpu.v[3] = 0b0100_0000;
    cpu.shift_register_left(3);
    assert_eq!(cpu.v[3], 0b1000_0000);
    assert_eq!(cpu.v[0xf], 0);
}

#[test]
fn shifting_the_flag_register_itself() {
    let mut cpu = fresh();
    cpu.v[0xf] = 0b11;
    cpu.shift_register_right(0xf);
    // VF first becomes the low bit (1), then is itself shifted right
    assert_eq!(cpu.v[0xf], 0);
    cpu.v[0xf] = 0x80;
    cpu.shift_register_left(0xf);
    // VF first becomes the high bit (1), then is itself shifted left
    assert_eq!(cpu.v[0xf], 2);
}

#[test]
fn index_register_ops() {
    let mut cpu = fresh();
    cpu.set_i(0x123);
    assert_eq!(cpu.i, 0x123);
    cpu.v[4] = 0x10;
    cpu.add_to_i(4);
    assert_eq!(cpu.i, 0x133);
    cpu.v[4] = 0xA;
    cpu.set_i_to_font_ptr(4);
    assert_eq!(cpu.i, 50);
    assert_eq!(&cpu.memory[50..55], &[0xF0, 0x90, 0xF0, 0x90, 0x90]);
    assert_eq!(cpu.pc, 0x206);
}

#[test]
fn and_with_masks_the_given_byte() {
    let mut cpu = fresh();
    cpu.and_with(6, 0x0f, 0xab);
    assert_eq!(cpu.v[6], 0x0b);
    assert_eq!(cpu.pc, 0x202);
}

#[test]
fn and_rand_stays_within_mask() {
    let mut cpu = fresh();
    for _ in 0..200 {
        cpu.pc = 0x200;
        cpu.and_rand(6, 0x0f);
        assert_eq!(cpu.v[6] & 0x0f, cpu.v[6]);
        assert_eq!(cpu.pc, 0x202);
        cpu.and_rand(7, 0);
        assert_eq!(cpu.v[7], 0);
    }
}

#[test]
fn dump_then_load_restores_registers() {
    let mut cpu = fresh();
    for k in 0..16 {
        cpu.v[k] = (k as u8) * 3 + 1;
    }
    cpu.i = 0x300;
    cpu.reg_dump(5);
    assert_eq!(&cpu.memory[0x300..0x306], &[1, 4, 7, 10, 13, 16]);
    assert_eq!(cpu.memory[0x306], 0);
    let saved = cpu.v;
    cpu.v = [0; 16];
    cpu.reg_load(5);
    assert_eq!(&cpu.v[0..6], &saved[0..6]);
    assert_eq!(&cpu.v[6..], &[0; 10]);
    assert_eq!(cpu.pc, 0x204);
}

#[test]
fn to_bcd_writes_three_digits() {
    let mut cpu = fresh();
    cpu.v[2] = 254;
    cpu.i = 0x400;
    cpu.to_bcd(2);
    assert_eq!(&cpu.memory[0x400..0x403], &[2, 5, 4]);
    cpu.v[2] = 7;
    cpu.to_bcd(2);
    assert_eq!(&cpu.memory[0x400..0x403], &[0, 0, 7]);
    assert_eq!(cpu.pc, 0x204);
}

#[test]
fn timers_are_set_and_read() {
    let mut cpu = fresh();
    cpu.v[1] = 60;
    cpu.set_delay_timer(1);
    assert_eq!(cpu.dt, 60);
    cpu.v[1] = 30;
    cpu.set_sound_timer(1);
    assert_eq!(cpu.st, 30);
    cpu.get_delay(9);
    assert_eq!(cpu.v[9], 60);
    assert_eq!(cpu.pc, 0x206);
}

#[test]
fn key_skips() {
    let mut cpu = fresh();
    cpu.v[1] = 4;
    cpu.key[4] = true;
    cpu.is_key_down(1);
    assert_eq!(cpu.pc, 0x204);
    cpu.is_key_up(1);
    assert_eq!(cpu.pc, 0x206);
    cpu.key[4] = false;
    cpu.is_key_down(1);
    assert_eq!(cpu.pc, 0x208);
    cpu.is_key_up(1);
    assert_eq!(cpu.pc, 0x20c);
}

#[test]
fn wait_for_key_without_keys_changes_nothing() {
    let mut cpu = fresh();
    cpu.v[3] = 9;
    cpu.wait_for_key(3);
    assert_eq!(cpu.pc, 0x200);
    assert_eq!(cpu.v[3], 9);
}

#[test]
fn wait_for_key_copies_register_of_last_pressed_key() {
    let mut cpu = fresh();
    for k in 0..16 {
        cpu.v[k] = 100 + k as u8;
    }
    cpu.key[2] = true;
    cpu.key[6] = true;
    cpu.wait_for_key(3);
    assert_eq!(cpu.v[3], 106);
    assert_eq!(cpu.pc, 0x204);
}

#[test]
fn wait_for_key_skips_its_own_register() {
    let mut cpu = fresh();
    for k in 0..16 {
        cpu.v[k] = 100 + k as u8;
    }
    cpu.key[2] = true;
    cpu.key[3] = true;
    cpu.wait_for_key(3);
    assert_eq!(cpu.v[3], 102);
    assert_eq!(cpu.pc, 0x204);
}
