use chip8::cpu::CPU;
use chip8::host::{HostEvent, HostKey};

#[test]
fn sprite_draws_bits_and_reports_no_collision() {
    let mut cpu = CPU::new();
    cpu.memory[0x300] = 0b1010_0000;
    cpu.memory[0x301] = 0b0000_0001;
    cpu.i = 0x300;
    cpu.v[1] = 10;
    cpu.v[2] = 5;
    cpu.render_sprite(1, 2, 2);
    assert_eq!(cpu.screen[5][10], 0xff);
    assert_eq!(cpu.screen[5][11], 0);
    assert_eq!(cpu.screen[5][12], 0xff);
    assert_eq!(cpu.screen[6][17], 0xff);
    assert_eq!(cpu.screen[6][10], 0);
    assert_eq!(cpu.v[0xf], 0);
    assert_eq!(cpu.pc, 0x202);
}

#[test]
fn drawing_twice_erases_and_reports_collision() {
    let mut cpu = CPU::new();
    cpu.v[1] = 0;
    cpu.v[2] = 0;
    cpu.i = 0; // glyph of digit 0
    let before = cpu.screen;
    cpu.render_sprite(1, 2, 5);
    assert_eq!(cpu.screen[0][0], 0xff);
    assert_eq!(cpu.screen[1][1], 0);
    assert_eq!(cpu.v[0xf], 0);
    cpu.render_sprite(1, 2, 5);
    assert_eq!(cpu.screen, before);
    assert_eq!(cpu.v[0xf], 1);
}

#[test]
fn sprite_is_clipped_at_right_edge() {
    let mut cpu = CPU::new();
    cpu.memory[0x300] = 0xff;
    cpu.i = 0x300;
    cpu.v[1] = 60;
    cpu.v[2] = 0;
    cpu.render_sprite(1, 2, 1);
    for c in 60..64 {
        assert_eq!(cpu.screen[0][c], 0xff);
    }
    assert_eq!(cpu.screen[1][0], 0);
    assert_eq!(cpu.screen[0][0], 0);
}

#[test]
fn sprite_coordinates_read_after_flag_cleared() {
    let mut cpu = CPU::new();
    cpu.memory[0x300] = 0x80;
    cpu.i = 0x300;
    cpu.v[0xf] = 7;
    cpu.v[1] = 3;
    cpu.render_sprite(1, 0xf, 1);
    assert_eq!(cpu.screen[0][3], 0xff);
    assert_eq!(cpu.screen[7][3], 0);
}

#[test]
fn zero_height_sprite_only_clears_flag() {
    let mut cpu = CPU::new();
    cpu.v[0xf] = 1;
    cpu.v[1] = 250;
    cpu.v[2] = 200;
    cpu.render_sprite(1, 2, 0);
    assert_eq!(cpu.v[0xf], 0);
    assert_eq!(cpu.pc, 0x202);
}

#[test]
fn paint_rects_lists_lit_pixels_in_order() {
    let mut cpu = CPU::new();
    assert!(cpu.paint_rects().is_empty());
    cpu.screen[0][5] = 0xff;
    cpu.screen[2][1] = 0xff;
    cpu.screen[0][63] = 1;
    let rects = cpu.paint_rects();
    assert_eq!(rects, vec![(50, 0, 10, 10), (630, 0, 10, 10), (10, 20, 10, 10)]);
}

#[test]
fn host_events_press_and_release_pad_keys() {
    let mut cpu = CPU::new();
    assert!(cpu.handle_event(HostEvent::KeyDown(HostKey::Up)));
    assert!(cpu.key[2]);
    assert!(cpu.handle_event(HostEvent::KeyDown(HostKey::Left)));
    assert!(cpu.handle_event(HostEvent::KeyDown(HostKey::Right)));
    assert!(cpu.handle_event(HostEvent::KeyDown(HostKey::Down)));
    assert!(cpu.key[4] && cpu.key[6] && cpu.key[8]);
    assert!(cpu.handle_event(HostEvent::KeyUp(HostKey::Up)));
    assert!(!cpu.key[2]);
    assert!(cpu.handle_event(HostEvent::KeyDown(HostKey::Other)));
    assert!(cpu.handle_event(HostEvent::Other));
    assert!(cpu.handle_event(HostEvent::KeyUp(HostKey::Escape)));
    assert_eq!(cpu.key.iter().filter(|k| **k).count(), 3);
}

#[test]
fn host_events_that_end_the_session() {
    let mut cpu = CPU::new();
    assert!(!cpu.handle_event(HostEvent::Quit));
    assert!(!cpu.handle_event(HostEvent::KeyDown(HostKey::Escape)));
}

#[test]
fn blank_rows_below_the_display_are_allowed() {
    let mut cpu = CPU::new();
    cpu.memory[0x300] = 0x80;
    cpu.i = 0x300;
    cpu.v[1] = 2;
    cpu.v[2] = 31;
    assert!(cpu.sprite_fits(1, 2, 4));
    cpu.render_sprite(1, 2, 4);
    assert_eq!(cpu.screen[31][2], 0xff);
    assert_eq!(cpu.v[0xf], 0);
    cpu.memory[0x301] = 0x80;
    assert!(!cpu.sprite_fits(1, 2, 4));
    cpu.v[1] = 249;
    cpu.memory[0x301] = 0;
    assert!(!cpu.sprite_fits(1, 2, 4));
    cpu.i = 0xffd;
    cpu.v[1] = 0;
    assert!(!cpu.sprite_fits(1, 2, 3));
}
