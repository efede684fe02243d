use chip8_core::cpu::CPU;
use chip8_core::machine::State;
use chip8_core::peripherals::MemoryPeripherals;
use chip8_core::quirks::Quirks;

fn setup_with(quirks: Quirks, program: &[u8]) -> (CPU, MemoryPeripherals) {
    let mut io = MemoryPeripherals::new();
    for (k, &b) in program.iter().enumerate() {
        io.ram_bytes[0x200 + k] = b;
    }
    (CPU::new(quirks), io)
}

fn no_wait() -> Quirks {
    Quirks { video_wait: false, ..Quirks::default() }
}

#[test]
fn draw_places_sprite_with_leftmost_pixel_at_bit_zero() {
    let (mut cpu, mut io) = setup_with(no_wait(), &[
        0xa3, 0x00, // ptr = 0x300
        0x60, 0x00, // reg0 = x = 0
        0x61, 0x00, // reg1 = y = 0
        0xd0, 0x11, // draw 1 row at (reg0, reg1)
    ]);
    io.ram_bytes[0x300] = 0b1000_0001; // leftmost and rightmost sprite pixel
    for _ in 0..4 {
        cpu.exec(&mut io).unwrap();
    }
    // leftmost sprite pixel (bit 7 of the byte) lands on screen bit 0
    assert_eq!(io.pixel_rows[0], (1u64 << 0) | (1u64 << 7));
    assert_eq!(cpu.regs[15], 0); // nothing collided on an empty screen
}

#[test]
fn clipped_draw_at_x60_loses_the_rightmost_four_columns() {
    let (mut cpu, mut io) = setup_with(no_wait(), &[
        0xa3, 0x00, // ptr = 0x300
        0x60, 0x3c, // reg0 = x = 60
        0x61, 0x02, // reg1 = y = 2
        0xd0, 0x11, // draw 1 row
    ]);
    io.ram_bytes[0x300] = 0xff;
    for _ in 0..4 {
        cpu.exec(&mut io).unwrap();
    }
    assert_eq!(io.pixel_rows[2], 0xf000_0000_0000_0000);
    assert_eq!(io.pixel_rows[3], 0);
}

#[test]
fn wrapping_draw_at_x60_wraps_into_columns_zero_to_three() {
    let quirks = Quirks { video_wait: false, clip_sprites: false, ..Quirks::default() };
    let (mut cpu, mut io) = setup_with(quirks, &[
        0xa3, 0x00, // ptr = 0x300
        0x60, 0x3c, // reg0 = x = 60
        0x61, 0x02, // reg1 = y = 2
        0xd0, 0x11, // draw 1 row
    ]);
    io.ram_bytes[0x300] = 0xff;
    for _ in 0..4 {
        cpu.exec(&mut io).unwrap();
    }
    assert_eq!(io.pixel_rows[2], 0xf000_0000_0000_000f);
}

#[test]
fn wrapping_draw_at_x60_order_of_wrapped_columns() {
    let quirks = Quirks { video_wait: false, clip_sprites: false, ..Quirks::default() };
    let (mut cpu, mut io) = setup_with(quirks, &[
        0xa3, 0x00, // ptr = 0x300
        0x60, 0x3c, // reg0 = x = 60
        0x61, 0x00, // reg1 = y = 0
        0xd0, 0x11, // draw 1 row
    ]);
    io.ram_bytes[0x300] = 0xaa; // alternating, starting with a lit pixel
    for _ in 0..4 {
        cpu.exec(&mut io).unwrap();
    }
    assert_eq!(io.pixel_rows[0], 0x5000_0000_0000_0005);
}

#[test]
fn clipped_draw_stops_at_the_bottom_edge() {
    let (mut cpu, mut io) = setup_with(no_wait(), &[
        0xa3, 0x00, // ptr = 0x300
        0x60, 0x00, // reg0 = x = 0
        0x61, 0x1e, // reg1 = y = 30
        0xd0, 0x14, // draw 4 rows: 30, 31 drawn; 32, 33 clipped away
    ]);
    for k in 0..4 {
        io.ram_bytes[0x300 + k] = 0xff;
    }
    for _ in 0..4 {
        cpu.exec(&mut io).unwrap();
    }
    assert_eq!(io.pixel_rows[30], 0xff);
    assert_eq!(io.pixel_rows[31], 0xff);
    assert_eq!(io.pixel_rows[0], 0);
    assert_eq!(io.pixel_rows[1], 0);
}

#[test]
fn wrapping_draw_continues_at_the_top_edge() {
    let quirks = Quirks { video_wait: false, clip_sprites: false, ..Quirks::default() };
    let (mut cpu, mut io) = setup_with(quirks, &[
        0xa3, 0x00, // ptr = 0x300
        0x60, 0x00, // reg0 = x = 0
        0x61, 0x1e, // reg1 = y = 30
        0xd0, 0x14, // draw 4 rows: 30, 31, 0, 1
    ]);
    for k in 0..4 {
        io.ram_bytes[0x300 + k] = 0xff;
    }
    for _ in 0..4 {
        cpu.exec(&mut io).unwrap();
    }
    assert_eq!(io.pixel_rows[30], 0xff);
    assert_eq!(io.pixel_rows[31], 0xff);
    assert_eq!(io.pixel_rows[0], 0xff);
    assert_eq!(io.pixel_rows[1], 0xff);
}

#[test]
fn drawing_twice_restores_the_screen_and_reports_collision() {
    let (mut cpu, mut io) = setup_with(no_wait(), &[
        0xa3, 0x00, // ptr = 0x300
        0x60, 0x0a, // reg0 = x = 10
        0x61, 0x05, // reg1 = y = 5
        0xd0, 0x12, // draw 2 rows
        0xd0, 0x12, // draw the same 2 rows again
    ]);
    io.ram_bytes[0x300] = 0xff;
    io.ram_bytes[0x301] = 0x81;
    // a pre-existing pattern on the screen
    io.pixel_rows[5] = 0x0123_4567_89ab_cdef;
    io.pixel_rows[6] = 0xfedc_ba98_7654_3210;
    let before = io.pixel_rows;
    for _ in 0..4 {
        cpu.exec(&mut io).unwrap();
    }
    assert_ne!(io.pixel_rows, before);
    cpu.exec(&mut io).unwrap();
    // XOR semantics: the second identical draw undoes the first
    assert_eq!(io.pixel_rows, before);
    // and collides wherever the first draw set pixels
    assert_eq!(cpu.regs[15], 1);
}

#[test]
fn draw_of_zero_rows_touches_nothing_but_the_flag() {
    let (mut cpu, mut io) = setup_with(no_wait(), &[
        0x6f, 0x01, // reg15 = 1 (stale collision flag)
        0xd0, 0x10, // draw 0 rows
    ]);
    io.pixel_rows[0] = 0x55;
    cpu.exec(&mut io).unwrap();
    cpu.exec(&mut io).unwrap();
    assert_eq!(io.pixel_rows[0], 0x55);
    assert_eq!(cpu.regs[15], 0); // an empty draw still reports "no collision"
}

#[test]
fn clear_screen_zeroes_every_row_and_keeps_the_flag() {
    let (mut cpu, mut io) = setup_with(no_wait(), &[
        0x6f, 0x01, // reg15 = 1
        0x00, 0xe0, // clear
    ]);
    for y in 0..32 {
        io.pixel_rows[y] = !0;
    }
    cpu.exec(&mut io).unwrap();
    cpu.exec(&mut io).unwrap();
    assert!(io.pixel_rows.iter().all(|&r| r == 0));
    assert_eq!(cpu.regs[15], 1); // clear does not touch the flag register
}

#[test]
fn video_wait_quirk_stalls_until_the_frame_tick() {
    let (mut cpu, mut io) = setup_with(Quirks::default(), &[
        0x00, 0xe0, // clear (stalls under the quirk)
        0x60, 0x07, // reg0 = 7
    ]);
    cpu.step(&mut io).unwrap();
    assert!(matches!(cpu.state, State::WaitFrame));
    let pc_stalled = cpu.pc;
    cpu.step(&mut io).unwrap();
    cpu.step(&mut io).unwrap();
    // no instruction is consumed while stalled
    assert_eq!(cpu.pc, pc_stalled);
    assert_eq!(cpu.regs[0], 0);
    cpu.tick_frame();
    assert!(matches!(cpu.state, State::Running));
    cpu.step(&mut io).unwrap();
    assert_eq!(cpu.regs[0], 7);
}
