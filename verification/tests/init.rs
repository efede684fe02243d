use chip8_core::cpu::CPU;
use chip8_core::machine::State;
use chip8_core::peripherals::{MemoryPeripherals, Peripherals};
use chip8_core::quirks::Quirks;

#[test]
fn fresh_cpu_state_after_reset() {
    let cpu = CPU::new(Quirks::default());
    assert_eq!(cpu.regs, [0u8; 16]);
    assert_eq!(cpu.ptr, 0);
    assert_eq!(cpu.pc, 0x200);
    assert_eq!(cpu.stack, [0u16; 16]);
    assert_eq!(cpu.sp, 0);
    assert_eq!(cpu.rnd, 0xf00f);
    assert_eq!(cpu.timer, 0);
    assert_eq!(cpu.state, State::Running);
}

#[test]
fn default_quirks_enable_every_toggle() {
    let q = Quirks::default();
    assert!(q.shift_vy);
    assert!(q.reset_vf);
    assert!(q.increment_ptr);
    assert!(q.video_wait);
    assert!(q.clip_sprites);
}

#[test]
fn memory_peripherals_round_trips_host_state() {
    let mut io = MemoryPeripherals::new();
    assert_eq!(io.ram_bytes.len(), 0x10000);
    io.write_ram(0x0fff, 0xab);
    assert_eq!(io.read_ram(0x0fff), 0xab);
    io.set_pixel_row(31, 0x1234);
    assert_eq!(io.get_pixel_row(31), 0x1234);
    io.set_keys(0x8001);
    assert_eq!(io.get_keys(), 0x8001);
    io.set_sound(3);
    assert_eq!(io.sound_level, 3);
}
