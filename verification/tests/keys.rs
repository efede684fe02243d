use chip8_core::cpu::CPU;
use chip8_core::machine::State;
use chip8_core::peripherals::MemoryPeripherals;
use chip8_core::quirks::Quirks;

fn setup(program: &[u8]) -> (CPU, MemoryPeripherals) {
    let mut io = MemoryPeripherals::new();
    for (k, &b) in program.iter().enumerate() {
        io.ram_bytes[0x200 + k] = b;
    }
    (CPU::new(Quirks::default()), io)
}

#[test]
fn wait_key_round_trip_after_idle_polls() {
    let (mut cpu, mut io) = setup(&[0xf2, 0x0a]); // wait for a key into reg2
    cpu.step(&mut io).unwrap();
    assert_eq!(cpu.state, State::WaitPress(2, 0xffff));
    assert_eq!(cpu.pc, 0x202);

    // any number of idle polls with no key down
    for _ in 0..5 {
        cpu.step(&mut io).unwrap();
        assert!(matches!(cpu.state, State::WaitPress(2, _)));
    }

    // the press edge: exactly one poll detects it
    io.set_keys(1 << 5);
    cpu.step(&mut io).unwrap();
    assert_eq!(cpu.state, State::WaitRelease(5));
    assert_eq!(cpu.regs[2], 5);

    // held down: still waiting for the release
    cpu.step(&mut io).unwrap();
    assert_eq!(cpu.state, State::WaitRelease(5));

    // the release: exactly one poll resumes
    io.set_keys(0);
    cpu.step(&mut io).unwrap();
    assert_eq!(cpu.state, State::Running);
    assert_eq!(cpu.regs[2], 5);
    // no instruction was consumed while blocked
    assert_eq!(cpu.pc, 0x202);
}

#[test]
fn wait_key_ignores_a_key_already_down() {
    let (mut cpu, mut io) = setup(&[0xf0, 0x0a]);
    io.set_keys(1 << 3); // key 3 held before the wait begins
    cpu.step(&mut io).unwrap();
    assert_eq!(cpu.state, State::WaitPress(0, 0xffff));
    cpu.step(&mut io).unwrap();
    // the held key is folded into the baseline, not reported
    assert_eq!(cpu.state, State::WaitPress(0, 1 << 3));
    cpu.step(&mut io).unwrap();
    assert_eq!(cpu.state, State::WaitPress(0, 1 << 3));

    // a genuinely fresh key is reported
    io.set_keys((1 << 3) | (1 << 9));
    cpu.step(&mut io).unwrap();
    assert_eq!(cpu.state, State::WaitRelease(9));
    assert_eq!(cpu.regs[0], 9);
}

#[test]
fn wait_key_picks_the_lowest_fresh_key() {
    let (mut cpu, mut io) = setup(&[0xf1, 0x0a]);
    cpu.step(&mut io).unwrap();
    cpu.step(&mut io).unwrap(); // baseline drops to 0
    io.set_keys((1 << 12) | (1 << 4) | (1 << 7));
    cpu.step(&mut io).unwrap();
    assert_eq!(cpu.regs[1], 4);
    assert_eq!(cpu.state, State::WaitRelease(4));
}

#[test]
fn skip_if_key_pressed_and_not_pressed() {
    let (mut cpu, mut io) = setup(&[
        0x60, 0x06, // reg0 = 6
        0xe0, 0x9e, // skip if key 6 down (it is: to 0x208)
        0x00, 0x00,
        0x61, 0x01, // reg1 = 1
        0xe0, 0xa1, // skip if key 6 up (it is not: fall through)
        0x62, 0x02, // reg2 = 2
    ]);
    io.set_keys(1 << 6);
    cpu.exec(&mut io).unwrap();
    cpu.exec(&mut io).unwrap();
    assert_eq!(cpu.pc, 0x206);
    cpu.exec(&mut io).unwrap();
    cpu.exec(&mut io).unwrap();
    assert_eq!(cpu.pc, 0x20a);
    cpu.exec(&mut io).unwrap();
    assert_eq!(cpu.regs[1], 1);
    assert_eq!(cpu.regs[2], 2);
}
