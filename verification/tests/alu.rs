use chip8_core::cpu::CPU;
use chip8_core::opcodes::Arith;
use chip8_core::quirks::Quirks;

fn cpu_with(shift_vy: bool, reset_vf: bool) -> CPU {
    CPU::new(Quirks {
        shift_vy,
        reset_vf,
        increment_ptr: true,
        video_wait: true,
        clip_sprites: true,
    })
}

#[test]
fn sub_flag_is_no_borrow_for_all_pairs() {
    let cpu = cpu_with(true, true);
    for x in 0..=255u8 {
        for y in 0..=255u8 {
            let (z, f) = cpu.arith(Arith::Sub, x, y);
            assert_eq!(z, x.wrapping_sub(y));
            assert_eq!(f, Some(x >= y));
            let (z2, f2) = cpu.arith(Arith::SubFlip, x, y);
            assert_eq!(z2, y.wrapping_sub(x));
            assert_eq!(f2, Some(y >= x));
        }
    }
}

#[test]
fn add_flag_is_carry_for_all_pairs() {
    let cpu = cpu_with(true, true);
    for x in 0..=255u8 {
        for y in 0..=255u8 {
            let (z, f) = cpu.arith(Arith::Add, x, y);
            assert_eq!(z, x.wrapping_add(y));
            assert_eq!(f, Some(x as u16 + y as u16 > 255));
        }
    }
}

#[test]
fn shift_flag_is_bit_shifted_out_of_selected_operand() {
    for &quirk in &[false, true] {
        let cpu = cpu_with(quirk, true);
        for x in 0..=255u8 {
            for y in 0..=255u8 {
                let sel = if quirk { y } else { x };
                let (zl, fl) = cpu.arith(Arith::ShiftL, x, y);
                assert_eq!(zl, sel << 1);
                assert_eq!(fl, Some(sel & 0x80 != 0));
                let (zr, fr) = cpu.arith(Arith::ShiftR, x, y);
                assert_eq!(zr, sel >> 1);
                assert_eq!(fr, Some(sel & 0x01 != 0));
            }
        }
    }
}

#[test]
fn bitwise_ops_and_reset_quirk() {
    let with_reset = cpu_with(true, true);
    let without_reset = cpu_with(true, false);
    assert_eq!(with_reset.arith(Arith::Or, 0x0f, 0xf0), (0xff, Some(false)));
    assert_eq!(with_reset.arith(Arith::And, 0x0f, 0x3c), (0x0c, Some(false)));
    assert_eq!(with_reset.arith(Arith::XOr, 0x0f, 0x3c), (0x33, Some(false)));
    assert_eq!(without_reset.arith(Arith::Or, 0x0f, 0xf0), (0xff, None));
    assert_eq!(without_reset.arith(Arith::And, 0x0f, 0x3c), (0x0c, None));
    assert_eq!(without_reset.arith(Arith::XOr, 0x0f, 0x3c), (0x33, None));
}

#[test]
fn load_has_no_flag() {
    let cpu = cpu_with(true, true);
    assert_eq!(cpu.arith(Arith::Load, 0x12, 0x34), (0x34, None));
}

#[test]
fn arith_concrete_examples() {
    let cpu = cpu_with(true, true);
    assert_eq!(cpu.arith(Arith::Add, 200, 100), (44, Some(true)));
    assert_eq!(cpu.arith(Arith::Add, 100, 100), (200, Some(false)));
    assert_eq!(cpu.arith(Arith::Sub, 10, 200), (66, Some(false)));
    assert_eq!(cpu.arith(Arith::Sub, 200, 10), (190, Some(true)));
    assert_eq!(cpu.arith(Arith::Sub, 7, 7), (0, Some(true)));
    assert_eq!(cpu.arith(Arith::SubFlip, 10, 200), (190, Some(true)));
    assert_eq!(cpu.arith(Arith::ShiftL, 0, 0x81), (0x02, Some(true)));
    assert_eq!(cpu.arith(Arith::ShiftR, 0, 0x81), (0x40, Some(true)));
}
