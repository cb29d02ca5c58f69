//! Per-opcode semantics, driven through CPU::decode_execute.

use chip8::cpu::{ExecError, Instruction, CPU};

fn cpu() -> CPU {
    CPU::new()
}

#[test]
fn parse_u16_splits_fields() {
    let ins = Instruction::parse_u16(0xABCD);
    assert_eq!(ins.opcode, 0xABCD);
    assert_eq!(ins.nnn, 0xBCD);
    assert_eq!(ins.nn, 0xCD);
    assert_eq!(ins.n, 0xD);
    assert_eq!(ins.x, 0xB);
    assert_eq!(ins.y, 0xC);
}

#[test]
fn zero_word_is_noop() {
    let mut c = cpu();
    c.pc = 0x400;
    c.cir = 0x0000;
    assert!(c.decode_execute().is_ok());
    assert_eq!(c.pc, 0x400);
    assert!(c.v_reg.iter().all(|&b| b == 0));
}

#[test]
fn unknown_opcode_is_noop() {
    let mut c = cpu();
    c.pc = 0x400;
    c.cir = 0xB123;
    assert!(c.decode_execute().is_ok());
    assert_eq!(c.pc, 0x400);
    assert_eq!(c.idx, 0);
    assert!(c.v_reg.iter().all(|&b| b == 0));
}

#[test]
fn jump_sets_pc() {
    let mut c = cpu();
    c.cir = 0x1abc;
    assert!(c.decode_execute().is_ok());
    assert_eq!(c.pc, 0xabc);
}

#[test]
fn skip_eq_imm_taken_and_not_taken() {
    let mut c = cpu();
    c.pc = 0x200;
    c.v_reg[1] = 0x24;
    c.cir = 0x3124;
    assert!(c.decode_execute().is_ok());
    assert_eq!(c.pc, 0x202);
    c.cir = 0x3125;
    assert!(c.decode_execute().is_ok());
    assert_eq!(c.pc, 0x202);
}

#[test]
fn skip_ne_imm() {
    let mut c = cpu();
    c.pc = 0x200;
    c.v_reg[2] = 0x10;
    c.cir = 0x4211;
    assert!(c.decode_execute().is_ok());
    assert_eq!(c.pc, 0x202);
    c.cir = 0x4210;
    assert!(c.decode_execute().is_ok());
    assert_eq!(c.pc, 0x202);
}

#[test]
fn skip_eq_reg_and_ne_reg() {
    let mut c = cpu();
    c.pc = 0x200;
    c.v_reg[0] = 7;
    c.v_reg[1] = 7;
    c.v_reg[2] = 9;
    c.cir = 0x5010;
    assert!(c.decode_execute().is_ok());
    assert_eq!(c.pc, 0x202);
    c.cir = 0x5020;
    assert!(c.decode_execute().is_ok());
    assert_eq!(c.pc, 0x202);
    c.cir = 0x9020;
    assert!(c.decode_execute().is_ok());
    assert_eq!(c.pc, 0x204);
    c.cir = 0x9010;
    assert!(c.decode_execute().is_ok());
    assert_eq!(c.pc, 0x204);
}

#[test]
fn set_imm_stores_value() {
    let mut c = cpu();
    c.cir = 0x6124;
    assert!(c.decode_execute().is_ok());
    assert_eq!(c.v_reg[1], 0x24);
}

#[test]
fn add_imm_saturates_without_flag() {
    let mut c = cpu();
    c.v_reg[0] = 5;
    c.cir = 0x7003;
    assert!(c.decode_execute().is_ok());
    assert_eq!(c.v_reg[0], 8);
    assert_eq!(c.v_reg[15], 0);

    c.v_reg[0] = 250;
    c.cir = 0x700A;
    assert!(c.decode_execute().is_ok());
    assert_eq!(c.v_reg[0], 255);
    assert_eq!(c.v_reg[15], 0);

    c.v_reg[0] = 250;
    c.cir = 0x7005;
    assert!(c.decode_execute().is_ok());
    assert_eq!(c.v_reg[0], 255);
}

#[test]
fn assign_or_and_xor() {
    let mut c = cpu();
    c.v_reg[0] = 0b1100;
    c.v_reg[1] = 0b1010;
    c.cir = 0x8010;
    assert!(c.decode_execute().is_ok());
    assert_eq!(c.v_reg[0], 0b1010);

    c.v_reg[0] = 0b1100;
    c.cir = 0x8011;
    assert!(c.decode_execute().is_ok());
    assert_eq!(c.v_reg[0], 0b1110);

    c.v_reg[0] = 0b1100;
    c.cir = 0x8012;
    assert!(c.decode_execute().is_ok());
    assert_eq!(c.v_reg[0], 0b1000);

    c.v_reg[0] = 0b1100;
    c.cir = 0x8013;
    assert!(c.decode_execute().is_ok());
    assert_eq!(c.v_reg[0], 0b0110);
}

#[test]
fn add_carry_saturates_and_sets_flag() {
    let mut c = cpu();
    c.v_reg[0] = 0xFF;
    c.v_reg[1] = 0x01;
    c.cir = 0x8014;
    assert!(c.decode_execute().is_ok());
    assert_eq!(c.v_reg[0], 0xFF);
    assert_eq!(c.v_reg[15], 1);
}

#[test]
fn add_carry_clears_flag_without_overflow() {
    let mut c = cpu();
    c.v_reg[0] = 0x01;
    c.v_reg[1] = 0x01;
    c.cir = 0x8014;
    assert!(c.decode_execute().is_ok());
    assert_eq!(c.v_reg[0], 0x02);
    assert_eq!(c.v_reg[15], 0);
}

#[test]
fn sub_borrow_both_directions() {
    let mut c = cpu();
    c.v_reg[0] = 0x05;
    c.v_reg[1] = 0x03;
    c.cir = 0x8015;
    assert!(c.decode_execute().is_ok());
    assert_eq!(c.v_reg[0], 0x02);
    assert_eq!(c.v_reg[15], 1);

    c.v_reg[0] = 0x03;
    c.v_reg[1] = 0x05;
    c.cir = 0x8015;
    assert!(c.decode_execute().is_ok());
    assert_eq!(c.v_reg[0], 0x00);
    assert_eq!(c.v_reg[15], 0);
}

#[test]
fn shift_right_captures_least_bit_first() {
    let mut c = cpu();
    c.v_reg[1] = 0x03;
    c.cir = 0x8016;
    assert!(c.decode_execute().is_ok());
    assert_eq!(c.v_reg[0], 0x01);
    assert_eq!(c.v_reg[15], 1);
}

#[test]
fn sub_reverse_flags_on_pre_subtraction_values_and_floors() {
    // The borrow flag compares the operands before the subtraction, and a
    // would-be negative difference floors at zero.
    let mut c = cpu();
    c.v_reg[0] = 0x03;
    c.v_reg[1] = 0x05;
    c.cir = 0x8017;
    assert!(c.decode_execute().is_ok());
    assert_eq!(c.v_reg[0], 0x02);
    assert_eq!(c.v_reg[15], 1);

    c.v_reg[0] = 0x05;
    c.v_reg[1] = 0x03;
    c.cir = 0x8017;
    assert!(c.decode_execute().is_ok());
    assert_eq!(c.v_reg[0], 0x00);
    assert_eq!(c.v_reg[15], 0);
}

#[test]
fn shift_left_flag_is_raw_masked_bit() {
    // The flag keeps the raw masked high bit (0x80), not a normalized 0/1.
    let mut c = cpu();
    c.v_reg[1] = 0x81;
    c.cir = 0x801E;
    assert!(c.decode_execute().is_ok());
    assert_eq!(c.v_reg[0], 0x02);
    assert_eq!(c.v_reg[15], 0x80);

    c.v_reg[1] = 0x41;
    c.cir = 0x801E;
    assert!(c.decode_execute().is_ok());
    assert_eq!(c.v_reg[0], 0x82);
    assert_eq!(c.v_reg[15], 0);
}

#[test]
fn set_index_stores_nnn() {
    let mut c = cpu();
    c.cir = 0xA123;
    assert!(c.decode_execute().is_ok());
    assert_eq!(c.idx, 0x123);
}

#[test]
fn random_respects_mask() {
    let mut c = cpu();
    c.cir = 0xC300;
    assert!(c.decode_execute().is_ok());
    assert_eq!(c.v_reg[3], 0);
    c.cir = 0xC30F;
    assert!(c.decode_execute().is_ok());
    assert!(c.v_reg[3] <= 0x0F);
}

#[test]
fn add_index_adds_register() {
    let mut c = cpu();
    c.idx = 10;
    c.v_reg[0] = 5;
    c.cir = 0xF01E;
    assert!(c.decode_execute().is_ok());
    assert_eq!(c.idx, 15);
}

#[test]
fn add_index_overflow_is_error() {
    let mut c = cpu();
    c.idx = 0xFFFF;
    c.v_reg[0] = 1;
    c.cir = 0xF01E;
    assert_eq!(c.decode_execute(), Err(ExecError::IndexOverflow));
    assert_eq!(c.idx, 0xFFFF);
}

#[test]
fn load_registers_reads_memory() {
    let mut c = cpu();
    c.memory[0x300] = 0xAA;
    c.memory[0x301] = 0xBB;
    c.memory[0x302] = 0xCC;
    c.idx = 0x300;
    c.v_reg[3] = 0x77;
    c.cir = 0xF265;
    assert!(c.decode_execute().is_ok());
    assert_eq!(c.v_reg[0], 0xAA);
    assert_eq!(c.v_reg[1], 0xBB);
    assert_eq!(c.v_reg[2], 0xCC);
    assert_eq!(c.v_reg[3], 0x77);
}

#[test]
fn load_registers_out_of_bounds_is_error() {
    let mut c = cpu();
    c.idx = 4090;
    c.cir = 0xF665;
    assert_eq!(c.decode_execute(), Err(ExecError::MemoryOutOfBounds));
    assert!(c.v_reg.iter().all(|&b| b == 0));
}

#[test]
fn unknown_f_class_is_noop() {
    let mut c = cpu();
    c.idx = 10;
    c.v_reg[0] = 5;
    c.cir = 0xF033;
    assert!(c.decode_execute().is_ok());
    assert_eq!(c.idx, 10);
    assert_eq!(c.v_reg[0], 5);
}

#[test]
fn draw_sets_pixels_and_second_draw_erases() {
    // An 8x1 sprite of 0xFF at origin (0, 0): the y axis is flipped, so the
    // eight pixels land on stored row 31, and no pixel is erased. Drawing the
    // same sprite again clears them and raises the collision flag.
    let mut c = cpu();
    c.memory[0x300] = 0xFF;
    c.idx = 0x300;
    c.cir = 0xD011;
    assert!(c.decode_execute().is_ok());
    assert_eq!(c.v_reg[15], 0);
    {
        let g = c.display.current_buffer();
        for col in 0..8 {
            assert_eq!(g[31 * 64 + col], 255);
        }
        for col in 8..64 {
            assert_eq!(g[31 * 64 + col], 0);
        }
        for row in 0..31 {
            for col in 0..64 {
                assert_eq!(g[row * 64 + col], 0);
            }
        }
    }
    assert!(c.decode_execute().is_ok());
    assert_eq!(c.v_reg[15], 1);
    let g = c.display.current_buffer();
    assert!(g.iter().all(|&p| p == 0));
}

#[test]
fn draw_with_no_rows_only_resets_flag() {
    let mut c = cpu();
    c.v_reg[15] = 1;
    c.cir = 0xD010;
    assert!(c.decode_execute().is_ok());
    assert_eq!(c.v_reg[15], 0);
    assert!(c.display.current_buffer().iter().all(|&p| p == 0));
}

#[test]
fn draw_reads_origin_after_flag_reset() {
    // The flags register is cleared before the origin registers are read, so
    // a draw whose x register is V[F] uses origin column 0, not the old flag.
    let mut c = cpu();
    c.v_reg[15] = 7;
    c.memory[0x300] = 0x80;
    c.idx = 0x300;
    c.cir = 0xDF11;
    assert!(c.decode_execute().is_ok());
    let g = c.display.current_buffer();
    assert_eq!(g[31 * 64], 255);
    assert_eq!(g[31 * 64 + 7], 0);
}

#[test]
fn draw_out_of_bounds_sprite_is_error() {
    let mut c = cpu();
    c.idx = 4090;
    c.cir = 0xD00F;
    assert_eq!(c.decode_execute(), Err(ExecError::MemoryOutOfBounds));
    assert_eq!(c.v_reg[15], 0);
}

#[test]
fn clear_screen_clears_both_grids() {
    let mut c = cpu();
    c.memory[0x300] = 0xFF;
    c.idx = 0x300;
    c.cir = 0xD011;
    assert!(c.decode_execute().is_ok());
    assert!(c.display.current_buffer().iter().any(|&p| p != 0));
    c.cir = 0x00E0;
    assert!(c.decode_execute().is_ok());
    assert!(c.display.current_buffer().iter().all(|&p| p == 0));
    assert!(c.display.inactive_buffer().iter().all(|&p| p == 0));
}

#[test]
fn clear_screen_requires_exact_low_byte() {
    // Class 0x0 with any other low byte is an unrecognized word: a no-op.
    let mut c = cpu();
    c.memory[0x300] = 0xFF;
    c.idx = 0x300;
    c.cir = 0xD011;
    assert!(c.decode_execute().is_ok());
    c.cir = 0x00E1;
    assert!(c.decode_execute().is_ok());
    assert!(c.display.current_buffer().iter().any(|&p| p != 0));
}

#[test]
fn subroutine_class_is_unimplemented_noop() {
    let mut c = cpu();
    c.pc = 0x400;
    c.cir = 0x2123;
    assert!(c.decode_execute().is_ok());
    assert_eq!(c.pc, 0x400);
    assert!(c.stack.is_empty());
}
