use chip8::Chip8;
use chip8::InputAction;
use chip8::get_current_millis;
use chip8::input::continue_after;
use chip8::machine::Fault;
use chip8::machine::Quirks;

fn fresh() -> Chip8 {
    Chip8::new_by_bytes(Vec::new())
}

#[test]
fn set_register_boundaries() {
    let mut chip = fresh();
    chip.decode(0x6aff).unwrap();
    assert_eq!(chip.get_register_value(0xa), 0xff);
    chip.decode(0x6500).unwrap();
    assert_eq!(chip.get_register_value(5), 0x00);
}

#[test]
fn add_carry_at_boundary() {
    let mut chip = fresh();
    chip.set_register_value(0, 255);
    chip.set_register_value(1, 1);
    chip.decode(0x8014).unwrap();
    assert_eq!(chip.get_register_value(0), 0);
    assert_eq!(chip.get_register_value(0xf), 1);
}

#[test]
fn add_no_carry() {
    let mut chip = fresh();
    chip.set_register_value(0, 1);
    chip.set_register_value(1, 1);
    chip.decode(0x8014).unwrap();
    assert_eq!(chip.get_register_value(0), 2);
    assert_eq!(chip.get_register_value(0xf), 0);
}

#[test]
fn sub_with_borrow_wraps() {
    let mut chip = fresh();
    chip.set_register_value(0, 0x10);
    chip.set_register_value(1, 0x20);
    chip.decode(0x8015).unwrap();
    assert_eq!(chip.get_register_value(0), 0xf0);
    assert_eq!(chip.get_register_value(0xf), 0);
}

#[test]
fn sub_from_with_borrow_wraps() {
    let mut chip = fresh();
    chip.set_register_value(0, 0x20);
    chip.set_register_value(1, 0x10);
    chip.decode(0x8017).unwrap();
    assert_eq!(chip.get_register_value(0), 0xf0);
    assert_eq!(chip.get_register_value(0xf), 0);
}

#[test]
fn add_imm_wraps_without_flag() {
    let mut chip = fresh();
    chip.set_register_value(2, 0xff);
    chip.set_register_value(0xf, 7);
    chip.decode(0x7202).unwrap();
    assert_eq!(chip.get_register_value(2), 1);
    assert_eq!(chip.get_register_value(0xf), 7);
}

#[test]
fn call_then_ret_returns_past_the_call() {
    // 0x200: 2204 (call 0x204); 0x202: 0000; 0x204: 00EE (ret)
    let rom: Vec<u8> = vec![0x22, 0x04, 0x00, 0x00, 0x00, 0xee];
    let mut chip = Chip8::new_by_bytes(rom);
    chip.step().unwrap();
    assert_eq!(chip.get_ip(), 0x204);
    assert_eq!(chip.get_stack_len(), 1);
    chip.step().unwrap();
    assert_eq!(chip.get_ip(), 0x202);
    assert_eq!(chip.get_stack_len(), 0);
}

#[test]
fn ret_on_empty_stack_is_a_fault() {
    let mut chip = fresh();
    assert_eq!(chip.decode(0x00ee), Err(Fault::StackUnderflow));
    // the machine did not move
    assert_eq!(chip.get_ip(), 0x200);
}

#[test]
fn shift_right_reads_vy_by_default() {
    let mut chip = fresh();
    chip.set_register_value(0, 0x7f);
    chip.set_register_value(1, 0b0000_0101);
    chip.decode(0x8016).unwrap();
    assert_eq!(chip.get_register_value(0), 0b0000_0010);
    assert_eq!(chip.get_register_value(0xf), 1);
}

#[test]
fn shift_left_reads_vy_by_default() {
    let mut chip = fresh();
    chip.set_register_value(0, 0x7f);
    chip.set_register_value(1, 0b1000_0001);
    chip.decode(0x801e).unwrap();
    assert_eq!(chip.get_register_value(0), 0b0000_0010);
    assert_eq!(chip.get_register_value(0xf), 1);
}

#[test]
fn shift_in_place_quirk_reads_vx() {
    let mut chip = fresh();
    chip.set_quirks(Quirks {
        shift_in_place: true,
        save_load_increments_index: false,
        reset_flag_on_logic: false,
    });
    chip.set_register_value(0, 0b0000_0101);
    chip.set_register_value(1, 0xff);
    chip.decode(0x8016).unwrap();
    assert_eq!(chip.get_register_value(0), 0b0000_0010);
    assert_eq!(chip.get_register_value(0xf), 1);
}

#[test]
fn logic_ops_keep_vf_by_default() {
    let mut chip = fresh();
    chip.set_register_value(0, 0x18);
    chip.set_register_value(1, 0x11);
    chip.set_register_value(0xf, 5);
    chip.decode(0x8011).unwrap();
    assert_eq!(chip.get_register_value(0xf), 5);
}

#[test]
fn logic_ops_reset_vf_under_quirk() {
    let mut chip = fresh();
    chip.set_quirks(Quirks {
        shift_in_place: false,
        save_load_increments_index: false,
        reset_flag_on_logic: true,
    });
    chip.set_register_value(0, 0x18);
    chip.set_register_value(1, 0x11);
    chip.set_register_value(0xf, 5);
    chip.decode(0x8011).unwrap();
    assert_eq!(chip.get_register_value(0xf), 0);
}

#[test]
fn bcd_of_156() {
    let mut chip = fresh();
    chip.set_register_value(3, 156);
    chip.decode(0xa300).unwrap();
    chip.decode(0xf333).unwrap();
    assert_eq!(chip.get_memory_byte(0x300), 1);
    assert_eq!(chip.get_memory_byte(0x301), 5);
    assert_eq!(chip.get_memory_byte(0x302), 6);
}

#[test]
fn store_then_load_registers_round_trip() {
    let mut chip = fresh();
    for i in 0..4 {
        chip.set_register_value(i, (0x11 * (i as u16 + 1)) & 0xff);
    }
    chip.decode(0xa400).unwrap();
    chip.decode(0xf355).unwrap();
    assert_eq!(chip.get_memory_byte(0x400), 0x11);
    assert_eq!(chip.get_memory_byte(0x403), 0x44);
    // index register is untouched by default
    assert_eq!(chip.get_ireg(), 0x400);
    for i in 0..4 {
        chip.set_register_value(i, 0);
    }
    chip.decode(0xf365).unwrap();
    assert_eq!(chip.get_register_value(0), 0x11);
    assert_eq!(chip.get_register_value(3), 0x44);
}

#[test]
fn store_registers_increments_index_under_quirk() {
    let mut chip = fresh();
    chip.set_quirks(Quirks {
        shift_in_place: false,
        save_load_increments_index: true,
        reset_flag_on_logic: false,
    });
    chip.decode(0xa400).unwrap();
    chip.decode(0xf255).unwrap();
    assert_eq!(chip.get_ireg(), 0x403);
}

#[test]
fn timers_set_read_and_decay() {
    let mut chip = fresh();
    chip.set_register_value(4, 2);
    chip.decode(0xf415).unwrap();
    chip.decode(0xf418).unwrap();
    assert_eq!(chip.get_delay_timer(), 2);
    assert_eq!(chip.get_sound_timer(), 2);
    chip.decrement_timers();
    chip.decrement_timers();
    chip.decrement_timers();
    assert_eq!(chip.get_delay_timer(), 0);
    assert_eq!(chip.get_sound_timer(), 0);
    chip.decode(0xf607).unwrap();
    assert_eq!(chip.get_register_value(6), 0);
}

#[test]
fn index_register_ops() {
    let mut chip = fresh();
    chip.decode(0xafff).unwrap();
    assert_eq!(chip.get_ireg(), 0xfff);
    chip.set_register_value(0, 3);
    chip.decode(0xf01e).unwrap();
    assert_eq!(chip.get_ireg(), 0x1002);
}

#[test]
fn jump_with_offset() {
    let mut chip = fresh();
    chip.set_register_value(0, 4);
    chip.decode(0xb300).unwrap();
    assert_eq!(chip.get_ip(), 0x304);
}

#[test]
fn random_masked_by_zero_is_zero() {
    let mut chip = fresh();
    chip.set_register_value(7, 0xaa);
    chip.decode(0xc700).unwrap();
    assert_eq!(chip.get_register_value(7), 0);
}

#[test]
fn key_skips() {
    let mut chip = fresh();
    chip.set_register_value(0, 5);
    let before = chip.get_ip();
    chip.decode(0xe09e).unwrap();
    assert_eq!(chip.get_ip(), before);
    chip.set_key(5, true);
    chip.decode(0xe09e).unwrap();
    assert_eq!(chip.get_ip(), before + 2);
    chip.decode(0xe0a1).unwrap();
    assert_eq!(chip.get_ip(), before + 2);
    chip.set_key(5, false);
    chip.decode(0xe0a1).unwrap();
    assert_eq!(chip.get_ip(), before + 4);
}

#[test]
fn draw_sets_pixels_then_clears_them() {
    // one sprite row 0xff at 0x200
    let mut chip = Chip8::new_by_bytes(vec![0xff, 0x00]);
    chip.decode(0xa200).unwrap();
    chip.set_register_value(0, 0);
    chip.set_register_value(1, 0);
    chip.decode(0xd011).unwrap();
    for x in 0..8 {
        assert!(chip.get_pixel(x, 0));
    }
    assert!(!chip.get_pixel(8, 0));
    assert_eq!(chip.get_register_value(0xf), 0);
    // the same draw again clears every pixel it set and collides
    chip.decode(0xd011).unwrap();
    for x in 0..8 {
        assert!(!chip.get_pixel(x, 0));
    }
    assert_eq!(chip.get_register_value(0xf), 1);
}

#[test]
fn draw_clips_at_the_right_edge() {
    let mut chip = Chip8::new_by_bytes(vec![0xff, 0x00]);
    chip.decode(0xa200).unwrap();
    chip.set_register_value(0, 60);
    chip.set_register_value(1, 0);
    chip.decode(0xd011).unwrap();
    for x in 60..64 {
        assert!(chip.get_pixel(x, 0));
    }
    for x in 0..4 {
        assert!(!chip.get_pixel(x, 0));
    }
}

#[test]
fn draw_past_memory_end_is_a_fault() {
    let mut chip = fresh();
    chip.decode(0xafff).unwrap();
    assert_eq!(chip.decode(0xd012), Err(Fault::MemoryOutOfBounds));
}

#[test]
fn bcd_past_memory_end_is_a_fault() {
    let mut chip = fresh();
    chip.decode(0xafff).unwrap();
    assert_eq!(chip.decode(0xf033), Err(Fault::MemoryOutOfBounds));
}

#[test]
fn store_registers_past_memory_end_is_a_fault() {
    let mut chip = fresh();
    chip.decode(0xafff).unwrap();
    assert_eq!(chip.decode(0xf155), Err(Fault::MemoryOutOfBounds));
    assert_eq!(chip.decode(0xf165), Err(Fault::MemoryOutOfBounds));
}

#[test]
fn fetch_outside_memory_is_a_fault() {
    let mut chip = fresh();
    chip.decode(0x1fff).unwrap();
    assert_eq!(chip.get_ip(), 0xfff);
    assert_eq!(chip.step(), Err(Fault::MemoryOutOfBounds));
    // the fault left the machine where it was
    assert_eq!(chip.get_ip(), 0xfff);
}

#[test]
fn unknown_opcodes_are_counted_and_skipped() {
    // 0x00FF is not a recognized opcode
    let rom: Vec<u8> = vec![0x00, 0xff, 0x00, 0xfe];
    let mut chip = Chip8::new_by_bytes(rom);
    assert_eq!(chip.get_unknown_count(), 0);
    chip.step().unwrap();
    assert_eq!(chip.get_unknown_count(), 1);
    assert_eq!(chip.get_ip(), 0x202);
    chip.step().unwrap();
    assert_eq!(chip.get_unknown_count(), 2);
    assert_eq!(chip.get_ip(), 0x204);
}

#[test]
fn clear_then_jump_loops_forever() {
    // 0x200: 00E0 (clear); 0x202: 1200 (jump back to 0x200)
    let rom: Vec<u8> = vec![0x00, 0xe0, 0x12, 0x00];
    let mut chip = Chip8::new_by_bytes(rom);
    for _ in 0..100 {
        chip.step().unwrap();
        assert!(chip.get_ip() == 0x200 || chip.get_ip() == 0x202);
        assert!(!chip.get_pixel(0, 0));
        assert!(!chip.get_pixel(63, 31));
        assert_eq!(chip.get_stack_len(), 0);
        assert_eq!(chip.get_register_value(0), 0);
        assert!(chip.well_formed());
    }
}

#[test]
fn conversions() {
    assert_eq!(chip8::u16_from_usize(0xffff), 0xffff);
    assert_eq!(chip8::u16_from_u8(0xab), 0xab);
    assert_eq!(chip8::u8_from_u16(0xcd), 0xcd);
    assert_eq!(chip8::usize_from_u16(0x1234), 0x1234);
    assert_eq!(chip8::get_X(0x1a2b), 0xa);
    assert_eq!(chip8::get_Y(0x1a2b), 2);
}

#[test]
fn driver_decisions() {
    assert!(continue_after(InputAction::NoAction));
    assert!(!continue_after(InputAction::BreakDisplay));
    assert!(InputAction::NoAction == InputAction::NoAction);
}

#[test]
fn clock_reads() {
    let t = get_current_millis();
    assert!(t > 0);
}
