#![allow(non_snake_case)]

use chip8::Chip8;

// Tools for testing

fn u16_to_u8(instr: u16) -> Vec<u8> {
    let pair2 = u8::try_from(instr & 0xff).unwrap();
    let pair1 = u8::try_from((instr & 0xff00) >> 8).unwrap();

    let mut ret: Vec<u8> = Vec::new();

    ret.push(pair1);
    ret.push(pair2);

    ret
}

fn vec_u16_to_u8(instrs: Vec<u16>) -> Vec<u8> {
    let mut ret: Vec<u8> = Vec::new();

    for instr in instrs {
        let mut instr_u8 = u16_to_u8(instr);
        ret.append(&mut instr_u8);
    }

    ret
}

fn chip_with_rom(instr: u16) -> Chip8 {
    Chip8::new_by_bytes(u16_to_u8(instr))
}

// Now to the tests!

#[test]
fn test_u16_conversion_to_u8() {
    let ret = u16_to_u8(0xfafb);

    assert_eq!(ret[0], 0xfa);
    assert_eq!(ret[1], 0xfb);
}

#[test]
fn test_vec_u16_to_u8() {
    let mut v: Vec<u16> = Vec::new();
    v.push(0x1234);
    v.push(0x4321);

    let ret = vec_u16_to_u8(v);

    assert_eq!(ret[0], 0x12);
    assert_eq!(ret[1], 0x34);
    assert_eq!(ret[2], 0x43);
    assert_eq!(ret[3], 0x21);
}

// Test instructions

#[test]
fn OC_1NNN() {
    let mut chip = chip_with_rom(0x1123);

    let instr = chip.fetch().unwrap();
    chip.decode(instr).unwrap();
    println!("{}", chip.get_ip());

    assert_eq!(chip.get_ip(), 0x123);
}

#[test]
fn OC_3XNN() {
    let mut chip = chip_with_rom(0x3011);

    chip.set_register_value(0, 0x11);
    let ip_before = chip.get_ip();

    let instr = chip.fetch().unwrap();
    chip.decode(instr).unwrap();

    assert_eq!(chip.get_ip(), ip_before + 4);
}

#[test]
fn OC_4XNN() {
    let mut chip = chip_with_rom(0x4011);

    chip.set_register_value(0, 0x12);
    let ip_before = chip.get_ip();

    let instr = chip.fetch().unwrap();
    chip.decode(instr).unwrap();

    assert_eq!(chip.get_ip(), ip_before + 4);
}

#[test]
fn OC_5XY0() {
    let mut chip = chip_with_rom(0x5010);

    chip.set_register_value(0, 0x12);
    chip.set_register_value(1, 0x12);
    let ip_before = chip.get_ip();

    let instr = chip.fetch().unwrap();
    chip.decode(instr).unwrap();

    assert_eq!(chip.get_ip(), ip_before + 4);
}

#[test]
fn OC_9XY0() {
    let mut chip = chip_with_rom(0x9010);

    chip.set_register_value(0, 0x12);
    chip.set_register_value(1, 0x13);
    let ip_before = chip.get_ip();

    let instr = chip.fetch().unwrap();
    chip.decode(instr).unwrap();

    assert_eq!(chip.get_ip(), ip_before + 4);
}

#[test]
fn OC_6XNN() {
    let mut chip = chip_with_rom(0x6111);

    let instr = chip.fetch().unwrap();
    chip.decode(instr).unwrap();

    assert_eq!(chip.get_register_value(1), 0x11);
}

#[test]
fn OC_7XNN() {
    let mut chip = chip_with_rom(0x7111);

    let instr = chip.fetch().unwrap();
    chip.decode(instr).unwrap();

    assert_eq!(chip.get_register_value(1), 0x11);
}

#[test]
fn OC_8XY0() {
    let mut chip = chip_with_rom(0x8010);

    chip.set_register_value(1, 0x11);

    let instr = chip.fetch().unwrap();
    chip.decode(instr).unwrap();

    assert_eq!(chip.get_register_value(1), 0x11);
}

#[test]
fn OC_8XY1() {
    let mut chip = chip_with_rom(0x8011);

    chip.set_register_value(0, 0x18);
    chip.set_register_value(1, 0x11);

    let instr = chip.fetch().unwrap();
    chip.decode(instr).unwrap();

    assert_eq!(chip.get_register_value(0), 0x18 | 0x11);
}

#[test]
fn OC_8XY2() {
    let mut chip = chip_with_rom(0x8012);

    chip.set_register_value(0, 0x18);
    chip.set_register_value(1, 0x11);

    let instr = chip.fetch().unwrap();
    chip.decode(instr).unwrap();

    assert_eq!(chip.get_register_value(0), 0x18 & 0x11);
}

#[test]
fn OC_8XY3() {
    let mut chip = chip_with_rom(0x8013);

    chip.set_register_value(0, 0x18);
    chip.set_register_value(1, 0x11);

    let instr = chip.fetch().unwrap();
    chip.decode(instr).unwrap();

    assert_eq!(chip.get_register_value(0), 0x18 ^ 0x11);
}

#[test]
fn OC_8XY4() {
    let mut chip = chip_with_rom(0x8014);

    chip.set_register_value(0, 0x18);
    chip.set_register_value(1, 0x11);

    let instr = chip.fetch().unwrap();
    chip.decode(instr).unwrap();

    assert_eq!(chip.get_register_value(0), 0x18 + 0x11);
}

#[test]
fn OC_8XY5() {
    let mut chip = chip_with_rom(0x8015);

    chip.set_register_value(0, 0x18);
    chip.set_register_value(1, 0x11);

    let instr = chip.fetch().unwrap();
    chip.decode(instr).unwrap();

    assert_eq!(chip.get_register_value(0), 0x18 - 0x11);
}

#[test]
fn OC_8XY7() {
    let mut chip = chip_with_rom(0x8017);

    chip.set_register_value(0, 0x11);
    chip.set_register_value(1, 0x18);

    let instr = chip.fetch().unwrap();
    chip.decode(instr).unwrap();

    assert_eq!(chip.get_register_value(0), 0x18 - 0x11);
}
