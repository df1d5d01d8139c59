use ultra8::Chip8Error;
use ultra8::Cpu;
use ultra8::StepOutcome;
use ultra8::VideoMode;

fn rom(bytes: &[u8]) -> Cpu {
    let mut c = Cpu::init();
    c.load(bytes).unwrap();
    c
}

fn run(c: &mut Cpu, n: usize) {
    for _ in 0..n {
        c.cycle().unwrap();
    }
}

#[test]
fn clear_screen_zeroes_and_marks_dirty() {
    let mut c = rom(&[0x60, 0, 0x61, 0, 0xA3, 0x00, 0xD0, 0x11, 0x00, 0xE0]);
    c.load_byte_to_memory(0xFF, 0x300);
    run(&mut c, 4);
    assert!(c.display.iter().any(|&b| b == 1));
    c.draw = false;
    run(&mut c, 1);
    assert!(c.display.iter().all(|&b| b == 0));
    assert!(c.draw);
    assert_eq!(c.pc, 0x20A);
}

#[test]
fn jump_sets_pc() {
    let mut c = rom(&[0x12, 0x34]);
    run(&mut c, 1);
    assert_eq!(c.pc, 0x234);
}

#[test]
fn jump_with_offset_adds_v0() {
    let mut c = rom(&[0x60, 0x05, 0xB3, 0x00]);
    run(&mut c, 2);
    assert_eq!(c.pc, 0x305);
}

#[test]
fn skip_if_equal_immediate() {
    let mut c = rom(&[0x60, 0x0A, 0x30, 0x0A]);
    run(&mut c, 2);
    assert_eq!(c.pc, 0x206);
    let mut d = rom(&[0x60, 0x0A, 0x30, 0x0B]);
    run(&mut d, 2);
    assert_eq!(d.pc, 0x204);
}

#[test]
fn skip_if_not_equal_immediate() {
    let mut c = rom(&[0x60, 0x0A, 0x40, 0x0B]);
    run(&mut c, 2);
    assert_eq!(c.pc, 0x206);
    let mut d = rom(&[0x60, 0x0A, 0x40, 0x0A]);
    run(&mut d, 2);
    assert_eq!(d.pc, 0x204);
}

#[test]
fn skip_on_register_compare() {
    // v0 = 7, v1 = 7: 5010 skips, 9010 does not
    let mut c = rom(&[0x60, 7, 0x61, 7, 0x50, 0x10]);
    run(&mut c, 3);
    assert_eq!(c.pc, 0x208);
    let mut d = rom(&[0x60, 7, 0x61, 8, 0x90, 0x10]);
    run(&mut d, 3);
    assert_eq!(d.pc, 0x208);
    let mut e = rom(&[0x60, 7, 0x61, 7, 0x90, 0x10]);
    run(&mut e, 3);
    assert_eq!(e.pc, 0x206);
}

#[test]
fn register_copy_or_and_xor() {
    let mut c = rom(&[0x60, 0b1100, 0x61, 0b1010, 0x82, 0x00, 0x82, 0x11]);
    run(&mut c, 4);
    // v2 = v0, then v2 |= v1
    assert_eq!(c.v[2], 0b1110);
    let mut d = rom(&[0x60, 0b1100, 0x61, 0b1010, 0x80, 0x12]);
    run(&mut d, 3);
    assert_eq!(d.v[0], 0b1000);
    let mut e = rom(&[0x60, 0b1100, 0x61, 0b1010, 0x80, 0x13]);
    run(&mut e, 3);
    assert_eq!(e.v[0], 0b0110);
}

#[test]
fn add_registers_sets_carry() {
    let mut c = rom(&[0x60, 200, 0x61, 100, 0x80, 0x14]);
    run(&mut c, 3);
    assert_eq!(c.v[0], 44);
    assert_eq!(c.v[15], 1);
    let mut d = rom(&[0x60, 20, 0x61, 30, 0x80, 0x14]);
    run(&mut d, 3);
    assert_eq!(d.v[0], 50);
    assert_eq!(d.v[15], 0);
}

#[test]
fn subtract_direct_borrow_convention() {
    // v0 - v1 with v0 > v1: flag 1
    let mut c = rom(&[0x60, 20, 0x61, 10, 0x80, 0x15]);
    run(&mut c, 3);
    assert_eq!(c.v[0], 10);
    assert_eq!(c.v[15], 1);
    // v0 - v1 with v0 < v1: wraps, flag 0
    let mut d = rom(&[0x60, 10, 0x61, 20, 0x80, 0x15]);
    run(&mut d, 3);
    assert_eq!(d.v[0], 246);
    assert_eq!(d.v[15], 0);
}

#[test]
fn subtract_reversed_inverse_convention() {
    // v0 = v1 - v0 with v1 > v0: no borrow, flag 1
    let mut c = rom(&[0x60, 10, 0x61, 20, 0x80, 0x17]);
    run(&mut c, 3);
    assert_eq!(c.v[0], 10);
    assert_eq!(c.v[15], 1);
    // v1 < v0: borrow occurred, flag 0
    let mut d = rom(&[0x60, 20, 0x61, 10, 0x80, 0x17]);
    run(&mut d, 3);
    assert_eq!(d.v[0], 246);
    assert_eq!(d.v[15], 0);
}

#[test]
fn shifts_save_the_moved_bit() {
    let mut c = rom(&[0x60, 0b1011, 0x80, 0x06]);
    run(&mut c, 2);
    assert_eq!(c.v[0], 0b101);
    assert_eq!(c.v[15], 1);
    let mut d = rom(&[0x60, 0x81, 0x80, 0x0E]);
    run(&mut d, 2);
    assert_eq!(d.v[0], 0x02);
    assert_eq!(d.v[15], 1);
}

#[test]
fn set_index_and_add_to_index() {
    let mut c = rom(&[0xA1, 0x23, 0x60, 0x10, 0xF0, 0x1E]);
    run(&mut c, 3);
    assert_eq!(c.index, 0x133);
}

#[test]
fn add_to_index_wraps_at_sixteen_bits() {
    // index = 0xFFF, then 241 rounds of index += 255 in a tight loop:
    // 4095 + 241 * 255 = 65550, which wraps to 14
    let mut c = rom(&[0xAF, 0xFF, 0x60, 0xFF, 0xF0, 0x1E, 0x12, 0x04]);
    run(&mut c, 2 + 2 * 241);
    assert_eq!(c.index, 14);
}

#[test]
fn font_glyph_address_is_five_per_digit() {
    let mut c = rom(&[0x60, 0x0A, 0xF0, 0x29]);
    run(&mut c, 2);
    assert_eq!(c.index, 50);
}

#[test]
fn random_masked_to_zero_is_zero() {
    // nn = 0 masks every drawn byte to 0
    let mut c = rom(&[0x60, 0x55, 0xC0, 0x00]);
    run(&mut c, 2);
    assert_eq!(c.v[0], 0);
    assert_eq!(c.pc, 0x204);
}

#[test]
fn random_stays_in_mask() {
    let mut c = rom(&[0xC0, 0x0F]);
    run(&mut c, 1);
    assert!(c.v[0] <= 0x0F);
}

#[test]
fn bcd_store() {
    let mut c = rom(&[0x60, 234, 0xA4, 0x00, 0xF0, 0x33]);
    run(&mut c, 3);
    assert_eq!(c.mem[0x400], 2);
    assert_eq!(c.mem[0x401], 3);
    assert_eq!(c.mem[0x402], 4);
}

#[test]
fn bcd_out_of_bounds() {
    let mut c = rom(&[0xAF, 0xFE, 0xF0, 0x33]);
    run(&mut c, 1);
    assert_eq!(c.cycle(), Err(Chip8Error::OutOfBounds));
    assert_eq!(c.mem[4094], 0);
    assert_eq!(c.pc, 0x202);
}

#[test]
fn register_dump_and_load() {
    let mut c = rom(&[0x60, 5, 0x61, 6, 0x62, 7, 0xA3, 0x00, 0xF2, 0x55]);
    run(&mut c, 5);
    assert_eq!(c.mem[0x300], 5);
    assert_eq!(c.mem[0x301], 6);
    assert_eq!(c.mem[0x302], 7);
    assert_eq!(c.mem[0x303], 0);

    let mut d = rom(&[0xA3, 0x00, 0xF1, 0x65]);
    d.load_byte_to_memory(0xAA, 0x300);
    d.load_byte_to_memory(0xBB, 0x301);
    d.load_byte_to_memory(0xCC, 0x302);
    run(&mut d, 2);
    assert_eq!(d.v[0], 0xAA);
    assert_eq!(d.v[1], 0xBB);
    // only v0..=v1 were loaded
    assert_eq!(d.v[2], 0);
}

#[test]
fn register_dump_out_of_bounds() {
    let mut c = rom(&[0xAF, 0xFF, 0xF1, 0x55]);
    run(&mut c, 1);
    assert_eq!(c.cycle(), Err(Chip8Error::OutOfBounds));
}

#[test]
fn skip_if_key_pressed_and_not_pressed() {
    let mut c = rom(&[0x60, 0x04, 0xE0, 0x9E]);
    c.set_key(4, 1);
    run(&mut c, 2);
    assert_eq!(c.pc, 0x206);

    let mut d = rom(&[0x60, 0x04, 0xE0, 0x9E]);
    run(&mut d, 2);
    assert_eq!(d.pc, 0x204);

    let mut e = rom(&[0x60, 0x04, 0xE0, 0xA1]);
    run(&mut e, 2);
    assert_eq!(e.pc, 0x206);
}

#[test]
fn key_skip_with_register_out_of_key_space() {
    let mut c = rom(&[0x60, 20, 0xE0, 0x9E]);
    run(&mut c, 1);
    assert_eq!(c.cycle(), Err(Chip8Error::OutOfBounds));
    assert_eq!(c.pc, 0x202);
}

#[test]
fn unknown_opcode_is_reported_and_state_kept() {
    let mut c = rom(&[0x00, 0x01]);
    assert_eq!(c.cycle(), Err(Chip8Error::UnknownOpcode(0x0001)));
    assert_eq!(c.pc, 0x200);
    let mut d = rom(&[0x80, 0x08]);
    assert_eq!(d.cycle(), Err(Chip8Error::UnknownOpcode(0x8008)));
    let mut e = rom(&[0xF0, 0x99]);
    assert_eq!(e.cycle(), Err(Chip8Error::UnknownOpcode(0xF099)));
    let mut f = rom(&[0xE0, 0x00]);
    assert_eq!(f.cycle(), Err(Chip8Error::UnknownOpcode(0xE000)));
}

#[test]
fn exit_requests_halt_without_touching_state() {
    let mut c = rom(&[0x00, 0xFD]);
    assert_eq!(c.cycle(), Ok(StepOutcome::Halt));
    assert_eq!(c.pc, 0x200);
}

#[test]
fn mode_switch_instructions() {
    let mut c = rom(&[0x00, 0xFF, 0x00, 0xFE]);
    run(&mut c, 1);
    assert_eq!(c.vmode, VideoMode::Schip8);
    run(&mut c, 1);
    assert_eq!(c.vmode, VideoMode::Chip8);
    assert_eq!(c.pc, 0x204);
}

#[test]
fn draw_is_stubbed_in_extended_mode() {
    let mut c = rom(&[0x00, 0xFF, 0xA3, 0x00, 0xD0, 0x11]);
    c.load_byte_to_memory(0xFF, 0x300);
    run(&mut c, 3);
    assert!(c.display.iter().all(|&b| b == 0));
    assert!(!c.draw);
    assert_eq!(c.pc, 0x206);
}

#[test]
fn draw_out_of_bounds_rows() {
    // index = 0xFFF and a two-row sprite would read past memory
    let mut c = rom(&[0xAF, 0xFF, 0xD0, 0x12]);
    run(&mut c, 1);
    assert_eq!(c.cycle(), Err(Chip8Error::OutOfBounds));
    assert_eq!(c.pc, 0x202);
    assert!(!c.draw);
}
