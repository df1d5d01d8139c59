use ultra8::Chip8Error;
use ultra8::Cpu;

fn rom(bytes: &[u8]) -> Cpu {
    let mut c = Cpu::init();
    c.load(bytes).unwrap();
    c
}

fn run(c: &mut Cpu, n: usize) {
    for _ in 0..n {
        c.cycle().unwrap();
    }
}

#[test]
fn add_immediate_wraps_back_to_original() {
    // v0 = 42; add 7; add 256 - 7
    let mut c = rom(&[0x60, 42, 0x70, 7, 0x70, 249]);
    run(&mut c, 3);
    assert_eq!(c.v[0], 42);
    assert_eq!(c.pc, 0x206);
    // and across the wrap: 200 + 100 = 44 (mod 256), + 156 back to 200
    let mut d = rom(&[0x60, 200, 0x70, 100, 0x70, 156]);
    run(&mut d, 2);
    assert_eq!(d.v[0], 44);
    run(&mut d, 1);
    assert_eq!(d.v[0], 200);
}

#[test]
fn double_draw_restores_pixels_and_reports_first_draw() {
    // draw the same one-row sprite twice at (3, 5)
    let mut c = rom(&[0x60, 3, 0x61, 5, 0xA3, 0x00, 0xD0, 0x11, 0xD0, 0x11]);
    c.load_byte_to_memory(0b1010_0001, 0x300);
    run(&mut c, 4);
    let after_first = c.get_graphics();
    assert_eq!(after_first[5 * 64 + 3], 1);
    assert_eq!(after_first[5 * 64 + 5], 1);
    assert_eq!(after_first[5 * 64 + 10], 1);
    assert_eq!(c.v[15], 0);
    run(&mut c, 1);
    // pixels XORed twice are back to their prior (clear) state
    assert!(c.display.iter().all(|&b| b == 0));
    // the second draw collides exactly with what the first switched on
    assert_eq!(c.v[15], 1);
}

#[test]
fn nested_calls_and_returns_restore_call_sites() {
    let mut c = rom(&[0x23, 0x00]);
    // at 0x300: call 0x400; at 0x302: return
    c.load_byte_to_memory(0x24, 0x300);
    c.load_byte_to_memory(0x00, 0x301);
    c.load_byte_to_memory(0x00, 0x302);
    c.load_byte_to_memory(0xEE, 0x303);
    // at 0x400: return
    c.load_byte_to_memory(0x00, 0x400);
    c.load_byte_to_memory(0xEE, 0x401);
    run(&mut c, 1);
    assert_eq!(c.pc, 0x300);
    assert_eq!(c.stack.len(), 1);
    run(&mut c, 1);
    assert_eq!(c.pc, 0x400);
    assert_eq!(c.stack.len(), 2);
    run(&mut c, 1);
    // first return resumes just past its call site at 0x300
    assert_eq!(c.pc, 0x302);
    assert_eq!(c.stack.len(), 1);
    run(&mut c, 1);
    // second return resumes just past the original call site at 0x200
    assert_eq!(c.pc, 0x202);
    assert_eq!(c.stack.len(), 0);
}

#[test]
fn seventeenth_nested_call_overflows_the_stack() {
    // 0x2200 calls address 0x200 itself, nesting without end
    let mut c = rom(&[0x22, 0x00]);
    for depth in 1..=16u16 {
        c.cycle().unwrap();
        assert_eq!(c.stack.len(), depth as usize);
    }
    assert_eq!(c.cycle(), Err(Chip8Error::StackOverflow));
    assert_eq!(c.stack.len(), 16);
    assert_eq!(c.pc, 0x200);
}

#[test]
fn return_with_empty_stack_underflows() {
    let mut c = rom(&[0x00, 0xEE]);
    assert_eq!(c.cycle(), Err(Chip8Error::StackUnderflow));
    assert_eq!(c.pc, 0x200);
}

#[test]
fn wait_for_key_suspends_until_a_latch_is_set() {
    let mut c = rom(&[0xF3, 0x0A]);
    for _ in 0..3 {
        c.cycle().unwrap();
        assert_eq!(c.pc, 0x200);
        assert!(!c.keypressed);
    }
    c.set_key(7, 1);
    c.cycle().unwrap();
    assert_eq!(c.pc, 0x202);
    assert!(c.keypressed);
    assert_eq!(c.v[3], 7);
}

#[test]
fn wait_for_key_reports_highest_pressed_latch() {
    let mut c = rom(&[0xF0, 0x0A]);
    c.set_key(3, 1);
    c.set_key(9, 1);
    c.cycle().unwrap();
    assert_eq!(c.v[0], 9);
    assert_eq!(c.pc, 0x202);
}

#[test]
fn load_then_add_two_cycles() {
    // load 0x0A into v0, add 5; the trailing 0x0000 never runs
    let mut c = rom(&[0x60, 0x0A, 0x70, 0x05, 0x00, 0x00]);
    run(&mut c, 2);
    assert_eq!(c.v[0], 0x0F);
    assert_eq!(c.pc, 0x204);
    // the third word is undefined and is reported, not executed
    assert_eq!(c.cycle(), Err(Chip8Error::UnknownOpcode(0x0000)));
}

#[test]
fn sprite_wraps_around_the_bottom_edge() {
    // a two-row sprite drawn at (0, 31): second row wraps to the top
    let mut c = rom(&[0x60, 0, 0x61, 31, 0xA3, 0x00, 0xD0, 0x12]);
    c.load_byte_to_memory(0x80, 0x300);
    c.load_byte_to_memory(0x80, 0x301);
    run(&mut c, 4);
    assert_eq!(c.display[31 * 64], 1);
    assert_eq!(c.display[0], 1);
    assert_eq!(c.v[15], 0);
}

#[test]
fn overlapping_draw_sets_collision_and_clears_pixel() {
    // draw one pixel at (0, 0) twice via two separate one-bit sprites
    let mut c = rom(&[0x60, 0, 0x61, 0, 0xA3, 0x00, 0xD0, 0x11, 0xA3, 0x01, 0xD0, 0x11]);
    c.load_byte_to_memory(0x80, 0x300);
    c.load_byte_to_memory(0x80, 0x301);
    run(&mut c, 6);
    assert_eq!(c.display[0], 0);
    assert_eq!(c.v[15], 1);
}

#[test]
fn sprite_wraps_around_the_right_edge() {
    // an 8x1 sprite of 0xFF drawn at (60, 0)
    let mut c = rom(&[0x60, 60, 0x61, 0, 0xA3, 0x00, 0xD0, 0x11]);
    c.load_byte_to_memory(0xFF, 0x300);
    run(&mut c, 4);
    for x in 60..64 {
        assert_eq!(c.display[x], 1, "pixel {} should be set", x);
    }
    for x in 0..4 {
        assert_eq!(c.display[x], 1, "wrapped pixel {} should be set", x);
    }
    for x in 4..60 {
        assert_eq!(c.display[x], 0, "pixel {} should be clear", x);
    }
    assert!(c.display[64..].iter().all(|&b| b == 0));
    assert_eq!(c.v[15], 0);
    assert!(c.draw);
}
