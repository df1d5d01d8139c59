use ultra8::Chip8Error;
use ultra8::Cpu;
use ultra8::VideoMode;

fn rom(bytes: &[u8]) -> Cpu {
    let mut c = Cpu::init();
    c.load(bytes).unwrap();
    c
}

#[test]
fn init_state_is_pristine() {
    let c = Cpu::init();
    assert_eq!(c.pc, 0x200);
    assert_eq!(c.index, 0);
    assert_eq!(c.dt, 0);
    assert_eq!(c.stack.len(), 0);
    assert!(!c.draw);
    assert!(!c.keypressed);
    assert_eq!(c.vmode, VideoMode::Chip8);
    assert!(c.v.iter().all(|&b| b == 0));
    assert!(c.keypad.iter().all(|&b| b == 0));
    assert!(c.display.iter().all(|&b| b == 0));
    assert_eq!(c.v.len(), 16);
    assert_eq!(c.mem.len(), 4096);
    assert_eq!(c.display.len(), 64 * 32);
}

#[test]
fn init_writes_font_table() {
    let c = Cpu::init();
    // glyph 0 starts with 0xF0 and glyph F ends with 0x80
    assert_eq!(c.mem[0], 0xF0);
    assert_eq!(c.mem[4], 0xF0);
    assert_eq!(c.mem[5], 0x20);
    assert_eq!(c.mem[79], 0x80);
    assert!(c.mem[80..].iter().all(|&b| b == 0));
}

#[test]
fn load_copies_rom_at_0x200_and_keeps_fonts() {
    let c = rom(&[0xAB, 0xCD, 0xEF]);
    assert_eq!(c.mem[0x200], 0xAB);
    assert_eq!(c.mem[0x201], 0xCD);
    assert_eq!(c.mem[0x202], 0xEF);
    assert_eq!(c.mem[0x203], 0x00);
    assert_eq!(c.mem[0], 0xF0);
    assert_eq!(c.mem[79], 0x80);
}

#[test]
fn load_rejects_oversized_rom() {
    let mut c = Cpu::init();
    let big = vec![0x11u8; 3585];
    assert_eq!(c.load(&big), Err(Chip8Error::RomTooLarge));
    // untouched: no rom byte landed in memory
    assert_eq!(c.mem[0x200], 0);
    let fits = vec![0x22u8; 3584];
    assert_eq!(c.load(&fits), Ok(()));
    assert_eq!(c.mem[4095], 0x22);
}

#[test]
fn set_key_sets_one_latch() {
    let mut c = Cpu::init();
    c.set_key(5, 1);
    assert_eq!(c.keypad[5], 1);
    assert!(c.keypad.iter().enumerate().all(|(i, &b)| i == 5 || b == 0));
    c.set_key(5, 0);
    assert_eq!(c.keypad[5], 0);
}

#[test]
fn load_byte_to_memory_writes_one_byte() {
    let mut c = Cpu::init();
    c.load_byte_to_memory(0x77, 0x300);
    assert_eq!(c.mem[0x300], 0x77);
}

#[test]
fn get_graphics_copies_framebuffer() {
    let mut c = rom(&[0x60, 3, 0x61, 0, 0xA3, 0x00, 0xD0, 0x11]);
    c.load_byte_to_memory(0x80, 0x300);
    for _ in 0..4 {
        c.cycle().unwrap();
    }
    let g = c.get_graphics();
    assert_eq!(g, c.display);
    assert_eq!(g[3], 1);
}

#[test]
fn tick_timer_decrements_to_zero_and_stops() {
    // F015 with v0 = 2 sets the delay timer
    let mut c = rom(&[0x60, 0x02, 0xF0, 0x15]);
    c.cycle().unwrap();
    c.cycle().unwrap();
    assert_eq!(c.dt, 2);
    c.tick_timer();
    assert_eq!(c.dt, 1);
    c.tick_timer();
    assert_eq!(c.dt, 0);
    c.tick_timer();
    assert_eq!(c.dt, 0);
}

#[test]
fn cycle_does_not_touch_delay_timer() {
    let mut c = rom(&[0x60, 0x07, 0xF0, 0x15, 0x60, 0x01, 0x60, 0x02]);
    for _ in 0..4 {
        c.cycle().unwrap();
    }
    // two more cycles ran after the timer was set; only tick_timer decrements
    assert_eq!(c.dt, 7);
}

#[test]
fn get_delay_timer_into_register() {
    // set dt from v0, then read it back into v5 (F507)
    let mut c = rom(&[0x60, 0x09, 0xF0, 0x15, 0xF5, 0x07]);
    for _ in 0..3 {
        c.cycle().unwrap();
    }
    assert_eq!(c.v[5], 9);
}

#[test]
fn fetch_past_end_of_memory_is_out_of_bounds() {
    // jump to 0xFFF: the next fetch needs bytes at 0xFFF and 0x1000
    let mut c = rom(&[0x1F, 0xFF]);
    c.cycle().unwrap();
    assert_eq!(c.pc, 0xFFF);
    assert_eq!(c.cycle(), Err(Chip8Error::OutOfBounds));
    assert_eq!(c.pc, 0xFFF);
}
