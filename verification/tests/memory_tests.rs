use chip8::memory::{Display, LoadError, Memory};
use chip8::{DISPLAY_HEIGHT, DISPLAY_WIDTH, RAM_SIZE};

#[test]
fn display_insert() {
    let mut display = Display::new();

    display.xor_plot(0, 0, 1);
    assert_eq!(display.display[0], 1);
    display.xor_plot(4, 0, 1);
    assert_eq!(display.display[4], 1);
    display.xor_plot(0, 4, 1);
    assert_eq!(display.display[4 * DISPLAY_WIDTH], 1);
    display.xor_plot(4, 4, 1);
    assert_eq!(display.display[4 * DISPLAY_WIDTH + 4], 1);
}

#[test]
fn display_index() {
    let mut display = Display::new();

    display.display[0] = 1;
    assert_eq!(display.get(0, 0), 1);
    display.display[4] = 1;
    assert_eq!(display.get(4, 0), 1);
    display.display[4 * DISPLAY_WIDTH] = 1;
    assert_eq!(display.get(0, 4), 1);
    display.display[4 * DISPLAY_WIDTH + 4] = 1;
    assert_eq!(display.get(4, 4), 1);
}

#[test]
fn display_sizes_and_clear() {
    let mut display = Display::new();
    assert_eq!(display.get_sizes(), (DISPLAY_WIDTH, DISPLAY_HEIGHT));
    display.xor_plot(10, 10, 1);
    display.xor_plot(63, 31, 1);
    display.clear();
    for cell in display.display.iter() {
        assert_eq!(*cell, 0);
    }
}

#[test]
fn xor_plot_reports_collision_only_on_set_bits() {
    let mut display = Display::new();
    assert_eq!(display.xor_plot(3, 2, 1), false);
    assert_eq!(display.get(3, 2), 1);
    // a zero bit over a set cell is no collision and changes nothing
    assert_eq!(display.xor_plot(3, 2, 0), false);
    assert_eq!(display.get(3, 2), 1);
    // a set bit over a set cell collides and turns the cell off
    assert_eq!(display.xor_plot(3, 2, 1), true);
    assert_eq!(display.get(3, 2), 0);
}

#[test]
fn memory_new_seeds_font() {
    let mem = Memory::new();
    // glyph 0 starts at address 0, glyph 1 at address 5
    assert_eq!(mem.memory[0], 0xF0);
    assert_eq!(mem.memory[1], 0x90);
    assert_eq!(mem.memory[4], 0xF0);
    assert_eq!(mem.memory[5], 0x20);
    assert_eq!(mem.memory[79], 0x80);
    for address in 80..RAM_SIZE {
        assert_eq!(mem.memory[address], 0);
    }
}

#[test]
fn load_places_image_at_program_start() {
    let mut mem = Memory::new();
    let image = vec![0xAA, 0xBB, 0xCC];
    assert_eq!(mem.load(&image), Ok(()));
    assert_eq!(mem.memory[0x200], 0xAA);
    assert_eq!(mem.memory[0x201], 0xBB);
    assert_eq!(mem.memory[0x202], 0xCC);
    assert_eq!(mem.memory[0x1FF], 0);
    assert_eq!(mem.memory[0x203], 0);
}

#[test]
fn load_exact_fit_succeeds() {
    let mut mem = Memory::new();
    let image = vec![0x42; RAM_SIZE - 0x200];
    assert_eq!(mem.load(&image), Ok(()));
    assert_eq!(mem.memory[0x200], 0x42);
    assert_eq!(mem.memory[RAM_SIZE - 1], 0x42);
}

#[test]
fn load_one_byte_too_large_fails_without_mutation() {
    let mut mem = Memory::new();
    let image = vec![0x42; RAM_SIZE - 0x200 + 1];
    assert_eq!(mem.load(&image), Err(LoadError::SizeExceeded));
    for address in 0x200..RAM_SIZE {
        assert_eq!(mem.memory[address], 0);
    }
    assert_eq!(mem.memory[0], 0xF0);
}
