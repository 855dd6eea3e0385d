use chippy::Chippy;
use chippy::LoadError;
use chippy::Mode;

#[test]
fn load_installs_font_and_program() {
    let mut m = Chippy::new();
    let rom = vec![0x12u8, 0x34, 0x56];
    m.load_rom(&rom).unwrap();
    assert_eq!(&m.memory[0..5], &[0xF0, 0x90, 0x90, 0x90, 0xF0]);
    assert_eq!(&m.memory[75..80], &[0xF0, 0x80, 0xF0, 0x80, 0x80]);
    assert!(m.memory[80..512].iter().all(|&b| b == 0));
    assert_eq!(&m.memory[0x200..0x203], &[0x12, 0x34, 0x56]);
    assert!(m.memory[0x203..].iter().all(|&b| b == 0));
    assert_eq!(m.pc, 0x200);
}

#[test]
fn load_accepts_a_full_window() {
    let mut m = Chippy::new();
    let rom = vec![0xABu8; 3584];
    assert_eq!(m.load_rom(&rom), Ok(()));
    assert_eq!(m.memory[0x200], 0xAB);
    assert_eq!(m.memory[4095], 0xAB);
}

#[test]
fn load_rejects_an_oversized_rom() {
    let mut m = Chippy::new();
    let rom = vec![0xABu8; 3585];
    assert_eq!(m.load_rom(&rom), Err(LoadError::RomTooLarge));
    assert!(m.memory.iter().all(|&b| b == 0));
    assert!(m.v.iter().all(|&b| b == 0));
    assert_eq!(m.i, 0);
    assert_eq!(m.pc, 0x200);
    assert_eq!(m.sp, 0);
    assert_eq!(m.delay_timer, 0);
    assert_eq!(m.sound_timer, 0);
    assert_eq!(m.mode, Mode::Running);
    assert!(m.display.iter().all(|&p| p == 0));
}

#[test]
fn loaded_glyphs_are_addressable() {
    let mut m = Chippy::new();
    m.load_rom(&vec![0xF0u8, 0x29]).unwrap();
    m.v[0] = 3;
    m.step().unwrap();
    assert_eq!(m.i, 15);
    assert_eq!(&m.memory[15..20], &[0xF0, 0x10, 0xF0, 0x10, 0xF0]);
}
