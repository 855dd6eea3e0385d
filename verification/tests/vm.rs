use chippy::Chippy;
use chippy::Mode;
use chippy::StepError;

fn put_op(m: &mut Chippy, addr: usize, op: u16) {
    m.memory[addr] = (op >> 8) as u8;
    m.memory[addr + 1] = (op & 0xFF) as u8;
}

fn fresh_with_op(op: u16) -> Chippy {
    let mut m = Chippy::new();
    put_op(&mut m, 0x200, op);
    m
}

#[test]
fn new_initial_state() {
    let m = Chippy::new();
    assert_eq!(m.pc, 0x200);
    assert_eq!(m.i, 0);
    assert_eq!(m.sp, 0);
    assert_eq!(m.delay_timer, 0);
    assert_eq!(m.sound_timer, 0);
    assert_eq!(m.mode, Mode::Running);
    assert!(m.memory.iter().all(|&b| b == 0));
    assert!(m.v.iter().all(|&b| b == 0));
    assert!(m.stack.iter().all(|&w| w == 0));
    assert!(m.keypad.iter().all(|&k| !k));
    assert!(m.display.iter().all(|&p| p == 0));
}

#[test]
fn alu_add_sets_carry() {
    let mut m = fresh_with_op(0x8014);
    m.v[0] = 0xFF;
    m.v[1] = 0x01;
    m.step().unwrap();
    assert_eq!(m.v[0], 0x00);
    assert_eq!(m.v[0xF], 1);
    assert_eq!(m.pc, 0x202);

    let mut m = fresh_with_op(0x8014);
    m.v[0] = 0x10;
    m.v[1] = 0x20;
    m.step().unwrap();
    assert_eq!(m.v[0], 0x30);
    assert_eq!(m.v[0xF], 0);
}

#[test]
fn alu_sub_sets_not_borrow() {
    let mut m = fresh_with_op(0x8015);
    m.v[0] = 0x01;
    m.v[1] = 0x02;
    m.step().unwrap();
    assert_eq!(m.v[0], 0xFF);
    assert_eq!(m.v[0xF], 0);

    let mut m = fresh_with_op(0x8015);
    m.v[0] = 5;
    m.v[1] = 3;
    m.step().unwrap();
    assert_eq!(m.v[0], 2);
    assert_eq!(m.v[0xF], 1);
}

#[test]
fn alu_subn_sets_not_borrow() {
    let mut m = fresh_with_op(0x8017);
    m.v[0] = 3;
    m.v[1] = 5;
    m.step().unwrap();
    assert_eq!(m.v[0], 2);
    assert_eq!(m.v[0xF], 1);

    let mut m = fresh_with_op(0x8017);
    m.v[0] = 5;
    m.v[1] = 3;
    m.step().unwrap();
    assert_eq!(m.v[0], 0xFE);
    assert_eq!(m.v[0xF], 0);
}

#[test]
fn alu_shr_reports_shifted_bit() {
    let mut m = fresh_with_op(0x8006);
    m.v[0] = 0x81;
    m.step().unwrap();
    assert_eq!(m.v[0], 0x40);
    assert_eq!(m.v[0xF], 1);
}

#[test]
fn alu_shl_reports_shifted_bit() {
    let mut m = fresh_with_op(0x800E);
    m.v[0] = 0x81;
    m.step().unwrap();
    assert_eq!(m.v[0], 0x02);
    assert_eq!(m.v[0xF], 1);
}

#[test]
fn alu_bitwise_and_move() {
    let mut m = fresh_with_op(0x8010);
    m.v[1] = 0xAB;
    m.step().unwrap();
    assert_eq!(m.v[0], 0xAB);

    let mut m = fresh_with_op(0x8011);
    m.v[0] = 0xF0;
    m.v[1] = 0x0F;
    m.step().unwrap();
    assert_eq!(m.v[0], 0xFF);

    let mut m = fresh_with_op(0x8012);
    m.v[0] = 0xF3;
    m.v[1] = 0x0F;
    m.step().unwrap();
    assert_eq!(m.v[0], 0x03);

    let mut m = fresh_with_op(0x8013);
    m.v[0] = 0xFF;
    m.v[1] = 0x0F;
    m.step().unwrap();
    assert_eq!(m.v[0], 0xF0);
}

#[test]
fn add_imm_wraps_without_flag() {
    let mut m = fresh_with_op(0x7002);
    m.v[0] = 0xFF;
    m.v[0xF] = 0x55;
    m.step().unwrap();
    assert_eq!(m.v[0], 0x01);
    assert_eq!(m.v[0xF], 0x55);
}

#[test]
fn load_imm_and_load_index() {
    let mut m = fresh_with_op(0x6A42);
    m.step().unwrap();
    assert_eq!(m.v[0xA], 0x42);

    let mut m = fresh_with_op(0xA123);
    m.step().unwrap();
    assert_eq!(m.i, 0x123);
    assert_eq!(m.pc, 0x202);
}

#[test]
fn bcd_stores_decimal_digits() {
    let mut m = fresh_with_op(0xF033);
    m.v[0] = 156;
    m.i = 0x300;
    m.step().unwrap();
    assert_eq!(m.memory[0x300], 1);
    assert_eq!(m.memory[0x301], 5);
    assert_eq!(m.memory[0x302], 6);
    assert_eq!(m.pc, 0x202);
}

#[test]
fn draw_twice_collides_and_clears() {
    let mut m = Chippy::new();
    put_op(&mut m, 0x200, 0xD011);
    put_op(&mut m, 0x202, 0xD011);
    m.memory[0x400] = 0x80;
    m.i = 0x400;
    m.v[0] = 5;
    m.v[1] = 7;
    m.step().unwrap();
    assert_eq!(m.pixel(5, 7), 1);
    assert_eq!(m.v[0xF], 0);
    m.step().unwrap();
    assert_eq!(m.pixel(5, 7), 0);
    assert_eq!(m.v[0xF], 1);
}

#[test]
fn draw_wraps_around_last_column() {
    let mut m = fresh_with_op(0xD011);
    m.memory[0x400] = 0xC0;
    m.i = 0x400;
    m.v[0] = 63;
    m.v[1] = 4;
    m.step().unwrap();
    assert_eq!(m.pixel(63, 4), 1);
    assert_eq!(m.pixel(0, 4), 1);
    assert_eq!(m.pixel(62, 4), 0);
    assert_eq!(m.pixel(1, 4), 0);
    assert_eq!(m.v[0xF], 0);
}

#[test]
fn draw_zero_rows_draws_nothing() {
    let mut m = fresh_with_op(0xD010);
    m.v[0xF] = 1;
    m.step().unwrap();
    assert!(m.display.iter().all(|&p| p == 0));
    assert_eq!(m.v[0xF], 0);
    assert_eq!(m.pc, 0x202);
}

#[test]
fn clear_screen_resets_display() {
    let mut m = fresh_with_op(0x00E0);
    m.display[0] = 1;
    m.display[2047] = 1;
    m.step().unwrap();
    assert!(m.display.iter().all(|&p| p == 0));
    assert_eq!(m.pc, 0x202);
}

#[test]
fn wait_key_is_idempotent_until_pressed() {
    let mut m = fresh_with_op(0xF10A);
    m.step().unwrap();
    assert_eq!(m.pc, 0x200);
    assert_eq!(m.mode, Mode::AwaitingKey { target: 1 });
    let before_v = m.v.clone();
    let before_mem = m.memory.clone();
    for _ in 0..5 {
        m.step().unwrap();
        assert_eq!(m.pc, 0x200);
        assert_eq!(m.mode, Mode::AwaitingKey { target: 1 });
        assert_eq!(m.v, before_v);
        assert_eq!(m.memory, before_mem);
        assert_eq!(m.i, 0);
        assert_eq!(m.sp, 0);
    }
    m.set_key(0xA, true);
    m.step().unwrap();
    assert_eq!(m.v[1], 0xA);
    assert_eq!(m.pc, 0x202);
    assert_eq!(m.mode, Mode::Running);
}

#[test]
fn wait_key_completes_at_once_when_pressed() {
    let mut m = fresh_with_op(0xF20A);
    m.set_key(3, true);
    m.set_key(7, true);
    m.step().unwrap();
    assert_eq!(m.v[2], 3);
    assert_eq!(m.pc, 0x202);
    assert_eq!(m.mode, Mode::Running);
}

#[test]
fn timers_move_only_with_ticks() {
    let mut m = fresh_with_op(0x1200);
    m.delay_timer = 5;
    m.sound_timer = 5;
    for _ in 0..10_000 {
        m.step().unwrap();
        assert_eq!(m.pc, 0x200);
    }
    assert_eq!(m.delay_timer, 5);
    assert_eq!(m.sound_timer, 5);
    m.tick_timers();
    assert_eq!(m.delay_timer, 4);
    assert_eq!(m.sound_timer, 4);
    for _ in 0..4 {
        assert!(m.sound_active());
        m.tick_timers();
    }
    assert_eq!(m.delay_timer, 0);
    assert_eq!(m.sound_timer, 0);
    assert!(!m.sound_active());
    m.tick_timers();
    assert_eq!(m.delay_timer, 0);
    assert_eq!(m.sound_timer, 0);
}

#[test]
fn store_then_load_restores_registers() {
    let mut m = Chippy::new();
    put_op(&mut m, 0x200, 0xF355);
    put_op(&mut m, 0x202, 0xF365);
    m.i = 0x300;
    m.v[0] = 1;
    m.v[1] = 2;
    m.v[2] = 3;
    m.v[3] = 4;
    m.step().unwrap();
    assert_eq!(&m.memory[0x300..0x304], &[1, 2, 3, 4]);
    for j in 0..4 {
        m.v[j] = 0;
    }
    m.step().unwrap();
    assert_eq!(m.v[0], 1);
    assert_eq!(m.v[1], 2);
    assert_eq!(m.v[2], 3);
    assert_eq!(m.v[3], 4);
    assert_eq!(m.pc, 0x204);
}

#[test]
fn call_and_return() {
    let mut m = fresh_with_op(0x2ABC);
    put_op(&mut m, 0xABC, 0x00EE);
    m.step().unwrap();
    assert_eq!(m.pc, 0xABC);
    assert_eq!(m.sp, 1);
    assert_eq!(m.stack[0], 0x202);
    m.step().unwrap();
    assert_eq!(m.pc, 0x202);
    assert_eq!(m.sp, 0);
}

#[test]
fn call_on_full_stack_is_an_error() {
    let mut m = fresh_with_op(0x2ABC);
    m.sp = 16;
    assert_eq!(m.step(), Err(StepError::StackOverflow));
    assert_eq!(m.pc, 0x200);
    assert_eq!(m.sp, 16);
}

#[test]
fn return_on_empty_stack_is_an_error() {
    let mut m = fresh_with_op(0x00EE);
    assert_eq!(m.step(), Err(StepError::StackUnderflow));
    assert_eq!(m.pc, 0x200);
    assert_eq!(m.sp, 0);
}

#[test]
fn fetch_past_memory_is_an_error() {
    let mut m = Chippy::new();
    m.pc = 4095;
    assert_eq!(m.step(), Err(StepError::MemoryOutOfRange));
    assert_eq!(m.pc, 4095);
}

#[test]
fn memory_operands_past_memory_are_errors() {
    let mut m = fresh_with_op(0xD012);
    m.i = 4095;
    assert_eq!(m.step(), Err(StepError::MemoryOutOfRange));
    assert_eq!(m.pc, 0x200);

    let mut m = fresh_with_op(0xF033);
    m.i = 4094;
    assert_eq!(m.step(), Err(StepError::MemoryOutOfRange));

    let mut m = fresh_with_op(0xFF55);
    m.i = 4081;
    assert_eq!(m.step(), Err(StepError::MemoryOutOfRange));

    let mut m = fresh_with_op(0xFF65);
    m.i = 4081;
    assert_eq!(m.step(), Err(StepError::MemoryOutOfRange));
}

#[test]
fn skip_instructions_take_both_branches() {
    let mut m = fresh_with_op(0x3042);
    m.v[0] = 0x42;
    m.step().unwrap();
    assert_eq!(m.pc, 0x204);

    let mut m = fresh_with_op(0x3042);
    m.v[0] = 0x41;
    m.step().unwrap();
    assert_eq!(m.pc, 0x202);

    let mut m = fresh_with_op(0x4042);
    m.v[0] = 0x41;
    m.step().unwrap();
    assert_eq!(m.pc, 0x204);

    let mut m = fresh_with_op(0x5010);
    m.v[0] = 7;
    m.v[1] = 7;
    m.step().unwrap();
    assert_eq!(m.pc, 0x204);

    let mut m = fresh_with_op(0x9010);
    m.v[0] = 7;
    m.v[1] = 8;
    m.step().unwrap();
    assert_eq!(m.pc, 0x204);

    let mut m = fresh_with_op(0x9010);
    m.v[0] = 7;
    m.v[1] = 7;
    m.step().unwrap();
    assert_eq!(m.pc, 0x202);
}

#[test]
fn key_skips_follow_keypad() {
    let mut m = fresh_with_op(0xE09E);
    m.v[0] = 0xB;
    m.set_key(0xB, true);
    m.step().unwrap();
    assert_eq!(m.pc, 0x204);

    let mut m = fresh_with_op(0xE09E);
    m.v[0] = 0xB;
    m.step().unwrap();
    assert_eq!(m.pc, 0x202);

    let mut m = fresh_with_op(0xE0A1);
    m.v[0] = 0xB;
    m.step().unwrap();
    assert_eq!(m.pc, 0x204);

    let mut m = fresh_with_op(0xE0A1);
    m.v[0] = 0xB;
    m.set_key(0xB, true);
    m.step().unwrap();
    assert_eq!(m.pc, 0x202);
}

#[test]
fn jumps_set_pc_directly() {
    let mut m = fresh_with_op(0x1ABC);
    m.step().unwrap();
    assert_eq!(m.pc, 0xABC);

    let mut m = fresh_with_op(0xBABC);
    m.v[0] = 0x10;
    m.step().unwrap();
    assert_eq!(m.pc, 0xACC);
}

#[test]
fn timer_instructions_transfer_values() {
    let mut m = fresh_with_op(0xF007);
    m.delay_timer = 0x42;
    m.step().unwrap();
    assert_eq!(m.v[0], 0x42);

    let mut m = fresh_with_op(0xF015);
    m.v[0] = 0x21;
    m.step().unwrap();
    assert_eq!(m.delay_timer, 0x21);

    let mut m = fresh_with_op(0xF018);
    m.v[0] = 0x21;
    m.step().unwrap();
    assert_eq!(m.sound_timer, 0x21);
    assert!(m.sound_active());
}

#[test]
fn add_index_wraps_at_sixteen_bits() {
    let mut m = fresh_with_op(0xF01E);
    m.i = 0x0FF0;
    m.v[0] = 0x20;
    m.step().unwrap();
    assert_eq!(m.i, 0x1010);

    let mut m = fresh_with_op(0xF01E);
    m.i = 0xFFFF;
    m.v[0] = 2;
    m.step().unwrap();
    assert_eq!(m.i, 1);
}

#[test]
fn glyph_address_is_five_bytes_per_glyph() {
    let mut m = fresh_with_op(0xF029);
    m.v[0] = 0xA;
    m.step().unwrap();
    assert_eq!(m.i, 50);
}

#[test]
fn random_byte_is_masked() {
    let mut m = fresh_with_op(0xC000);
    m.v[0] = 0x77;
    m.step().unwrap();
    assert_eq!(m.v[0], 0);

    for _ in 0..32 {
        let mut m = fresh_with_op(0xC00F);
        m.step().unwrap();
        assert!(m.v[0] <= 0x0F);
    }
}

#[test]
fn unknown_opcodes_are_skipped() {
    let mut m = fresh_with_op(0xFFFF);
    m.step().unwrap();
    assert_eq!(m.pc, 0x202);
    assert!(m.v.iter().all(|&b| b == 0));

    let mut m = fresh_with_op(0x5011);
    m.step().unwrap();
    assert_eq!(m.pc, 0x202);

    let mut m = fresh_with_op(0x0123);
    m.step().unwrap();
    assert_eq!(m.pc, 0x202);
}
