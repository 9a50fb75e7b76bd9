use chip8_core::chip8::Chip8;
use chip8_core::state::Chip8Error;
use chip8_core::timer::Timer;

fn boot(rom: &[u8]) -> Chip8 {
    let mut c = Chip8::new();
    c.load(rom).expect("program fits in memory");
    c
}

#[test]
fn new_machine_has_initial_state() {
    let c = Chip8::new();
    assert_eq!(c.pc, 0x200);
    assert_eq!(c.i_register, 0);
    assert_eq!(c.stack_ptr, 0);
    assert!(!c.draw_flag);
    assert!(c.v_register.iter().all(|&v| v == 0));
    assert!(c.screen.iter().all(|&p| !p));
    assert!(c.key.iter().all(|&k| !k));
    // The font table sits at 0x050 through 0x09F; outside it memory is zero.
    assert_eq!(c.memory[0x050], 0xF0);
    assert_eq!(c.memory[0x09F], 0x80);
    assert_eq!(c.memory[0x04F], 0x00);
    assert_eq!(c.memory[0x0A0], 0x00);
    assert_eq!(c.memory[0x200], 0x00);
}

#[test]
fn set_register_immediate_scenario() {
    let mut c = boot(&[0x60, 0x05]);
    c.tick().unwrap();
    assert_eq!(c.v_register[0], 5);
    assert_eq!(c.pc, 0x202);
}

#[test]
fn set_index_register_scenario() {
    let mut c = boot(&[0xA2, 0x0A]);
    c.tick().unwrap();
    assert_eq!(c.i_register, 0x20A);
    assert_eq!(c.pc, 0x202);
}

#[test]
fn call_then_return_scenario() {
    let mut c = boot(&[0x22, 0x04, 0x00, 0x00, 0x00, 0xEE]);
    c.tick().unwrap();
    assert_eq!(c.pc, 0x204);
    assert_eq!(c.stack_ptr, 1);
    c.tick().unwrap();
    assert_eq!(c.pc, 0x202);
    assert_eq!(c.stack_ptr, 0);
}

#[test]
fn sound_timer_counts_down_and_stops_at_zero() {
    let mut c = boot(&[0x60, 0x03, 0xF0, 0x18]);
    c.tick().unwrap();
    c.tick().unwrap();
    assert_eq!(c.timer.get_st(), 3);
    c.timer.tick();
    c.timer.tick();
    c.timer.tick();
    assert_eq!(c.timer.get_st(), 0);
    c.timer.tick();
    assert_eq!(c.timer.get_st(), 0);
}

#[test]
fn load_longer_than_program_memory_is_rejected_unchanged() {
    let mut c = Chip8::new();
    let rom = vec![0xAB; 3585];
    assert_eq!(c.load(&rom), Err(Chip8Error::LoadTooLarge));
    assert_eq!(c.memory[0x200], 0x00);
    assert_eq!(c.memory[0xFFF], 0x00);
    assert_eq!(c.pc, 0x200);
}

#[test]
fn load_of_exactly_program_memory_fits() {
    let mut c = Chip8::new();
    let rom = vec![0xCD; 3584];
    assert_eq!(c.load(&rom), Ok(()));
    assert_eq!(c.memory[0x200], 0xCD);
    assert_eq!(c.memory[0xFFF], 0xCD);
}

#[test]
fn seventeenth_nested_call_overflows_the_stack() {
    let mut c = boot(&[0x22, 0x00]);
    for _ in 0..16 {
        assert_eq!(c.tick(), Ok(()));
        assert_eq!(c.pc, 0x200);
    }
    assert_eq!(c.stack_ptr, 16);
    assert_eq!(c.tick(), Err(Chip8Error::StackOverflow));
    assert_eq!(c.pc, 0x200);
    assert_eq!(c.stack_ptr, 16);
}

#[test]
fn return_with_empty_stack_underflows() {
    let mut c = boot(&[0x00, 0xEE]);
    assert_eq!(c.tick(), Err(Chip8Error::StackUnderflow));
    assert_eq!(c.pc, 0x200);
    assert_eq!(c.stack_ptr, 0);
}

#[test]
fn bcd_beyond_memory_reports_address_overflow() {
    let mut c = boot(&[0xAF, 0xFF, 0xF0, 0x33]);
    assert_eq!(c.tick(), Ok(()));
    assert_eq!(c.i_register, 0xFFF);
    assert_eq!(c.tick(), Err(Chip8Error::AddressOverflow));
    assert_eq!(c.pc, 0x202);
    assert_eq!(c.memory[0xFFF], 0x00);
}

#[test]
fn fetch_past_memory_end_reports_address_overflow() {
    let mut c = boot(&[0x1F, 0xFF]);
    assert_eq!(c.tick(), Ok(()));
    assert_eq!(c.pc, 0xFFF);
    assert_eq!(c.tick(), Err(Chip8Error::AddressOverflow));
    assert_eq!(c.pc, 0xFFF);
}

#[test]
fn unknown_opcode_is_a_noop() {
    let mut c = boot(&[0xFF, 0xFF]);
    assert_eq!(c.tick(), Ok(()));
    assert_eq!(c.pc, 0x202);
    assert_eq!(c.opcode, 0xFFFF);
    assert!(c.v_register.iter().all(|&v| v == 0));
    assert_eq!(c.stack_ptr, 0);
}

#[test]
fn reset_restores_the_initial_state() {
    let mut c = boot(&[0x60, 0x2A, 0xA3, 0x00]);
    c.tick().unwrap();
    c.tick().unwrap();
    c.key[5] = true;
    c.reset();
    assert_eq!(c.pc, 0x200);
    assert_eq!(c.i_register, 0);
    assert_eq!(c.v_register[0], 0);
    assert_eq!(c.memory[0x200], 0);
    assert_eq!(c.memory[0x050], 0xF0);
    assert!(!c.key[5]);
    assert_eq!(c.timer.get_dt(), 0);
}

#[test]
fn timer_decrements_once_per_interval_and_never_underflows() {
    let mut t = Timer::new();
    t.set_dt(2);
    t.set_st(1);
    t.tick();
    assert_eq!(t.get_dt(), 1);
    assert_eq!(t.get_st(), 0);
    t.tick();
    assert_eq!(t.get_dt(), 0);
    assert_eq!(t.get_st(), 0);
    t.tick();
    assert_eq!(t.get_dt(), 0);
    assert_eq!(t.get_st(), 0);
}

#[test]
fn timer_set_and_get_round_trip() {
    let mut t = Timer::new();
    assert_eq!(t.get_dt(), 0);
    assert_eq!(t.get_st(), 0);
    t.set_dt(200);
    t.set_st(77);
    assert_eq!(t.get_dt(), 200);
    assert_eq!(t.get_st(), 77);
}

#[test]
fn instruction_cycles_do_not_decrement_timers() {
    let mut c = boot(&[0x60, 0x01, 0x70, 0x01, 0x61, 0x02, 0x81, 0x04]);
    c.timer.set_dt(5);
    c.timer.set_st(4);
    for _ in 0..4 {
        c.tick().unwrap();
    }
    assert_eq!(c.timer.get_dt(), 5);
    assert_eq!(c.timer.get_st(), 4);
}

#[test]
fn wait_key_stalls_until_a_key_is_pressed() {
    let mut c = boot(&[0xF0, 0x0A]);
    c.tick().unwrap();
    assert_eq!(c.pc, 0x200);
    c.tick().unwrap();
    assert_eq!(c.pc, 0x200);
    c.key[7] = true;
    c.tick().unwrap();
    assert_eq!(c.pc, 0x202);
}

#[test]
fn random_result_is_masked_by_the_immediate() {
    let mut c = boot(&[0xC0, 0x00, 0xC1, 0x0F]);
    c.tick().unwrap();
    assert_eq!(c.v_register[0], 0);
    c.tick().unwrap();
    assert!(c.v_register[1] <= 0x0F);
}
