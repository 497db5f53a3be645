use chip8::opcode::{Addr, Byte, Fault, OpCode, V};
use chip8::vm::VM;

#[test]
fn skip_that_fires_advances_four_from_prefetch() {
    // SE V0, 0 at the entry: V0 is 0, so the skip fires.
    let mut vm = VM::new();
    vm.load_program(&vec![0x30, 0x00]).unwrap();
    assert_eq!(vm.program_counter(), 0x200);
    vm.step().unwrap();
    assert_eq!(vm.program_counter(), 0x204);
}

#[test]
fn skip_that_does_not_fire_advances_two() {
    // SE V0, 5: V0 is 0, so the skip does not fire.
    let mut vm = VM::new();
    vm.load_program(&vec![0x30, 0x05]).unwrap();
    vm.step().unwrap();
    assert_eq!(vm.program_counter(), 0x202);
}

#[test]
fn skip_not_equal_register_fires_on_difference() {
    let mut vm = VM::new();
    vm.execute(OpCode::Load(V(1), Byte(9))).unwrap();
    vm.load_program(&vec![0x90, 0x10]).unwrap();
    vm.step().unwrap();
    assert_eq!(vm.program_counter(), 0x204);
}

#[test]
fn call_then_return_resumes_after_the_call() {
    // 0x200: CALL 0x204; 0x202: (next instruction); 0x204: RET.
    let mut vm = VM::new();
    vm.load_program(&vec![0x22, 0x04, 0x00, 0x00, 0x00, 0xEE]).unwrap();
    vm.step().unwrap();
    assert_eq!(vm.program_counter(), 0x204);
    assert_eq!(vm.stack_pointer(), 1);
    vm.step().unwrap();
    assert_eq!(vm.program_counter(), 0x202);
    assert_eq!(vm.stack_pointer(), 0);
}

#[test]
fn sixteen_calls_fit_and_the_seventeenth_faults() {
    let mut vm = VM::new();
    for _ in 0..16 {
        assert_eq!(vm.execute(OpCode::Call(Addr(0x300))), Ok(()));
    }
    assert_eq!(vm.stack_pointer(), 16);
    assert_eq!(vm.execute(OpCode::Call(Addr(0x300))), Err(Fault::Stack));
    assert_eq!(vm.stack_pointer(), 16);
}

#[test]
fn return_on_an_empty_stack_faults() {
    let mut vm = VM::new();
    assert_eq!(vm.execute(OpCode::Return), Err(Fault::Stack));
    assert_eq!(vm.stack_pointer(), 0);
    assert_eq!(vm.program_counter(), 0x200);
}

#[test]
fn step_faults_on_undecodable_word() {
    let mut vm = VM::new();
    vm.load_program(&vec![0xFF, 0xFF]).unwrap();
    assert_eq!(vm.step(), Err(Fault::Decode));
}

#[test]
fn step_faults_when_fetching_past_memory() {
    let mut vm = VM::new();
    vm.execute(OpCode::Jump(Addr(0xFFF))).unwrap();
    assert_eq!(vm.step(), Err(Fault::Memory));
    assert_eq!(vm.program_counter(), 0xFFF);
}

#[test]
fn load_program_rejects_an_oversized_image() {
    let mut vm = VM::new();
    let image = vec![0u8; 4096 - 0x200 + 1];
    assert_eq!(vm.load_program(&image), Err(Fault::Memory));
    let image = vec![0xAAu8; 4096 - 0x200];
    assert_eq!(vm.load_program(&image), Ok(()));
    assert_eq!(vm.memory_byte(0x200), 0xAA);
    assert_eq!(vm.memory_byte(0xFFF), 0xAA);
    // The reserved low region still holds the font, not the image.
    assert_eq!(vm.memory_byte(0), 0xF0);
}

#[test]
fn tick_timers_decrements_but_never_below_zero() {
    let mut vm = VM::new();
    assert_eq!(vm.delay_timer(), 0);
    assert_eq!(vm.sound_timer(), 0);
    vm.tick_timers();
    assert_eq!(vm.delay_timer(), 0);
    assert_eq!(vm.sound_timer(), 0);
    vm.execute(OpCode::Load(V(0), Byte(2))).unwrap();
    vm.execute(OpCode::SetDelayTimer(V(0))).unwrap();
    vm.execute(OpCode::SetSoundTimer(V(0))).unwrap();
    vm.tick_timers();
    assert_eq!(vm.delay_timer(), 1);
    assert_eq!(vm.sound_timer(), 1);
    vm.tick_timers();
    vm.tick_timers();
    assert_eq!(vm.delay_timer(), 0);
    assert_eq!(vm.sound_timer(), 0);
}

#[test]
fn draw_twice_erases_and_reports_collision() {
    // Draw the glyph for digit 0 (five non-empty rows at address 0).
    let mut vm = VM::new();
    vm.execute(OpCode::SetIndex(Addr(0))).unwrap();
    vm.execute(OpCode::Load(V(0), Byte(4))).unwrap();
    vm.execute(OpCode::Load(V(1), Byte(3))).unwrap();
    vm.execute(OpCode::Draw(V(0), V(1), 5)).unwrap();
    assert_eq!(vm.register(0xF), 0);
    // The glyph's top row is 0xF0: four lit pixels from (4, 3).
    assert!(vm.pixel(4, 3));
    assert!(vm.pixel(5, 3));
    assert!(vm.pixel(6, 3));
    assert!(vm.pixel(7, 3));
    assert!(!vm.pixel(8, 3));
    vm.execute(OpCode::Draw(V(0), V(1), 5)).unwrap();
    assert_eq!(vm.register(0xF), 1);
    assert!(!vm.pixel(4, 3));
    assert!(!vm.pixel(5, 3));
}

#[test]
fn draw_wraps_around_both_edges() {
    // A one-row sprite 0xFF drawn at column 60 wraps to columns 0..4.
    let mut vm = VM::new();
    vm.load_program(&vec![0xFF]).unwrap();
    vm.execute(OpCode::SetIndex(Addr(0x200))).unwrap();
    vm.execute(OpCode::Load(V(0), Byte(60))).unwrap();
    vm.execute(OpCode::Load(V(1), Byte(31))).unwrap();
    vm.execute(OpCode::Draw(V(0), V(1), 1)).unwrap();
    assert!(vm.pixel(60, 31));
    assert!(vm.pixel(63, 31));
    assert!(vm.pixel(0, 31));
    assert!(vm.pixel(3, 31));
    assert!(!vm.pixel(4, 31));
    // Coordinates are taken modulo the surface size.
    vm.execute(OpCode::Load(V(0), Byte(64))).unwrap();
    vm.execute(OpCode::Load(V(1), Byte(32))).unwrap();
    vm.execute(OpCode::Draw(V(0), V(1), 1)).unwrap();
    assert!(vm.pixel(0, 0));
    assert!(vm.pixel(7, 0));
}

#[test]
fn draw_faults_when_sprite_rows_run_past_memory() {
    let mut vm = VM::new();
    vm.execute(OpCode::SetIndex(Addr(0xFFF))).unwrap();
    assert_eq!(vm.execute(OpCode::Draw(V(0), V(1), 2)), Err(Fault::Memory));
    assert_eq!(vm.execute(OpCode::Draw(V(0), V(1), 1)), Ok(()));
}

#[test]
fn clear_screen_unsets_every_pixel() {
    let mut vm = VM::new();
    vm.execute(OpCode::SetIndex(Addr(0))).unwrap();
    vm.execute(OpCode::Draw(V(0), V(1), 5)).unwrap();
    assert!(vm.pixel(0, 0));
    vm.execute(OpCode::ClearScreen).unwrap();
    for col in 0..8 {
        for row in 0..8 {
            assert!(!vm.pixel(col, row));
        }
    }
}

#[test]
fn skip_key_consults_the_keypad() {
    let mut vm = VM::new();
    vm.execute(OpCode::Load(V(0), Byte(7))).unwrap();
    vm.load_program(&vec![0xE0, 0x9E, 0xE0, 0x9E]).unwrap();
    // Key 7 is up: SKP does not fire.
    vm.step().unwrap();
    assert_eq!(vm.program_counter(), 0x202);
    vm.key_down(7);
    vm.step().unwrap();
    assert_eq!(vm.program_counter(), 0x206);
    vm.key_up(7);
}

#[test]
fn skip_not_key_fires_when_the_key_is_up() {
    let mut vm = VM::new();
    vm.execute(OpCode::Load(V(0), Byte(3))).unwrap();
    vm.load_program(&vec![0xE0, 0xA1]).unwrap();
    vm.step().unwrap();
    assert_eq!(vm.program_counter(), 0x204);
}

#[test]
fn wait_for_key_parks_the_machine_until_a_press() {
    let mut vm = VM::new();
    vm.load_program(&vec![0xF1, 0x0A, 0x00, 0xE0]).unwrap();
    assert_eq!(vm.awaiting_key(), None);
    vm.step().unwrap();
    assert_eq!(vm.awaiting_key(), Some(1));
    let pc = vm.program_counter();
    // Steps while parked do nothing.
    vm.step().unwrap();
    vm.step().unwrap();
    assert_eq!(vm.program_counter(), pc);
    assert_eq!(vm.awaiting_key(), Some(1));
    // A key press lands in the named register and resumes the machine.
    vm.key_down(0xC);
    assert_eq!(vm.awaiting_key(), None);
    assert_eq!(vm.register(1), 0xC);
    vm.step().unwrap();
    assert_eq!(vm.program_counter(), pc + 2);
}

#[test]
fn power_on_state_matches_the_data_model() {
    let vm = VM::new();
    assert_eq!(vm.program_counter(), 0x200);
    assert_eq!(vm.stack_pointer(), 0);
    assert_eq!(vm.index_register(), 0);
    assert_eq!(vm.delay_timer(), 0);
    assert_eq!(vm.sound_timer(), 0);
    assert_eq!(vm.awaiting_key(), None);
    for x in 0..16 {
        assert_eq!(vm.register(x), 0);
    }
    // The font table: 16 glyphs of 5 bytes in the reserved region.
    assert_eq!(vm.memory_byte(0), 0xF0);
    assert_eq!(vm.memory_byte(5), 0x20);
    assert_eq!(vm.memory_byte(79), 0x80);
    for a in 80..0x200 {
        assert_eq!(vm.memory_byte(a), 0);
    }
}

#[test]
fn load_register_copies_the_source() {
    let mut vm = VM::new();
    vm.execute(OpCode::Load(V(5), Byte(0x42))).unwrap();
    vm.execute(OpCode::LoadRegister(V(6), V(5))).unwrap();
    assert_eq!(vm.register(6), 0x42);
    assert_eq!(vm.register(5), 0x42);
}
