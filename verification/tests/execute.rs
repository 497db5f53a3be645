use chip8::opcode::{Addr, Byte, Fault, OpCode, V};
use chip8::vm::VM;

fn set_register(vm: &mut VM, x: u8, value: u8) {
    vm.execute(OpCode::Load(V(x), Byte(value))).unwrap();
    assert_eq!(vm.register(x), value);
}

#[test]
fn add_register_sets_sum_and_carry() {
    // 200 + 100 = 300: truncated sum 44, carry raised.
    let mut vm = VM::new();
    set_register(&mut vm, 0, 200);
    set_register(&mut vm, 1, 100);
    vm.execute(OpCode::AddRegister(V(0), V(1))).unwrap();
    assert_eq!(vm.register(0), 44);
    assert_eq!(vm.register(0xF), 1);
    // 20 + 30 = 50: no carry.
    set_register(&mut vm, 2, 20);
    set_register(&mut vm, 3, 30);
    vm.execute(OpCode::AddRegister(V(2), V(3))).unwrap();
    assert_eq!(vm.register(2), 50);
    assert_eq!(vm.register(0xF), 0);
}

#[test]
fn add_immediate_wraps_without_touching_flag() {
    let mut vm = VM::new();
    set_register(&mut vm, 0, 250);
    set_register(&mut vm, 0xF, 0);
    vm.execute(OpCode::Add(V(0), Byte(10))).unwrap();
    assert_eq!(vm.register(0), 4);
    assert_eq!(vm.register(0xF), 0);
}

#[test]
fn sub_register_wraps_and_sets_not_borrow() {
    let mut vm = VM::new();
    // 10 - 5: flag 1 (no borrow), result 5.
    set_register(&mut vm, 0, 10);
    set_register(&mut vm, 1, 5);
    vm.execute(OpCode::SubRegister(V(0), V(1))).unwrap();
    assert_eq!(vm.register(0), 5);
    assert_eq!(vm.register(0xF), 1);
    // 5 - 10: flag 0 (borrow), result wraps to 251.
    set_register(&mut vm, 2, 5);
    set_register(&mut vm, 3, 10);
    vm.execute(OpCode::SubRegister(V(2), V(3))).unwrap();
    assert_eq!(vm.register(2), 251);
    assert_eq!(vm.register(0xF), 0);
    // equal values: flag 0, result 0.
    set_register(&mut vm, 4, 7);
    set_register(&mut vm, 5, 7);
    vm.execute(OpCode::SubRegister(V(4), V(5))).unwrap();
    assert_eq!(vm.register(4), 0);
    assert_eq!(vm.register(0xF), 0);
}

#[test]
fn sub_not_borrow_register_reverses_operands() {
    let mut vm = VM::new();
    set_register(&mut vm, 0, 5);
    set_register(&mut vm, 1, 10);
    vm.execute(OpCode::SubNotBorrowRegister(V(0), V(1))).unwrap();
    assert_eq!(vm.register(0), 5);
    assert_eq!(vm.register(0xF), 1);
    set_register(&mut vm, 2, 10);
    set_register(&mut vm, 3, 5);
    vm.execute(OpCode::SubNotBorrowRegister(V(2), V(3))).unwrap();
    assert_eq!(vm.register(2), 251);
    assert_eq!(vm.register(0xF), 0);
}

#[test]
fn shr_flag_is_the_low_bit_before_the_shift() {
    let mut vm = VM::new();
    set_register(&mut vm, 0, 0b1000_0001);
    vm.execute(OpCode::ShrRegister(V(0), V(1))).unwrap();
    assert_eq!(vm.register(0), 0b0100_0000);
    assert_eq!(vm.register(0xF), 1);
    set_register(&mut vm, 0, 0b0000_0010);
    vm.execute(OpCode::ShrRegister(V(0), V(1))).unwrap();
    assert_eq!(vm.register(0), 0b0000_0001);
    assert_eq!(vm.register(0xF), 0);
}

#[test]
fn shl_flag_is_the_high_bit_before_the_shift() {
    let mut vm = VM::new();
    set_register(&mut vm, 0, 0b1000_0001);
    vm.execute(OpCode::ShlRegister(V(0), V(1))).unwrap();
    assert_eq!(vm.register(0), 0b0000_0010);
    assert_eq!(vm.register(0xF), 1);
    set_register(&mut vm, 0, 0b0100_0000);
    vm.execute(OpCode::ShlRegister(V(0), V(1))).unwrap();
    assert_eq!(vm.register(0), 0b1000_0000);
    assert_eq!(vm.register(0xF), 0);
}

#[test]
fn bitwise_group_leaves_flag_alone() {
    let mut vm = VM::new();
    set_register(&mut vm, 0, 0b1100);
    set_register(&mut vm, 1, 0b1010);
    vm.execute(OpCode::OrRegister(V(0), V(1))).unwrap();
    assert_eq!(vm.register(0), 0b1110);
    set_register(&mut vm, 0, 0b1100);
    vm.execute(OpCode::AndRegister(V(0), V(1))).unwrap();
    assert_eq!(vm.register(0), 0b1000);
    set_register(&mut vm, 0, 0b1100);
    vm.execute(OpCode::XorRegister(V(0), V(1))).unwrap();
    assert_eq!(vm.register(0), 0b0110);
    assert_eq!(vm.register(0xF), 0);
}

#[test]
fn store_bcd_writes_three_digits() {
    let mut vm = VM::new();
    vm.execute(OpCode::SetIndex(Addr(0x300))).unwrap();
    set_register(&mut vm, 0, 156);
    vm.execute(OpCode::LoadBCD(V(0))).unwrap();
    assert_eq!(vm.memory_byte(0x300), 1);
    assert_eq!(vm.memory_byte(0x301), 5);
    assert_eq!(vm.memory_byte(0x302), 6);
    set_register(&mut vm, 1, 0);
    vm.execute(OpCode::LoadBCD(V(1))).unwrap();
    assert_eq!(vm.memory_byte(0x300), 0);
    assert_eq!(vm.memory_byte(0x301), 0);
    assert_eq!(vm.memory_byte(0x302), 0);
}

#[test]
fn store_bcd_checks_memory_range_before_writing() {
    let mut vm = VM::new();
    vm.execute(OpCode::SetIndex(Addr(0xFFE))).unwrap();
    set_register(&mut vm, 0, 42);
    assert_eq!(vm.execute(OpCode::LoadBCD(V(0))), Err(Fault::Memory));
    // Nothing was written.
    assert_eq!(vm.memory_byte(0xFFE), 0);
    assert_eq!(vm.memory_byte(0xFFF), 0);
}

#[test]
fn save_then_wipe_then_load_restores_registers() {
    for x in 0..16u8 {
        let mut vm = VM::new();
        for j in 0..=x {
            set_register(&mut vm, j, j.wrapping_mul(7).wrapping_add(3));
        }
        vm.execute(OpCode::SetIndex(Addr(0x300))).unwrap();
        vm.execute(OpCode::SaveRegisters(V(x))).unwrap();
        for j in 0..=x {
            set_register(&mut vm, j, 0);
        }
        vm.execute(OpCode::LoadRegisters(V(x))).unwrap();
        for j in 0..=x {
            assert_eq!(vm.register(j), j.wrapping_mul(7).wrapping_add(3));
        }
    }
}

#[test]
fn register_block_transfer_checks_bounds() {
    let mut vm = VM::new();
    vm.execute(OpCode::SetIndex(Addr(0xFFA))).unwrap();
    assert_eq!(vm.execute(OpCode::SaveRegisters(V(15))), Err(Fault::Memory));
    assert_eq!(vm.execute(OpCode::LoadRegisters(V(15))), Err(Fault::Memory));
    // Registers 0 through 5 still fit below the end of memory.
    assert_eq!(vm.execute(OpCode::SaveRegisters(V(5))), Ok(()));
}

#[test]
fn index_group_masks_to_twelve_bits() {
    let mut vm = VM::new();
    vm.execute(OpCode::SetIndex(Addr(0xFFF))).unwrap();
    assert_eq!(vm.index_register(), 0xFFF);
    set_register(&mut vm, 2, 2);
    vm.execute(OpCode::AddI(V(2))).unwrap();
    assert_eq!(vm.index_register(), 1);
    assert_eq!(vm.register(0xF), 0);
}

#[test]
fn load_sprite_points_at_the_glyph() {
    let mut vm = VM::new();
    set_register(&mut vm, 0, 0xAB);
    vm.execute(OpCode::LoadSprite(V(0))).unwrap();
    assert_eq!(vm.index_register(), 5 * 0xB);
    // The glyph bytes for digit 0 sit at the base of memory.
    set_register(&mut vm, 0, 0x10);
    vm.execute(OpCode::LoadSprite(V(0))).unwrap();
    assert_eq!(vm.index_register(), 0);
    assert_eq!(vm.memory_byte(0), 0xF0);
    assert_eq!(vm.memory_byte(1), 0x90);
    assert_eq!(vm.memory_byte(4), 0xF0);
}

#[test]
fn random_masks_with_the_immediate() {
    let mut vm = VM::new();
    vm.execute(OpCode::Random(V(0), Byte(0x0F))).unwrap();
    assert!(vm.register(0) <= 0x0F);
    vm.execute(OpCode::Random(V(1), Byte(0x00))).unwrap();
    assert_eq!(vm.register(1), 0);
}

#[test]
fn jump_group_sets_the_counter() {
    let mut vm = VM::new();
    vm.execute(OpCode::Jump(Addr(0x400))).unwrap();
    assert_eq!(vm.program_counter(), 0x400);
    set_register(&mut vm, 0, 5);
    vm.execute(OpCode::JumpV0(Addr(0x300))).unwrap();
    assert_eq!(vm.program_counter(), 0x305);
}

#[test]
fn timers_load_and_store_through_registers() {
    let mut vm = VM::new();
    set_register(&mut vm, 3, 77);
    vm.execute(OpCode::SetDelayTimer(V(3))).unwrap();
    assert_eq!(vm.delay_timer(), 77);
    vm.execute(OpCode::SetSoundTimer(V(3))).unwrap();
    assert_eq!(vm.sound_timer(), 77);
    vm.execute(OpCode::LoadDelayTimer(V(4))).unwrap();
    assert_eq!(vm.register(4), 77);
}

#[test]
fn system_is_a_no_op() {
    let mut vm = VM::new();
    vm.execute(OpCode::System(Addr(0x123))).unwrap();
    assert_eq!(vm.program_counter(), 0x200);
    assert_eq!(vm.index_register(), 0);
}
