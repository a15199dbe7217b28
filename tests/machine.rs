use mini_cpu::isa::Instruction;
use mini_cpu::machine::{Fault, Flow, CPU, FLAG_REGISTER, MEMORY_SIZE};

fn poke(cpu: &mut CPU, address: usize, word: u16) {
    cpu.memory[address] = (word >> 8) as u8;
    cpu.memory[address + 1] = (word & 0xFF) as u8;
}

#[test]
fn new_machine_is_zeroed() {
    let cpu = CPU::new();
    assert!(cpu.registers.iter().all(|&r| r == 0));
    assert!(cpu.memory.iter().all(|&b| b == 0));
    assert!(cpu.stack.iter().all(|&a| a == 0));
    assert_eq!(cpu.position_in_memory, 0);
    assert_eq!(cpu.stack_pointer, 0);
}

#[test]
fn end_to_end_two_calls_add_four_times() {
    let mut cpu = CPU::new();
    cpu.registers[0] = 5;
    cpu.registers[1] = 10;
    poke(&mut cpu, 0x000, 0x2100);
    poke(&mut cpu, 0x002, 0x2100);
    poke(&mut cpu, 0x004, 0x0000);
    poke(&mut cpu, 0x100, 0x8014);
    poke(&mut cpu, 0x102, 0x8014);
    poke(&mut cpu, 0x104, 0x00EE);
    assert_eq!(cpu.run(), Ok(()));
    assert_eq!(cpu.registers[0], 45);
    assert_eq!(cpu.registers[1], 10);
    assert_eq!(cpu.registers[FLAG_REGISTER], 0);
    assert_eq!(cpu.stack_pointer, 0);
    assert_eq!(cpu.position_in_memory, 6);
}

#[test]
fn halt_word_stops_at_once() {
    let mut cpu = CPU::new();
    cpu.registers[3] = 7;
    cpu.memory[100] = 9;
    assert_eq!(cpu.run(), Ok(()));
    assert_eq!(cpu.position_in_memory, 2);
    assert_eq!(cpu.registers[3], 7);
    assert_eq!(cpu.memory[100], 9);
    assert!(cpu.registers.iter().enumerate().all(|(i, &r)| r == if i == 3 { 7 } else { 0 }));
}

#[test]
fn unknown_opcode_is_fatal() {
    let mut cpu = CPU::new();
    cpu.registers[2] = 4;
    poke(&mut cpu, 0, 0x1234);
    assert_eq!(cpu.run(), Err(Fault::UnimplementedOpcode(0x1234)));
    assert_eq!(cpu.position_in_memory, 0);
    assert!(cpu.registers.iter().enumerate().all(|(i, &r)| r == if i == 2 { 4 } else { 0 }));
}

#[test]
fn unknown_add_family_member_is_fatal() {
    let mut cpu = CPU::new();
    poke(&mut cpu, 0, 0x8015);
    assert_eq!(cpu.run(), Err(Fault::UnimplementedOpcode(0x8015)));
}

#[test]
fn return_on_empty_stack_is_fatal() {
    let mut cpu = CPU::new();
    cpu.registers[0] = 1;
    poke(&mut cpu, 0, 0x00EE);
    assert_eq!(cpu.run(), Err(Fault::StackUnderflow));
    assert_eq!(cpu.position_in_memory, 0);
    assert_eq!(cpu.stack_pointer, 0);
    assert_eq!(cpu.registers[0], 1);
    assert_eq!(cpu.registers[FLAG_REGISTER], 0);
}

#[test]
fn endless_recursion_overflows_the_stack() {
    let mut cpu = CPU::new();
    poke(&mut cpu, 0x10, 0x2010);
    cpu.position_in_memory = 0x10;
    assert_eq!(cpu.run(), Err(Fault::StackOverflow));
    assert_eq!(cpu.stack_pointer, 16);
    assert_eq!(cpu.position_in_memory, 0x10);
    assert_eq!(cpu.stack[0], 0x12);
    assert_eq!(cpu.stack[15], 0x12);
}

#[test]
fn running_off_the_end_of_memory_is_fatal() {
    let mut cpu = CPU::new();
    let mut a = 0;
    while a < MEMORY_SIZE {
        poke(&mut cpu, a, 0x8014);
        a += 2;
    }
    cpu.registers[1] = 1;
    assert_eq!(cpu.run(), Err(Fault::FetchOutOfBounds(MEMORY_SIZE)));
    assert_eq!(cpu.registers[0], (2048 % 256) as u8);
}

#[test]
fn fetch_straddling_the_last_byte_is_fatal() {
    let mut cpu = CPU::new();
    cpu.position_in_memory = MEMORY_SIZE - 1;
    assert_eq!(cpu.step(), Err(Fault::FetchOutOfBounds(MEMORY_SIZE - 1)));
    assert_eq!(cpu.position_in_memory, MEMORY_SIZE - 1);
}

#[test]
fn add_without_overflow_clears_flag() {
    let mut cpu = CPU::new();
    cpu.registers[0] = 5;
    cpu.registers[1] = 10;
    cpu.registers[FLAG_REGISTER] = 1;
    cpu.add_xy(0, 1);
    assert_eq!(cpu.registers[0], 15);
    assert_eq!(cpu.registers[1], 10);
    assert_eq!(cpu.registers[FLAG_REGISTER], 0);
}

#[test]
fn add_with_overflow_wraps_and_sets_flag() {
    let mut cpu = CPU::new();
    cpu.registers[4] = 200;
    cpu.registers[7] = 100;
    cpu.add_xy(4, 7);
    assert_eq!(cpu.registers[4], 44);
    assert_eq!(cpu.registers[7], 100);
    assert_eq!(cpu.registers[FLAG_REGISTER], 1);
}

#[test]
fn add_at_the_boundary() {
    let mut cpu = CPU::new();
    cpu.registers[0] = 255;
    cpu.registers[1] = 0;
    cpu.add_xy(0, 1);
    assert_eq!(cpu.registers[0], 255);
    assert_eq!(cpu.registers[FLAG_REGISTER], 0);
    cpu.registers[1] = 1;
    cpu.add_xy(0, 1);
    assert_eq!(cpu.registers[0], 0);
    assert_eq!(cpu.registers[FLAG_REGISTER], 1);
}

#[test]
fn add_matches_wrapping_rule_for_all_pairs() {
    for a in 0..=255u8 {
        for b in 0..=255u8 {
            let mut cpu = CPU::new();
            cpu.registers[2] = a;
            cpu.registers[3] = b;
            cpu.add_xy(2, 3);
            let sum = a as u16 + b as u16;
            assert_eq!(cpu.registers[2] as u16, sum % 256);
            assert_eq!(cpu.registers[FLAG_REGISTER], if sum > 255 { 1 } else { 0 });
        }
    }
}

#[test]
fn add_register_to_itself() {
    let mut cpu = CPU::new();
    cpu.registers[5] = 130;
    cpu.add_xy(5, 5);
    assert_eq!(cpu.registers[5], 4);
    assert_eq!(cpu.registers[FLAG_REGISTER], 1);
}

#[test]
fn call_then_return_round_trip() {
    let mut cpu = CPU::new();
    cpu.position_in_memory = 0x20;
    poke(&mut cpu, 0x20, 0x2300);
    poke(&mut cpu, 0x300, 0x8014);
    poke(&mut cpu, 0x302, 0x00EE);
    assert_eq!(cpu.step(), Ok(Flow::Continue));
    assert_eq!(cpu.position_in_memory, 0x300);
    assert_eq!(cpu.stack_pointer, 1);
    assert_eq!(cpu.stack[0], 0x22);
    assert_eq!(cpu.step(), Ok(Flow::Continue));
    assert_eq!(cpu.step(), Ok(Flow::Continue));
    assert_eq!(cpu.position_in_memory, 0x22);
    assert_eq!(cpu.stack_pointer, 0);
}

#[test]
fn nested_calls_return_in_lifo_order() {
    let mut cpu = CPU::new();
    poke(&mut cpu, 0x000, 0x2200);
    poke(&mut cpu, 0x200, 0x2400);
    poke(&mut cpu, 0x400, 0x00EE);
    poke(&mut cpu, 0x202, 0x00EE);
    let expected = [(0x200, 1), (0x400, 2), (0x202, 1), (0x002, 0)];
    for (pc, sp) in expected {
        assert_eq!(cpu.step(), Ok(Flow::Continue));
        assert_eq!(cpu.position_in_memory, pc);
        assert_eq!(cpu.stack_pointer, sp);
    }
    assert_eq!(cpu.step(), Ok(Flow::Halt));
    assert_eq!(cpu.position_in_memory, 4);
}

#[test]
fn call_on_full_stack_fails_unchanged() {
    let mut cpu = CPU::new();
    cpu.stack_pointer = 16;
    cpu.position_in_memory = 0x40;
    assert_eq!(cpu.call(0x100), Err(Fault::StackOverflow));
    assert_eq!(cpu.position_in_memory, 0x40);
    assert_eq!(cpu.stack_pointer, 16);
}

#[test]
fn call_and_ret_directly() {
    let mut cpu = CPU::new();
    cpu.position_in_memory = 0x52;
    assert_eq!(cpu.call(0x700), Ok(()));
    assert_eq!(cpu.position_in_memory, 0x700);
    assert_eq!(cpu.stack[0], 0x52);
    assert_eq!(cpu.ret(), Ok(()));
    assert_eq!(cpu.position_in_memory, 0x52);
    assert_eq!(cpu.stack_pointer, 0);
    assert_eq!(cpu.ret(), Err(Fault::StackUnderflow));
    assert_eq!(cpu.position_in_memory, 0x52);
}

#[test]
fn read_opcode_is_big_endian() {
    let mut cpu = CPU::new();
    cpu.position_in_memory = 10;
    cpu.memory[10] = 0xAB;
    cpu.memory[11] = 0xCD;
    assert_eq!(cpu.read_opcode(), 0xABCD);
    assert_eq!(cpu.position_in_memory, 10);
}

#[test]
fn decode_each_family() {
    assert_eq!(Instruction::decode(0x0000), Instruction::Halt);
    assert_eq!(Instruction::decode(0x00EE), Instruction::Return);
    assert_eq!(Instruction::decode(0x2ABC), Instruction::Call(0xABC));
    assert_eq!(Instruction::decode(0x8A34), Instruction::AddRegisters(0xA, 0x3));
    assert_eq!(Instruction::decode(0x00E0), Instruction::Unknown(0x00E0));
    assert_eq!(Instruction::decode(0x01EE), Instruction::Unknown(0x01EE));
    assert_eq!(Instruction::decode(0x8A35), Instruction::Unknown(0x8A35));
    assert_eq!(Instruction::decode(0xFFFF), Instruction::Unknown(0xFFFF));
}
