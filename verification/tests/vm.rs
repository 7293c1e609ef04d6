use chip8_core::cpu::CPU;
use chip8_core::fault::Fault;

/// Write one big-endian instruction word at `addr`.
fn write_word(cpu: &mut CPU, addr: usize, word: u16) {
    cpu.memory[addr] = (word >> 8) as u8;
    cpu.memory[addr + 1] = (word & 0x00FF) as u8;
}

#[test]
fn new_machine_is_zeroed() {
    let cpu = CPU::new();
    assert_eq!(cpu.registers.len(), 16);
    assert_eq!(cpu.memory.len(), 4096);
    assert!(cpu.registers.iter().all(|&b| b == 0));
    assert!(cpu.memory.iter().all(|&b| b == 0));
    assert_eq!(cpu.position_in_memory, 0);
    assert!(cpu.stack.is_empty());
}

#[test]
fn read_opcode_combines_bytes_big_endian() {
    let mut cpu = CPU::new();
    cpu.memory[0] = 0x80;
    cpu.memory[1] = 0x14;
    assert_eq!(cpu.read_opcode(), 0x8014);
}

#[test]
fn add_stores_sum_and_clears_flag() {
    let mut cpu = CPU::new();
    cpu.registers[0] = 5;
    cpu.registers[1] = 10;
    cpu.add(0, 1);
    assert_eq!(cpu.registers[0], 15);
    assert_eq!(cpu.registers[1], 10);
    assert_eq!(cpu.registers[0xF], 0);
}

#[test]
fn add_overflow_wraps_and_sets_flag() {
    let mut cpu = CPU::new();
    cpu.registers[0] = 250;
    cpu.registers[1] = 10;
    cpu.add(0, 1);
    assert_eq!(cpu.registers[0], 4);
    assert_eq!(cpu.registers[1], 10);
    assert_eq!(cpu.registers[0xF], 1);
}

#[test]
fn add_register_to_itself_doubles_it() {
    let mut cpu = CPU::new();
    cpu.registers[2] = 7;
    cpu.add(2, 2);
    assert_eq!(cpu.registers[2], 14);
    assert_eq!(cpu.registers[0xF], 0);

    cpu.registers[2] = 200;
    cpu.add(2, 2);
    assert_eq!(cpu.registers[2], 144);
    assert_eq!(cpu.registers[0xF], 1);
}

#[test]
fn add_into_flag_register_is_overwritten_by_flag() {
    let mut cpu = CPU::new();
    cpu.registers[0xF] = 100;
    cpu.registers[1] = 100;
    cpu.add(0xF, 1);
    // The flag write comes after the sum and wins: 200 did not overflow.
    assert_eq!(cpu.registers[0xF], 0);
}

#[test]
fn call_pushes_return_address_and_jumps() {
    let mut cpu = CPU::new();
    cpu.position_in_memory = 0x10;
    assert_eq!(cpu.call_subroutine(0x300), Ok(()));
    assert_eq!(cpu.position_in_memory, 0x300);
    assert_eq!(cpu.stack, vec![0x10]);
}

#[test]
fn return_pops_into_program_counter() {
    let mut cpu = CPU::new();
    cpu.position_in_memory = 0x22;
    assert_eq!(cpu.call_subroutine(0x300), Ok(()));
    assert_eq!(cpu.return_from_subroutine(), Ok(()));
    assert_eq!(cpu.position_in_memory, 0x22);
    assert!(cpu.stack.is_empty());
}

#[test]
fn call_and_return_round_trip_through_run() {
    let mut cpu = CPU::new();
    write_word(&mut cpu, 0x000, 0x2100); // call 0x100
    write_word(&mut cpu, 0x002, 0x0000); // halt
    write_word(&mut cpu, 0x100, 0x00EE); // return
    assert_eq!(cpu.run(), Ok(()));
    // Returned to 0x002, then the halt advanced past itself.
    assert_eq!(cpu.position_in_memory, 0x004);
    assert!(cpu.stack.is_empty());
}

#[test]
fn sixteen_nested_calls_fit_the_seventeenth_overflows() {
    let mut cpu = CPU::new();
    for i in 0..16 {
        assert_eq!(cpu.call_subroutine(0x200 + i), Ok(()), "call {i} should fit");
    }
    assert_eq!(cpu.stack.len(), 16);
    let pc_before = cpu.position_in_memory;
    assert_eq!(
        cpu.call_subroutine(0x900),
        Err(Fault::StackOverflow { pc: pc_before as u16 })
    );
    // The failed call left the machine unchanged.
    assert_eq!(cpu.position_in_memory, pc_before);
    assert_eq!(cpu.stack.len(), 16);
}

#[test]
fn call_chain_overflows_through_run() {
    let mut cpu = CPU::new();
    // Seventeen chained calls: the instruction at 2k calls address 2(k+1).
    for k in 0..17u16 {
        write_word(&mut cpu, (2 * k) as usize, 0x2000 | (2 * k + 2));
    }
    // The seventeenth call finds the stack full; its word sits at 0x020 and
    // the counter had already advanced to 0x022.
    assert_eq!(cpu.run(), Err(Fault::StackOverflow { pc: 0x022 }));
    assert_eq!(cpu.stack.len(), 16);
}

#[test]
fn return_on_empty_stack_underflows() {
    let mut cpu = CPU::new();
    assert_eq!(
        cpu.return_from_subroutine(),
        Err(Fault::StackUnderflow { pc: 0 })
    );
    assert_eq!(cpu.position_in_memory, 0);
}

#[test]
fn return_on_empty_stack_underflows_through_run() {
    let mut cpu = CPU::new();
    write_word(&mut cpu, 0x000, 0x00EE); // return with nothing to return to
    assert_eq!(cpu.run(), Err(Fault::StackUnderflow { pc: 2 }));
}

#[test]
fn halt_stops_the_run_loop_before_later_words() {
    let mut cpu = CPU::new();
    cpu.registers[3] = 9;
    write_word(&mut cpu, 0x000, 0x0000); // halt
    write_word(&mut cpu, 0x002, 0xFFFF); // would fault if ever fetched
    assert_eq!(cpu.run(), Ok(()));
    assert_eq!(cpu.position_in_memory, 0x002);
    assert_eq!(cpu.registers[3], 9);
    assert!(cpu.stack.is_empty());
}

#[test]
fn two_calls_to_an_adding_subroutine() {
    let mut cpu = CPU::new();
    cpu.registers[0] = 5;
    cpu.registers[1] = 10;
    write_word(&mut cpu, 0x000, 0x2100); // call 0x100
    write_word(&mut cpu, 0x002, 0x2100); // call 0x100
    write_word(&mut cpu, 0x004, 0x0000); // halt
    write_word(&mut cpu, 0x100, 0x8014); // add register 1 into register 0
    write_word(&mut cpu, 0x102, 0x00EE); // return
    assert_eq!(cpu.run(), Ok(()));
    assert_eq!(cpu.registers[0], 25);
    assert_eq!(cpu.registers[0xF], 0);
}

#[test]
fn single_add_overflow_end_to_end() {
    let mut cpu = CPU::new();
    cpu.registers[0] = 250;
    cpu.registers[1] = 10;
    write_word(&mut cpu, 0x000, 0x8014); // add register 1 into register 0
    write_word(&mut cpu, 0x002, 0x0000); // halt
    assert_eq!(cpu.run(), Ok(()));
    assert_eq!(cpu.registers[0], 4);
    assert_eq!(cpu.registers[0xF], 1);
}

#[test]
fn unimplemented_opcode_reports_counter_and_word() {
    let mut cpu = CPU::new();
    write_word(&mut cpu, 0x000, 0x1234); // no class-1 instruction exists
    assert_eq!(
        cpu.run(),
        Err(Fault::UnimplementedOpcode { pc: 2, opcode: 0x1234 })
    );
}

#[test]
fn fetch_at_last_byte_is_out_of_bounds() {
    let mut cpu = CPU::new();
    write_word(&mut cpu, 0x000, 0x2FFF); // call 0xFFF: only one byte left there
    assert_eq!(cpu.run(), Err(Fault::OutOfBounds { pc: 0xFFF }));
}

#[test]
fn return_pattern_wins_over_call_class() {
    // 0x20EE has the call class but ends in 0xEE, and dispatch checks the
    // return pattern first: with an empty stack it underflows instead of
    // calling address 0x0EE.
    let mut cpu = CPU::new();
    write_word(&mut cpu, 0x000, 0x20EE);
    assert_eq!(cpu.run(), Err(Fault::StackUnderflow { pc: 2 }));
    assert!(cpu.stack.is_empty());
}

#[test]
fn step_reports_progress_and_halt() {
    let mut cpu = CPU::new();
    write_word(&mut cpu, 0x000, 0x2004); // call 0x004
    write_word(&mut cpu, 0x004, 0x0000); // halt
    assert_eq!(cpu.step(), Ok(false));
    assert_eq!(cpu.position_in_memory, 0x004);
    assert_eq!(cpu.stack, vec![0x002]);
    assert_eq!(cpu.step(), Ok(true));
    assert_eq!(cpu.position_in_memory, 0x006);
}
