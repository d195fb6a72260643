use virtual_machine16_bit::cpu::CPU;
use virtual_machine16_bit::device::Device;
use virtual_machine16_bit::fault::Fault;
use virtual_machine16_bit::instructions;
use virtual_machine16_bit::memory::Memory;
use virtual_machine16_bit::memory_mapper::{MappedDevice, MemoryMapper};
use virtual_machine16_bit::screen_device::ScreenDevice;

const IP: u8 = 0;
const ACC: u8 = 1;
const R1: u8 = 2;
const R2: u8 = 3;
const R4: u8 = 5;
const R8: u8 = 9;
const SP: u8 = 10;

fn machine_with(program: &[u8]) -> CPU {
    let mut memory = Memory::new(0x10000);
    for (offset, byte) in program.iter().enumerate() {
        memory.set_u8(offset, *byte).unwrap();
    }
    let mut mapper = MemoryMapper::new();
    mapper.map(MappedDevice::Memory(memory), 0, 0xFFFF, false);
    CPU::new(mapper).unwrap()
}

fn word(cpu: &mut CPU, address: u16) -> u16 {
    let bytes = cpu.view_memory_at(address, Some(2));
    u16::from_be_bytes([bytes[0], bytes[1]])
}

#[test]
fn memory_starts_zeroed() {
    let memory = Memory::new(4);
    assert_eq!(memory.get_u8(0), Ok(0));
    assert_eq!(memory.get_u8(3), Ok(0));
    assert_eq!(memory.get_u16(2), Ok(0));
}

#[test]
fn memory_is_big_endian() {
    let mut memory = Memory::new(8);
    assert_eq!(memory.set_u16(2, 0xABCD), Ok(()));
    assert_eq!(memory.get_u8(2), Ok(0xAB));
    assert_eq!(memory.get_u8(3), Ok(0xCD));
    assert_eq!(memory.get_u16(2), Ok(0xABCD));
    assert_eq!(memory.set_u8(3, 0x01), Ok(()));
    assert_eq!(memory.get_u16(2), Ok(0xAB01));
    assert_eq!(memory.get_u16(3), Ok(0x0100));
}

#[test]
fn memory_round_trip_at_every_address() {
    let mut memory = Memory::new(16);
    for address in 0..15 {
        let value = 0x1234u16.wrapping_mul(address as u16 + 1);
        assert_eq!(memory.set_u16(address, value), Ok(()));
        assert_eq!(memory.get_u16(address), Ok(value));
    }
}

#[test]
fn memory_refuses_what_lies_outside() {
    let mut memory = Memory::new(4);
    assert_eq!(memory.get_u8(4), Err(Fault::OutOfRange { address: 4 }));
    assert_eq!(memory.get_u16(3), Err(Fault::OutOfRange { address: 3 }));
    assert_eq!(memory.set_u8(7, 1), Err(Fault::OutOfRange { address: 7 }));
    assert_eq!(memory.set_u16(3, 0xFFFF), Err(Fault::OutOfRange { address: 3 }));
    assert_eq!(memory.get_u8(3), Ok(0));
    assert_eq!(memory.get_u16(usize::MAX), Err(Fault::OutOfRange { address: usize::MAX }));
    let empty = Memory::new(0);
    assert_eq!(empty.get_u8(0), Err(Fault::OutOfRange { address: 0 }));
}

#[test]
fn mapper_without_regions_maps_nothing() {
    let mut mapper = MemoryMapper::new();
    assert_eq!(mapper.get_u8(0), Err(Fault::Unmapped { address: 0 }));
    assert_eq!(mapper.get_u16(0x1234), Err(Fault::Unmapped { address: 0x1234 }));
    assert_eq!(mapper.set_u8(7, 1), Err(Fault::Unmapped { address: 7 }));
    assert_eq!(mapper.set_u16(0xFFFF, 1), Err(Fault::Unmapped { address: 0xFFFF }));
    assert_eq!(mapper.find_region(3), Err(Fault::Unmapped { address: 3 }));
}

#[test]
fn mapper_hands_offsets_to_a_remapped_device() {
    let mut mapper = MemoryMapper::new();
    mapper.map(MappedDevice::Memory(Memory::new(0x10)), 0x3000, 0x300F, true);
    assert_eq!(mapper.set_u16(0x3004, 0xBEEF), Ok(()));
    assert_eq!(mapper.get_u16(0x3004), Ok(0xBEEF));
    assert_eq!(mapper.get_u8(0x3005), Ok(0xEF));
    assert_eq!(mapper.get_u8(0x2FFF), Err(Fault::Unmapped { address: 0x2FFF }));
    assert_eq!(mapper.get_u8(0x3010), Err(Fault::Unmapped { address: 0x3010 }));
    assert_eq!(mapper.get_u16(0x300F), Err(Fault::OutOfRange { address: 0xF }));
}

#[test]
fn mapper_hands_addresses_to_a_device_that_is_not_remapped() {
    let mut mapper = MemoryMapper::new();
    mapper.map(MappedDevice::Memory(Memory::new(0x10)), 0x3000, 0x300F, false);
    assert_eq!(mapper.set_u8(0x3004, 1), Err(Fault::OutOfRange { address: 0x3004 }));
    let mut mapper = MemoryMapper::new();
    mapper.map(MappedDevice::Memory(Memory::new(0x20)), 0x8, 0x10, false);
    assert_eq!(mapper.set_u8(0x10, 0x7F), Ok(()));
    assert_eq!(mapper.get_u8(0x10), Ok(0x7F));
    assert_eq!(mapper.get_u16(0x0F), Ok(0x007F));
}

#[test]
fn later_mapping_shadows_earlier() {
    let mut low = Memory::new(0x100);
    low.set_u8(0x20, 0x11).unwrap();
    low.set_u8(0x80, 0x33).unwrap();
    let mut high = Memory::new(0x40);
    high.set_u8(0x10, 0x22).unwrap();
    let mut mapper = MemoryMapper::new();
    mapper.map(MappedDevice::Memory(low), 0x0000, 0x00FF, false);
    assert_eq!(mapper.get_u8(0x20), Ok(0x11));
    assert_eq!(mapper.find_region(0x20), Ok(0));
    mapper.map(MappedDevice::Memory(high), 0x0010, 0x004F, true);
    assert_eq!(mapper.find_region(0x20), Ok(0));
    assert_eq!(mapper.find_region(0x80), Ok(1));
    assert_eq!(mapper.get_u8(0x20), Ok(0x22));
    assert_eq!(mapper.get_u8(0x80), Ok(0x33));
    assert_eq!(mapper.set_u8(0x20, 0x44), Ok(()));
    assert_eq!(mapper.get_u8(0x20), Ok(0x44));
    assert_eq!(mapper.get_u8(0x0F), Ok(0));
    assert_eq!(mapper.get_u8(0x50), Ok(0));
}

#[test]
fn region_with_start_behind_end_holds_nothing() {
    let mut mapper = MemoryMapper::new();
    mapper.map(MappedDevice::Memory(Memory::new(0x10)), 5, 4, false);
    assert_eq!(mapper.get_u8(4), Err(Fault::Unmapped { address: 4 }));
    assert_eq!(mapper.get_u8(5), Err(Fault::Unmapped { address: 5 }));
}

#[test]
fn screen_reads_as_zero() {
    let mut screen = ScreenDevice::new();
    assert_eq!(screen.get_u8(3), Ok(0));
    assert_eq!(screen.get_u16(0xFFFF), Ok(0));
    assert_eq!(screen.set_u16(0, 0x0041), Ok(()));
    assert_eq!(screen.get_u16(0), Ok(0));
}

#[test]
fn screen_writes_a_character_at_its_cell() {
    let mut screen = ScreenDevice::new();
    assert_eq!(screen.set_u8(0, b'A'), Ok(()));
    assert_eq!(screen.take_output(), b"\x1b[1;2HA".to_vec());
    assert_eq!(screen.take_output(), Vec::<u8>::new());
    assert_eq!(screen.set_u8(17, b'z'), Ok(()));
    assert_eq!(screen.take_output(), b"\x1b[2;4Hz".to_vec());
    assert_eq!(screen.set_u8(15 + 16 * 122, b'*'), Ok(()));
    assert_eq!(screen.take_output(), b"\x1b[123;32H*".to_vec());
    assert_eq!(screen.set_u8(0xFFFF, b'!'), Ok(()));
    assert_eq!(screen.take_output(), b"\x1b[4096;32H!".to_vec());
}

#[test]
fn screen_carries_out_commands() {
    let mut screen = ScreenDevice::new();
    assert_eq!(screen.set_u16(0, 0xFF20), Ok(()));
    assert_eq!(screen.take_output(), b"\x1b[2J\x1b[1;2H ".to_vec());
    assert_eq!(screen.set_u16(1, 0x0142), Ok(()));
    assert_eq!(screen.take_output(), b"\x1b[1m\x1b[1;4HB".to_vec());
    assert_eq!(screen.set_u16(2, 0x0243), Ok(()));
    assert_eq!(screen.take_output(), b"\x1b[0m\x1b[1;6HC".to_vec());
    assert_eq!(screen.set_u16(3, 0x0344), Ok(()));
    assert_eq!(screen.take_output(), b"\x1b[1;8HD".to_vec());
    assert_eq!(screen.set_u16(16, 0x0045), Ok(()));
    assert_eq!(screen.set_u16(17, 0x0046), Ok(()));
    assert_eq!(screen.take_output(), b"\x1b[2;2HE\x1b[2;4HF".to_vec());
}

#[test]
fn screen_refuses_a_byte_that_is_no_character() {
    let mut screen = ScreenDevice::new();
    assert_eq!(screen.set_u8(0, 0x80), Err(Fault::NotACharacter { value: 0x80 }));
    assert_eq!(screen.take_output(), b"\x1b[1;2H".to_vec());
    assert_eq!(screen.set_u16(0, 0x01FF), Err(Fault::NotACharacter { value: 0xFF }));
    assert_eq!(screen.take_output(), b"\x1b[1m\x1b[1;2H".to_vec());
    assert_eq!(screen.set_u8(0, 0x7F), Ok(()));
}

#[test]
fn screen_behind_the_mapper() {
    let mut mapper = MemoryMapper::new();
    mapper.map(MappedDevice::Memory(Memory::new(0x10000)), 0, 0xFFFF, false);
    mapper.map(MappedDevice::Screen(ScreenDevice::new()), 0x3000, 0x30FF, true);
    assert_eq!(mapper.set_u16(0x3000, 0x0048), Ok(()));
    assert_eq!(mapper.get_u16(0x3000), Ok(0));
    assert_eq!(mapper.set_u16(0x2FFE, 0x0048), Ok(()));
    assert_eq!(mapper.get_u16(0x2FFE), Ok(0x0048));
}

#[test]
fn processor_starts_with_the_stack_at_the_top() {
    let cpu = machine_with(&[]);
    assert_eq!(cpu.get_register("sp"), Ok(0xFFFE));
    assert_eq!(cpu.get_register("fp"), Ok(0xFFFE));
    for name in ["ip", "acc", "r1", "r2", "r3", "r4", "r5", "r6", "r7", "r8"] {
        assert_eq!(cpu.get_register(name), Ok(0));
    }
}

#[test]
fn register_set_and_get_by_every_name() {
    let mut cpu = machine_with(&[]);
    let names = ["ip", "acc", "r1", "r2", "r3", "r4", "r5", "r6", "r7", "r8", "sp", "fp"];
    for (index, name) in names.iter().enumerate() {
        assert_eq!(cpu.set_register(name, 0x1100 + index as u16), Ok(()));
    }
    for (index, name) in names.iter().enumerate() {
        assert_eq!(cpu.get_register(name), Ok(0x1100 + index as u16));
    }
}

#[test]
fn unknown_register_names_fail() {
    let mut cpu = machine_with(&[]);
    assert_eq!(cpu.get_register("r9"), Err(Fault::UnknownRegister));
    assert_eq!(cpu.get_register("R1"), Err(Fault::UnknownRegister));
    assert_eq!(cpu.get_register(""), Err(Fault::UnknownRegister));
    assert_eq!(cpu.set_register("pc", 1), Err(Fault::UnknownRegister));
    assert_eq!(cpu.get_register("ip"), Ok(0));
}

#[test]
fn fetch_moves_the_instruction_pointer() {
    let mut cpu = machine_with(&[0xAA, 0xBB, 0xCC, 0xDD]);
    assert_eq!(cpu.fetch(), Ok(0xAA));
    assert_eq!(cpu.get_register("ip"), Ok(1));
    assert_eq!(cpu.fetch16(), Ok(0xBBCC));
    assert_eq!(cpu.get_register("ip"), Ok(3));
    cpu.set_register("ip", 0xFFFF).unwrap();
    assert_eq!(cpu.fetch(), Ok(0));
    assert_eq!(cpu.get_register("ip"), Ok(0));
}

#[test]
fn fetch_that_fails_changes_nothing() {
    let mut mapper = MemoryMapper::new();
    mapper.map(MappedDevice::Memory(Memory::new(0x100)), 0, 0xFF, false);
    let mut cpu = CPU::new(mapper).unwrap();
    cpu.set_register("ip", 0x100).unwrap();
    assert_eq!(cpu.fetch(), Err(Fault::Unmapped { address: 0x100 }));
    assert_eq!(cpu.get_register("ip"), Ok(0x100));
    cpu.set_register("ip", 0xFF).unwrap();
    assert_eq!(cpu.fetch16(), Err(Fault::OutOfRange { address: 0xFF }));
    assert_eq!(cpu.get_register("ip"), Ok(0xFF));
    assert_eq!(cpu.step(), Ok(false));
    assert_eq!(cpu.step(), Err(Fault::Unmapped { address: 0x100 }));
}

#[test]
fn register_index_is_twice_the_byte_modulo_twelve() {
    let bytes: Vec<u8> = (0..=255).collect();
    let mut cpu = machine_with(&bytes);
    for byte in 0..=255u16 {
        assert_eq!(cpu.fetch_register_index(), Ok(2 * (byte as usize % 12)));
    }
}

#[test]
fn push_then_pop() {
    let mut cpu = machine_with(&[]);
    assert_eq!(cpu.push(0xCAFE), Ok(()));
    assert_eq!(cpu.get_register("sp"), Ok(0xFFFC));
    assert_eq!(cpu.get_register("fp"), Ok(0xFFFE));
    assert_eq!(word(&mut cpu, 0xFFFE), 0xCAFE);
    assert_eq!(cpu.pop(), Ok(0xCAFE));
    assert_eq!(cpu.get_register("sp"), Ok(0xFFFE));
    assert_eq!(cpu.get_register("fp"), Ok(0xFFFE));
}

#[test]
fn a_word_pushed_to_the_screen_is_lost() {
    let mut mapper = MemoryMapper::new();
    mapper.map(MappedDevice::Screen(ScreenDevice::new()), 0, 0xFFFF, false);
    let mut cpu = CPU::new(mapper).unwrap();
    assert_eq!(cpu.push(0x0041), Ok(()));
    assert_eq!(cpu.pop(), Ok(0));
}

#[test]
fn stack_wraps_at_the_ends_of_the_address_space() {
    let mut cpu = machine_with(&[]);
    cpu.set_register("sp", 0).unwrap();
    assert_eq!(cpu.push(0x0102), Ok(()));
    assert_eq!(cpu.get_register("sp"), Ok(0xFFFE));
    assert_eq!(cpu.pop(), Ok(0x0102));
    assert_eq!(cpu.get_register("sp"), Ok(0));
    cpu.set_register("sp", 0xFFFF).unwrap();
    assert_eq!(cpu.push(1), Err(Fault::OutOfRange { address: 0xFFFF }));
    assert_eq!(cpu.get_register("sp"), Ok(0xFFFF));
}

#[test]
fn call_then_return_without_arguments() {
    let mut cpu = machine_with(&[]);
    let names = ["acc", "r1", "r2", "r3", "r4", "r5", "r6", "r7", "r8"];
    for (index, name) in names.iter().enumerate() {
        cpu.set_register(name, 0x2200 + index as u16).unwrap();
    }
    cpu.set_register("ip", 0x0456).unwrap();
    cpu.push(0x1111).unwrap();
    cpu.push(0x0000).unwrap();
    let sp = cpu.get_register("sp").unwrap();
    assert_eq!(cpu.push_state(), Ok(()));
    assert_eq!(cpu.get_register("sp"), Ok(sp - 20));
    assert_eq!(cpu.get_register("fp"), Ok(sp - 20));
    assert_eq!(word(&mut cpu, sp), 0x2201);
    assert_eq!(word(&mut cpu, sp - 14), 0x2208);
    assert_eq!(word(&mut cpu, sp - 16), 0x0456);
    assert_eq!(word(&mut cpu, sp - 18), 4 + 20);
    for name in names {
        cpu.set_register(name, 0xDEAD).unwrap();
    }
    cpu.set_register("ip", 0x0999).unwrap();
    assert_eq!(cpu.pop_state(), Ok(()));
    for (index, name) in names.iter().enumerate().skip(1) {
        assert_eq!(cpu.get_register(name), Ok(0x2200 + index as u16));
    }
    assert_eq!(cpu.get_register("acc"), Ok(0xDEAD));
    assert_eq!(cpu.get_register("ip"), Ok(0x0456));
    assert_eq!(cpu.get_register("sp"), Ok(sp + 2));
    assert_eq!(cpu.get_register("fp"), Ok(0xFFFE));
}

#[test]
fn return_drops_the_arguments() {
    let mut cpu = machine_with(&[]);
    cpu.push(0xAAAA).unwrap();
    cpu.push(0xBBBB).unwrap();
    cpu.push(0xCCCC).unwrap();
    cpu.push(0x0003).unwrap();
    assert_eq!(cpu.get_register("sp"), Ok(0xFFF6));
    assert_eq!(cpu.push_state(), Ok(()));
    assert_eq!(cpu.pop_state(), Ok(()));
    assert_eq!(cpu.get_register("sp"), Ok(0xFFFE));
    assert_eq!(cpu.get_register("fp"), Ok(0xFFFE));
}

#[test]
fn unknown_opcodes_are_skipped() {
    let mut cpu = machine_with(&[0x00, instructions::MOV_LIT_MEM, 0x99, instructions::HLT]);
    assert_eq!(cpu.step(), Ok(false));
    assert_eq!(cpu.step(), Ok(false));
    assert_eq!(cpu.step(), Ok(false));
    assert_eq!(cpu.get_register("ip"), Ok(3));
    assert_eq!(cpu.step(), Ok(true));
    assert_eq!(cpu.execute(0x77), Ok(false));
    assert_eq!(cpu.get_register("ip"), Ok(4));
}

#[test]
fn arithmetic_program() {
    let mut cpu = machine_with(&[
        instructions::MOV_LIT_REG, 0x12, 0x34, R1,
        instructions::MOV_LIT_REG, 0xAB, 0xCD, R2,
        instructions::ADD_REG_REG, R1, R2,
        instructions::MOV_REG_MEM, ACC, 0x01, 0x00,
    ]);
    for _ in 0..4 {
        assert_eq!(cpu.step(), Ok(false));
    }
    assert_eq!(cpu.get_register("r1"), Ok(0x1234));
    assert_eq!(cpu.get_register("r2"), Ok(0xABCD));
    assert_eq!(cpu.get_register("acc"), Ok(0xBE01));
    assert_eq!(word(&mut cpu, 0x0100), 0xBE01);
    assert_eq!(cpu.get_register("ip"), Ok(15));
}

#[test]
fn addition_wraps() {
    let mut cpu = machine_with(&[
        instructions::MOV_LIT_REG, 0xFF, 0xFF, R1,
        instructions::MOV_LIT_REG, 0x00, 0x02, R2,
        instructions::ADD_REG_REG, R1, R2,
        instructions::HLT,
    ]);
    assert_eq!(cpu.run(100), Ok(true));
    assert_eq!(cpu.get_register("acc"), Ok(0x0001));
}

#[test]
fn move_between_registers_and_memory() {
    let mut cpu = machine_with(&[
        instructions::MOV_LIT_REG, 0x43, 0x21, R1,
        instructions::MOV_REG_REG, R1, R4,
        instructions::MOV_REG_MEM, R4, 0x02, 0x00,
        instructions::MOV_MEM_REG, 0x02, 0x00, R8,
        instructions::MOV_REG_REG, 12 + R1, 24 + R2,
        instructions::HLT,
    ]);
    assert_eq!(cpu.run(10), Ok(true));
    assert_eq!(cpu.get_register("r4"), Ok(0x4321));
    assert_eq!(cpu.get_register("r8"), Ok(0x4321));
    assert_eq!(cpu.get_register("r2"), Ok(0x4321));
    assert_eq!(word(&mut cpu, 0x0200), 0x4321);
}

#[test]
fn counting_loop() {
    let mut cpu = machine_with(&[
        instructions::MOV_MEM_REG, 0x01, 0x00, R1,
        instructions::MOV_LIT_REG, 0x00, 0x01, R2,
        instructions::ADD_REG_REG, R1, R2,
        instructions::MOV_REG_MEM, ACC, 0x01, 0x00,
        instructions::JMP_NOT_EQ, 0x00, 0x03, 0x00, 0x00,
        instructions::HLT,
    ]);
    assert_eq!(cpu.run(1000), Ok(true));
    assert_eq!(cpu.get_register("acc"), Ok(0x0003));
    assert_eq!(word(&mut cpu, 0x0100), 0x0003);
    assert_eq!(cpu.get_register("ip"), Ok(21));
}

#[test]
fn run_stops_when_the_steps_run_out() {
    let mut cpu = machine_with(&[
        instructions::JMP_NOT_EQ, 0x00, 0x01, 0x00, 0x00,
    ]);
    assert_eq!(cpu.run(0), Ok(false));
    assert_eq!(cpu.get_register("ip"), Ok(0));
    assert_eq!(cpu.run(7), Ok(false));
    assert_eq!(cpu.get_register("ip"), Ok(0));
    assert_eq!(cpu.step(), Ok(false));
}

#[test]
fn run_stops_at_a_failure() {
    let mut mapper = MemoryMapper::new();
    let mut memory = Memory::new(4);
    memory.set_u8(0, instructions::MOV_LIT_REG).unwrap();
    memory.set_u8(1, 0x12).unwrap();
    memory.set_u8(2, 0x34).unwrap();
    memory.set_u8(3, R1).unwrap();
    mapper.map(MappedDevice::Memory(memory), 0, 3, false);
    let mut cpu = CPU::new(mapper).unwrap();
    assert_eq!(cpu.run(10), Err(Fault::Unmapped { address: 4 }));
    assert_eq!(cpu.get_register("r1"), Ok(0x1234));
    assert_eq!(cpu.get_register("ip"), Ok(4));
}

#[test]
fn stack_program() {
    let mut cpu = machine_with(&[
        instructions::MOV_LIT_REG, 0x51, 0x51, R1,
        instructions::MOV_LIT_REG, 0x42, 0x42, R2,
        instructions::PSH_REG, R1,
        instructions::PSH_REG, R2,
        instructions::POP, R1,
        instructions::POP, R2,
    ]);
    for _ in 0..6 {
        assert_eq!(cpu.step(), Ok(false));
    }
    assert_eq!(cpu.get_register("r1"), Ok(0x4242));
    assert_eq!(cpu.get_register("r2"), Ok(0x5151));
    assert_eq!(cpu.get_register("sp"), Ok(0xFFFE));
    assert_eq!(cpu.get_register("fp"), Ok(0xFFFE));
}

#[test]
fn call_and_return_program() {
    let mut program = vec![
        instructions::PSH_LIT, 0x33, 0x33,
        instructions::PSH_LIT, 0x22, 0x22,
        instructions::PSH_LIT, 0x11, 0x11,
        instructions::MOV_LIT_REG, 0x12, 0x34, R1,
        instructions::MOV_LIT_REG, 0x56, 0x78, R4,
        instructions::PSH_LIT, 0x00, 0x00,
        instructions::CAL_LIT, 0x30, 0x00,
        instructions::PSH_LIT, 0x44, 0x44,
        instructions::HLT,
    ];
    program.resize(0x3000, 0);
    program.extend_from_slice(&[
        instructions::PSH_LIT, 0x01, 0x02,
        instructions::PSH_LIT, 0x03, 0x04,
        instructions::PSH_LIT, 0x05, 0x06,
        instructions::MOV_LIT_REG, 0x07, 0x08, R1,
        instructions::MOV_LIT_REG, 0x09, 0x0A, R8,
        instructions::RET,
    ]);
    let mut cpu = machine_with(&program);
    for _ in 0..5 {
        assert_eq!(cpu.step(), Ok(false));
    }
    let before_count = cpu.get_register("sp").unwrap();
    assert_eq!(before_count, 0xFFFE - 6);
    assert_eq!(cpu.step(), Ok(false));
    assert_eq!(cpu.step(), Ok(false));
    assert_eq!(cpu.get_register("ip"), Ok(0x3000));
    assert_eq!(cpu.get_register("fp"), Ok(before_count - 2 - 20));
    for _ in 0..5 {
        assert_eq!(cpu.step(), Ok(false));
    }
    assert_eq!(cpu.get_register("r1"), Ok(0x0708));
    assert_eq!(cpu.get_register("r8"), Ok(0x090A));
    assert_eq!(cpu.step(), Ok(false));
    assert_eq!(cpu.get_register("r1"), Ok(0x1234));
    assert_eq!(cpu.get_register("r4"), Ok(0x5678));
    assert_eq!(cpu.get_register("r8"), Ok(0));
    assert_eq!(cpu.get_register("ip"), Ok(23));
    assert_eq!(cpu.get_register("sp"), Ok(before_count));
    assert_eq!(cpu.get_register("fp"), Ok(0xFFFE));
    assert_eq!(cpu.run(10), Ok(true));
    assert_eq!(word(&mut cpu, before_count), 0x4444);
}

#[test]
fn call_through_a_register() {
    let mut program = vec![
        instructions::MOV_LIT_REG, 0x00, 0x40, R2,
        instructions::PSH_LIT, 0x00, 0x00,
        instructions::CAL_REG, R2,
        instructions::HLT,
    ];
    program.resize(0x40, 0);
    program.extend_from_slice(&[
        instructions::MOV_LIT_REG, 0xAA, 0xAA, ACC,
        instructions::RET,
    ]);
    let mut cpu = machine_with(&program);
    assert_eq!(cpu.run(100), Ok(true));
    assert_eq!(cpu.get_register("acc"), Ok(0xAAAA));
    assert_eq!(cpu.get_register("r2"), Ok(0x0040));
    assert_eq!(cpu.get_register("ip"), Ok(10));
    assert_eq!(cpu.get_register("sp"), Ok(0xFFFE));
}

#[test]
fn pop_into_the_stack_pointer() {
    let mut cpu = machine_with(&[
        instructions::PSH_LIT, 0x80, 0x00,
        instructions::POP, SP,
        instructions::MOV_LIT_REG, 0x00, 0x00, IP,
    ]);
    assert_eq!(cpu.step(), Ok(false));
    assert_eq!(cpu.step(), Ok(false));
    assert_eq!(cpu.get_register("sp"), Ok(0x8000));
    assert_eq!(cpu.step(), Ok(false));
    assert_eq!(cpu.get_register("ip"), Ok(0));
}

#[test]
fn view_of_memory() {
    let mut cpu = machine_with(&[1, 2, 3, 4, 5, 6, 7, 8, 9]);
    assert_eq!(cpu.view_memory_at(0, None), vec![1, 2, 3, 4, 5, 6, 7, 8]);
    assert_eq!(cpu.view_memory_at(7, Some(3)), vec![8, 9, 0]);
    assert_eq!(cpu.view_memory_at(0, Some(0)), vec![1]);
    assert_eq!(cpu.view_memory_at(2, Some(1)), vec![3]);
    let mut mapper = MemoryMapper::new();
    let mut memory = Memory::new(2);
    memory.set_u16(0, 0xA1B2).unwrap();
    mapper.map(MappedDevice::Memory(memory), 0xFFFE, 0xFFFF, true);
    let mut cpu = CPU::new(mapper).unwrap();
    assert_eq!(cpu.view_memory_at(0xFFFD, Some(5)), vec![0, 0xA1, 0xB2, 0, 0]);
}

#[test]
fn program_that_writes_to_the_screen() {
    let mut memory = Memory::new(0x10000);
    let program = [
        instructions::MOV_LIT_REG, 0xFF, 0x48, R1,
        instructions::MOV_REG_MEM, R1, 0x30, 0x00,
        instructions::MOV_LIT_REG, 0x01, 0x69, R1,
        instructions::MOV_REG_MEM, R1, 0x30, 0x11,
        instructions::HLT,
    ];
    for (offset, byte) in program.iter().enumerate() {
        memory.set_u8(offset, *byte).unwrap();
    }
    let mut mapper = MemoryMapper::new();
    mapper.map(MappedDevice::Memory(memory), 0, 0xFFFF, false);
    mapper.map(MappedDevice::Screen(ScreenDevice::new()), 0x3000, 0x30FF, true);
    let mut cpu = CPU::new(mapper).unwrap();
    assert_eq!(cpu.take_output(), Vec::<u8>::new());
    assert_eq!(cpu.step(), Ok(false));
    assert_eq!(cpu.step(), Ok(false));
    assert_eq!(cpu.take_output(), b"\x1b[2J\x1b[1;2HH".to_vec());
    assert_eq!(cpu.take_output(), Vec::<u8>::new());
    assert_eq!(cpu.run(10), Ok(true));
    assert_eq!(cpu.take_output(), b"\x1b[1m\x1b[2;4Hi".to_vec());
    assert_eq!(cpu.get_register("ip"), Ok(17));
}

#[test]
fn output_of_several_screens_in_the_order_of_the_search() {
    let mut mapper = MemoryMapper::new();
    mapper.map(MappedDevice::Screen(ScreenDevice::new()), 0x10, 0x1F, true);
    mapper.map(MappedDevice::Memory(Memory::new(0x10)), 0x20, 0x2F, true);
    mapper.map(MappedDevice::Screen(ScreenDevice::new()), 0x30, 0x3F, true);
    assert_eq!(mapper.set_u8(0x10, b'a'), Ok(()));
    assert_eq!(mapper.set_u8(0x31, b'b'), Ok(()));
    assert_eq!(mapper.set_u8(0x20, b'c'), Ok(()));
    assert_eq!(mapper.take_output(), b"\x1b[1;4Hb\x1b[1;2Ha".to_vec());
    assert_eq!(mapper.take_output(), Vec::<u8>::new());
    assert_eq!(mapper.get_u8(0x20), Ok(b'c'));
}

#[test]
fn a_write_to_the_screen_that_fails_stops_the_program() {
    let mut memory = Memory::new(0x100);
    let program = [
        instructions::MOV_LIT_REG, 0x00, 0x80, R1,
        instructions::PSH_REG, R1,
    ];
    for (offset, byte) in program.iter().enumerate() {
        memory.set_u8(offset, *byte).unwrap();
    }
    let mut mapper = MemoryMapper::new();
    mapper.map(MappedDevice::Memory(memory), 0, 0xFF, false);
    mapper.map(MappedDevice::Screen(ScreenDevice::new()), 0xFF00, 0xFFFF, true);
    let mut cpu = CPU::new(mapper).unwrap();
    assert_eq!(cpu.run(10), Err(Fault::NotACharacter { value: 0x80 }));
    assert_eq!(cpu.get_register("sp"), Ok(0xFFFE));
    assert_eq!(cpu.get_register("ip"), Ok(6));
    assert_eq!(cpu.take_output(), b"\x1b[16;30H".to_vec());
}
