use lc3::error::Error;
use lc3::instruction::{decode, sign_extend, Instruction, Operand};
use lc3::vm::{self, Step, FL_NEG, FL_POS, FL_ZRO, REG_COND, REG_PC, REG_R0, REG_R7, VM};

fn image(origin: u16, words: &[u16]) -> Vec<u8> {
    let mut bytes = origin.to_be_bytes().to_vec();
    for w in words {
        bytes.extend_from_slice(&w.to_be_bytes());
    }
    bytes
}

fn machine(program: &[u16]) -> VM {
    let mut m = vm::new();
    assert_eq!(m.load_image(&image(0x3000, program)), Ok(()));
    m.start();
    m
}

fn mem(m: &VM, addr: usize) -> u16 {
    m.memory().read(addr).unwrap()
}

#[test]
fn sign_extend_examples() {
    assert_eq!(sign_extend(0x1F, 5), 0xFFFF);
    assert_eq!(sign_extend(0x0F, 5), 0x000F);
    assert_eq!(sign_extend(0x10, 5), 0xFFF0);
    assert_eq!(sign_extend(0x1FF, 9), 0xFFFF);
    assert_eq!(sign_extend(0x100, 9), 0xFF00);
    assert_eq!(sign_extend(0x20, 6), 0xFFE0);
    assert_eq!(sign_extend(0x3FF, 11), 0x03FF);
    assert_eq!(sign_extend(0, 5), 0);
}

#[test]
fn decode_fields() {
    assert_eq!(
        decode(0x1225),
        Instruction::Add { dr: 1, sr1: 0, src2: Operand::Imm(5) }
    );
    assert_eq!(
        decode(0x5042),
        Instruction::And { dr: 0, sr1: 1, src2: Operand::Reg(2) }
    );
    assert_eq!(decode(0x0FFF), Instruction::Br { nzp: 7, offset: 0xFFFF });
    assert_eq!(decode(0x4801), Instruction::Jsr { offset: 1 });
    assert_eq!(decode(0x4080), Instruction::Jsrr { base: 2 });
    assert_eq!(decode(0xF025), Instruction::Trap { vector: 0x25 });
    assert_eq!(decode(0x8000), Instruction::Rti);
    assert_eq!(decode(0xD000), Instruction::Res);
}

#[test]
fn load_image_places_payload_and_start_sets_pc() {
    let mut m = vm::new();
    let bytes = vec![0x30, 0x00, 0x12, 0x34, 0x56, 0x78];
    assert_eq!(m.load_image(&bytes), Ok(()));
    assert_eq!(mem(&m, 0x3000), 0x1234);
    assert_eq!(mem(&m, 0x3001), 0x5678);
    m.start();
    assert_eq!(m.get_reg(REG_PC), 0x3000);
    assert!(m.is_running());
}

#[test]
fn load_image_ignores_trailing_odd_byte() {
    let mut m = vm::new();
    assert_eq!(m.load_image(&vec![0x40, 0x00, 0xAB, 0xCD, 0xEF]), Ok(()));
    assert_eq!(mem(&m, 0x4000), 0xABCD);
    assert_eq!(mem(&m, 0x4001), 0);
}

#[test]
fn load_image_too_short() {
    let mut m = vm::new();
    assert_eq!(m.load_image(&vec![0x30]), Err(Error::IOError));
    assert_eq!(m.load_image(&vec![]), Err(Error::IOError));
    assert_eq!(m.load_image(&vec![0x30, 0x00]), Ok(()));
}

#[test]
fn load_image_origin_zero() {
    let mut m = vm::new();
    assert_eq!(
        m.load_image(&vec![0x00, 0x00, 0x12, 0x34]),
        Err(Error::InvalidMemoryAddress)
    );
}

#[test]
fn load_image_past_end_keeps_earlier_words() {
    let mut m = vm::new();
    assert_eq!(
        m.load_image(&image(0xFFFF, &[0x1111, 0x2222])),
        Err(Error::InvalidMemoryAddress)
    );
    assert_eq!(mem(&m, 0xFFFF), 0x1111);
}

#[test]
fn add_immediate_positive() {
    // ADD R1, R0, #5
    let mut m = machine(&[0x1225]);
    m.set_reg(REG_R0, 3);
    assert_eq!(m.step(), Ok(Step::Executed));
    assert_eq!(m.get_reg(1), 8);
    assert_eq!(m.get_reg(REG_COND), FL_POS);
    assert_eq!(m.get_reg(REG_PC), 0x3001);
}

#[test]
fn add_immediate_negative() {
    // ADD R1, R0, #-5
    let mut m = machine(&[0x123B]);
    m.set_reg(REG_R0, 3);
    assert_eq!(m.step(), Ok(Step::Executed));
    assert_eq!(m.get_reg(1), 0xFFFE);
    assert_eq!(m.get_reg(REG_COND), FL_NEG);
}

#[test]
fn add_registers_wraps() {
    // ADD R2, R0, R1
    let mut m = machine(&[0x1401]);
    m.set_reg(0, 0xFFFF);
    m.set_reg(1, 1);
    assert_eq!(m.step(), Ok(Step::Executed));
    assert_eq!(m.get_reg(2), 0);
    assert_eq!(m.get_reg(REG_COND), FL_ZRO);
}

#[test]
fn flags_from_result() {
    // ADD R1, R0, #0 three times over
    for (v, flag) in [(0u16, FL_ZRO), (0x8000, FL_NEG), (1, FL_POS)] {
        let mut m = machine(&[0x1220]);
        m.set_reg(0, v);
        assert_eq!(m.step(), Ok(Step::Executed));
        assert_eq!(m.get_reg(1), v);
        assert_eq!(m.get_reg(REG_COND), flag);
    }
}

#[test]
fn and_and_not() {
    // AND R2, R0, R1 ; AND R3, R0, #0 ; NOT R4, R0
    let mut m = machine(&[0x5401, 0x5620, 0x983F]);
    m.set_reg(0, 0x0FF0);
    m.set_reg(1, 0x00FF);
    assert_eq!(m.step(), Ok(Step::Executed));
    assert_eq!(m.get_reg(2), 0x00F0);
    assert_eq!(m.step(), Ok(Step::Executed));
    assert_eq!(m.get_reg(3), 0);
    assert_eq!(m.get_reg(REG_COND), FL_ZRO);
    assert_eq!(m.step(), Ok(Step::Executed));
    assert_eq!(m.get_reg(4), 0xF00F);
    assert_eq!(m.get_reg(REG_COND), FL_NEG);
}

#[test]
fn branch_taken_and_not_taken() {
    // BRz #2 ; BRp #3
    let mut m = machine(&[0x0402, 0x0203]);
    m.set_reg(REG_COND, FL_ZRO);
    assert_eq!(m.step(), Ok(Step::Executed));
    assert_eq!(m.get_reg(REG_PC), 0x3003);
    let mut m = machine(&[0x0202]);
    m.set_reg(REG_COND, FL_ZRO);
    assert_eq!(m.step(), Ok(Step::Executed));
    assert_eq!(m.get_reg(REG_PC), 0x3001);
}

#[test]
fn jumps() {
    // JMP R2
    let mut m = machine(&[0xC080]);
    m.set_reg(2, 0x4000);
    assert_eq!(m.step(), Ok(Step::Executed));
    assert_eq!(m.get_reg(REG_PC), 0x4000);
    // JSR #-1
    let mut m = machine(&[0x4FFF]);
    assert_eq!(m.step(), Ok(Step::Executed));
    assert_eq!(m.get_reg(REG_R7), 0x3001);
    assert_eq!(m.get_reg(REG_PC), 0x3000);
    // JSRR R3
    let mut m = machine(&[0x40C0]);
    m.set_reg(3, 0x5000);
    assert_eq!(m.step(), Ok(Step::Executed));
    assert_eq!(m.get_reg(REG_R7), 0x3001);
    assert_eq!(m.get_reg(REG_PC), 0x5000);
}

#[test]
fn loads() {
    // LD R1, #3 ; LDI R2, #2 ; LDR R3, R4, #1 ; LEA R5, #-4 ; data 0x3005 ; data 0x8001
    let mut m = machine(&[0x2203, 0xA402, 0x6701, 0xEBFC, 0x3005, 0x8001]);
    m.set_reg(4, 0x3003);
    assert_eq!(m.step(), Ok(Step::Executed));
    assert_eq!(m.get_reg(1), 0x3005);
    assert_eq!(m.get_reg(REG_COND), FL_POS);
    assert_eq!(m.step(), Ok(Step::Executed));
    assert_eq!(m.get_reg(2), 0x8001);
    assert_eq!(m.get_reg(REG_COND), FL_NEG);
    assert_eq!(m.step(), Ok(Step::Executed));
    assert_eq!(m.get_reg(3), 0x3005);
    assert_eq!(m.step(), Ok(Step::Executed));
    assert_eq!(m.get_reg(5), 0x3000);
}

#[test]
fn stores() {
    // ST R0, #3 ; STI R1, #3 ; STR R2, R3, #-1 ; (free) ; (free) ; pointer 0x4000
    let mut m = machine(&[0x3003, 0xB203, 0x74FF, 0x0000, 0x0000, 0x4000]);
    m.set_reg(0, 0xAAAA);
    m.set_reg(1, 0xBBBB);
    m.set_reg(2, 0xCCCC);
    m.set_reg(3, 0x5001);
    assert_eq!(m.step(), Ok(Step::Executed));
    assert_eq!(mem(&m, 0x3004), 0xAAAA);
    assert_eq!(m.step(), Ok(Step::Executed));
    assert_eq!(mem(&m, 0x4000), 0xBBBB);
    assert_eq!(m.step(), Ok(Step::Executed));
    assert_eq!(mem(&m, 0x5000), 0xCCCC);
}

#[test]
fn store_to_address_zero_fails() {
    // STR R0, R1, #0 with R1 = 0
    let mut m = machine(&[0x7040]);
    assert_eq!(m.step(), Err(Error::InvalidMemoryAddress));
}

#[test]
fn fetch_from_address_zero_fails() {
    let mut m = vm::new();
    assert_eq!(m.step(), Err(Error::InvalidMemoryAddress));
}

#[test]
fn reserved_opcodes_do_nothing() {
    let mut m = machine(&[0x8000, 0xD000]);
    assert_eq!(m.step(), Ok(Step::Executed));
    assert_eq!(m.step(), Ok(Step::Executed));
    assert_eq!(m.get_reg(REG_PC), 0x3002);
}

#[test]
fn halt_stops_the_machine() {
    let mut m = machine(&[0xF025]);
    assert_eq!(m.step(), Ok(Step::Executed));
    assert!(!m.is_running());
    assert_eq!(m.take_output(), b"HALT".to_vec());
    assert_eq!(m.take_output(), Vec::<u8>::new());
}

#[test]
fn interrupt_keeps_state() {
    // ADD R1, R0, #5 ; ADD R1, R1, #5
    let mut m = machine(&[0x1225, 0x1265]);
    m.set_reg(0, 3);
    assert_eq!(m.step(), Ok(Step::Executed));
    m.interrupt();
    assert!(!m.is_running());
    assert_eq!(m.get_reg(1), 8);
    assert_eq!(m.get_reg(REG_PC), 0x3001);
    assert_eq!(mem(&m, 0x3001), 0x1265);
}

#[test]
fn unknown_trap_does_nothing() {
    let mut m = machine(&[0xF0FF]);
    assert_eq!(m.step(), Ok(Step::Executed));
    assert!(m.is_running());
    assert_eq!(m.get_reg(REG_PC), 0x3001);
    assert!(m.take_output().is_empty());
}

#[test]
fn getc_waits_for_input() {
    let mut m = machine(&[0xF020]);
    assert_eq!(m.step(), Ok(Step::NeedsInput));
    assert_eq!(m.get_reg(REG_PC), 0x3000);
    m.feed_input(b"q");
    assert_eq!(m.step(), Ok(Step::Executed));
    assert_eq!(m.get_reg(REG_R0), b'q' as u16);
    assert_eq!(m.get_reg(REG_PC), 0x3001);
    assert!(m.take_output().is_empty());
}

#[test]
fn getc_after_input_closed_fails() {
    let mut m = machine(&[0xF020]);
    m.close_input();
    assert_eq!(m.step(), Err(Error::IOError));
}

#[test]
fn in_prompts_once_and_echoes() {
    let mut m = machine(&[0xF023]);
    assert_eq!(m.step(), Ok(Step::NeedsInput));
    assert_eq!(m.step(), Ok(Step::NeedsInput));
    assert_eq!(m.take_output(), b"Enter a character: ".to_vec());
    m.feed_input(b"xy");
    assert_eq!(m.step(), Ok(Step::Executed));
    assert_eq!(m.get_reg(REG_R0), b'x' as u16);
    assert_eq!(m.take_output(), b"x".to_vec());
}

#[test]
fn in_with_input_waiting() {
    let mut m = machine(&[0xF023]);
    m.feed_input(b"z");
    assert_eq!(m.step(), Ok(Step::Executed));
    assert_eq!(m.take_output(), b"Enter a character: z".to_vec());
}

#[test]
fn out_writes_low_byte() {
    let mut m = machine(&[0xF021]);
    m.set_reg(REG_R0, 0x1241);
    assert_eq!(m.step(), Ok(Step::Executed));
    assert_eq!(m.take_output(), b"A".to_vec());
}

#[test]
fn puts_writes_string() {
    let mut m = machine(&[0xF022, 0x0048, 0x0069, 0x0000]);
    m.set_reg(REG_R0, 0x3001);
    assert_eq!(m.step(), Ok(Step::Executed));
    assert_eq!(m.take_output(), b"Hi".to_vec());
}

#[test]
fn puts_running_off_memory_fails() {
    let mut m = vm::new();
    assert_eq!(m.load_image(&image(0x3000, &[0xF022])), Ok(()));
    assert_eq!(m.load_image(&image(0xFFFF, &[0x0041])), Ok(()));
    m.start();
    m.set_reg(REG_R0, 0xFFFF);
    assert_eq!(m.step(), Err(Error::InvalidMemoryAddress));
    assert_eq!(m.take_output(), b"A".to_vec());
}

#[test]
fn putsp_writes_low_byte_first() {
    let mut m = machine(&[0xF024, 0x6948, 0x0021, 0x0000]);
    m.set_reg(REG_R0, 0x3001);
    assert_eq!(m.step(), Ok(Step::Executed));
    assert_eq!(m.take_output(), vec![0x48, 0x69, 0x21, 0x00]);
}

#[test]
fn keyboard_status_with_input() {
    // LDI R0, #1 ; LDI R1, #1 ; pointer to status ; pointer to data
    let mut m = machine(&[0xA001, 0xA201, 0xFE00, 0xFE02]);
    m.feed_input(&[0x41, 0x00]);
    assert_eq!(m.step(), Ok(Step::Executed));
    assert_eq!(m.get_reg(0), 0x8000);
    assert_eq!(mem(&m, 0xFE02), 0x0041);
    assert_eq!(m.step(), Ok(Step::Executed));
    assert_eq!(m.get_reg(1), 0x0041);
}

#[test]
fn keyboard_status_without_input() {
    // LDI R0, #0 ; pointer to status
    let mut m = machine(&[0xA000, 0xFE00]);
    m.feed_input(&[0x41]);
    assert_eq!(m.step(), Ok(Step::Executed));
    assert_eq!(m.get_reg(0), 0);
    assert_eq!(m.get_reg(REG_COND), FL_ZRO);
}
