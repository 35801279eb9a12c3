use um::errors::VmError;
use um::instruction::Instruction;
use um::machine::Effect;
use um::machine::Machine;
use um::machine::RunOutcome;
use um::op::Op;
use um::register::Index;
use um::register::Register;
use um::types::u25;

fn inst(op: Op, a: u8, b: u8, c: u8, sa: u8, value: u32) -> u32 {
    Instruction {
        op,
        a: Index::new(a),
        b: Index::new(b),
        c: Index::new(c),
        sa: Index::new(sa),
        value: u25::new(value),
    }
    .encode()
    .0
}

fn loaded(program: Vec<u32>) -> Machine {
    let mut m = Machine::new();
    m.load(program);
    m
}

#[test]
fn test_load() {
    let source: Vec<u32> = vec![0xdeadbeefu32, 0xbabecafeu32];
    let m = loaded(source.clone());
    assert_eq!(m.mem.array_len(0), 2);
    assert_eq!(m.mem.read_word(0, 0), 0xdeadbeef);
    assert_eq!(m.mem.read_word(0, 1), 0xbabecafe);
}

#[test]
fn test_cond_move_false() {
    let code = inst(Op::Move, 0, 1, 2, 0, 0);
    let mut m = loaded(vec![code]);
    let expected = 0xbabecafeu32;
    m.r.write(Index::new(0), Register(expected));
    m.r.write(Index::new(1), Register(0xdeadbeef));
    m.act().unwrap();
    let got = m.r.read(Index::new(0)).0;
    assert_eq!(expected, got);
}

#[test]
fn test_cond_move_true() {
    let code = inst(Op::Move, 0, 1, 0, 0, 0);
    let mut m = loaded(vec![code]);
    let expected = 0xdeadbeefu32;
    m.r.write(Index::new(0), Register(0xbabecafe));
    m.r.write(Index::new(1), Register(expected));
    m.act().unwrap();
    let got = m.r.read(Index::new(0)).0;
    assert_eq!(expected, got);
}

#[test]
fn test_index() {
    let alloc_code = inst(Op::Alloc, 2, 1, 0, 0, 0);
    let amend_code = inst(Op::Amend, 1, 3, 4, 0, 0);
    let index_code = inst(Op::Index, 0, 1, 3, 0, 0);
    let mut m = loaded(vec![alloc_code, amend_code, index_code]);
    m.r.write(Index::new(0), Register(1));
    m.r.write(Index::new(3), Register(0));
    m.r.write(Index::new(4), Register(42069));
    let expected = m.r.read(Index::new(4));
    m.act().unwrap();
    m.act().unwrap();
    m.act().unwrap();
    let got = m.r.read(Index::new(0));
    assert_eq!(expected, got);
}

#[test]
fn test_amend() {
    let alloc_code = inst(Op::Alloc, 2, 1, 0, 0, 0);
    let amend_code = inst(Op::Amend, 1, 3, 4, 0, 0);
    let mut m = loaded(vec![alloc_code, amend_code]);
    m.r.write(Index::new(0), Register(1));
    m.r.write(Index::new(3), Register(0));
    let expected = 42069u32;
    m.r.write(Index::new(4), Register(expected));
    let idx = m.r.read(Index::new(3)).0;
    m.act().unwrap();
    let addr = m.r.read(Index::new(1)).0;
    m.act().unwrap();
    let got = m.mem.read_word(addr, idx as usize);
    assert_eq!(expected, got);
}

#[test]
fn machine_test_add() {
    let code = inst(Op::Add, 2, 1, 0, 0, 0);
    let mut m = loaded(vec![code]);
    m.r.write(Index::new(0), Register(3_000_000_000));
    m.r.write(Index::new(1), Register(2_000_000_000));
    m.act().unwrap();
    let expected = 705_032_704u32;
    let got = m.r.read(Index::new(2)).0;
    assert_eq!(expected, got);
}

#[test]
fn test_mult() {
    let code = inst(Op::Mult, 2, 1, 0, 0, 0);
    let mut m = loaded(vec![code]);
    m.r.write(Index::new(0), Register(900_000));
    m.r.write(Index::new(1), Register(4_773));
    m.act().unwrap();
    let expected = 732_704u32;
    let got = m.r.read(Index::new(2)).0;
    assert_eq!(expected, got);
}

#[test]
fn machine_test_div() {
    let code = inst(Op::Div, 2, 0, 1, 0, 0);
    let mut m = loaded(vec![code]);
    m.r.write(Index::new(0), Register(900000));
    m.r.write(Index::new(1), Register(4773));
    m.act().unwrap();
    let expected = 188u32;
    let got = m.r.read(Index::new(2)).0;
    assert_eq!(expected, got);
}

#[test]
fn test_notand() {
    let code = inst(Op::NotAnd, 2, 1, 0, 0, 0);
    let mut m = loaded(vec![code]);
    m.r.write(Index::new(0), Register(0xbabe0000));
    m.r.write(Index::new(1), Register(0x0000cafe));
    m.act().unwrap();
    let expected = u32::MAX;
    let got = m.r.read(Index::new(2)).0;
    assert_eq!(expected, got);
}

#[test]
fn test_alloc() {
    let code = inst(Op::Alloc, 2, 1, 0, 0, 0);
    let mut m = loaded(vec![code, code]);
    m.r.write(Index::new(0), Register(3));
    m.act().unwrap();
    let expected_b = 1u32;
    let got_b = m.r.read(Index::new(1)).0;
    assert_eq!(expected_b, got_b);
    assert_eq!(m.mem.array_len(got_b), 3);
    for i in 0..3 {
        assert_eq!(m.mem.read_word(got_b, i), 0);
    }
    m.act().unwrap();
    let expected_b = 2u32;
    let got_b = m.r.read(Index::new(1)).0;
    assert_eq!(expected_b, got_b);
    assert_eq!(m.mem.array_len(got_b), 3);
    for i in 0..3 {
        assert_eq!(m.mem.read_word(got_b, i), 0);
    }
}

#[test]
fn test_free() {
    let alloc_code = inst(Op::Alloc, 2, 1, 0, 0, 0);
    let free_code = inst(Op::Aband, 2, 1, 0, 0, 0);
    let mut m = loaded(vec![alloc_code, free_code, alloc_code]);
    m.r.write(Index::new(0), Register(0));
    m.act().unwrap();
    let first_addr = m.r.read(Index::new(1)).0;
    m.r.write(Index::new(0), Register(first_addr));
    m.act().unwrap();
    m.r.write(Index::new(0), Register(3));
    m.act().unwrap();
    let second_addr = m.r.read(Index::new(1)).0;
    assert_eq!(first_addr, second_addr);
    assert_eq!(m.mem.array_len(second_addr), 3);
    for i in 0..3 {
        assert_eq!(m.mem.read_word(second_addr, i), 0);
    }
}

#[test]
fn test_orth() {
    let expected = 0x01becafeu32;
    let code = inst(Op::Orth, 0, 0, 0, 2, expected);
    let mut m = loaded(vec![code]);
    m.act().unwrap();
    let got = m.r.read(Index::new(2)).0;
    assert_eq!(expected, got);
}

#[test]
fn test_load_program() {
    let alloc_code = inst(Op::Alloc, 2, 1, 0, 0, 0);
    let amend_code = inst(Op::Amend, 1, 3, 4, 0, 0);
    let load_code = inst(Op::Load, 0, 1, 3, 0, 0);
    let expected = Instruction {
        op: Op::Add,
        a: Index::new(0),
        b: Index::new(1),
        c: Index::new(2),
        sa: Index::new(0),
        value: u25::new(10), // 8 + 2
    };
    let program = expected.encode().0;
    let mut m = loaded(vec![alloc_code, amend_code, load_code]);
    m.r.write(Index::new(0), Register(2));
    m.r.write(Index::new(3), Register(1));
    m.r.write(Index::new(4), Register(program));
    m.act().unwrap();
    m.act().unwrap();
    m.act().unwrap();
    let got = m.peek();
    assert_eq!(expected, got);
}

#[test]
fn load_program_copies_and_keeps_source() {
    // Array K gets one word; load-program from K replaces array 0 but
    // leaves K itself untouched.
    let alloc_code = inst(Op::Alloc, 2, 1, 0, 0, 0);
    let amend_code = inst(Op::Amend, 1, 3, 4, 0, 0);
    let load_code = inst(Op::Load, 0, 1, 3, 0, 0);
    let halt_code = inst(Op::Halt, 0, 0, 0, 0, 0);
    let mut m = loaded(vec![alloc_code, amend_code, load_code]);
    m.r.write(Index::new(0), Register(1));
    m.r.write(Index::new(3), Register(0));
    m.r.write(Index::new(4), Register(halt_code));
    m.act().unwrap();
    let k = m.r.read(Index::new(1)).0;
    m.act().unwrap();
    m.act().unwrap();
    assert_eq!(m.ip, 0);
    assert_eq!(m.mem.array_len(0), 1);
    assert_eq!(m.mem.read_word(0, 0), halt_code);
    assert_eq!(m.mem.array_len(k), 1);
    assert_eq!(m.mem.read_word(k, 0), halt_code);
    assert_eq!(m.act().unwrap(), Effect::Halted);
}

#[test]
fn load_program_from_array_zero_jumps() {
    let load_code = inst(Op::Load, 0, 1, 3, 0, 0);
    let halt_code = inst(Op::Halt, 0, 0, 0, 0, 0);
    let mut m = loaded(vec![load_code, load_code, halt_code]);
    m.r.write(Index::new(3), Register(2));
    m.act().unwrap();
    assert_eq!(m.ip, 2);
    assert_eq!(m.act().unwrap(), Effect::Halted);
}

#[test]
fn fresh_array_reads_zero_at_every_position() {
    let alloc_code = inst(Op::Alloc, 2, 1, 0, 0, 0);
    let mut m = loaded(vec![alloc_code]);
    m.r.write(Index::new(0), Register(64));
    m.act().unwrap();
    let id = m.r.read(Index::new(1)).0;
    assert_eq!(m.mem.array_len(id), 64);
    for i in 0..64 {
        assert_eq!(m.mem.read_word(id, i), 0);
    }
}

#[test]
fn output_effect_carries_low_byte() {
    let code = inst(Op::Output, 0, 0, 3, 0, 0);
    let mut m = loaded(vec![code]);
    m.r.write(Index::new(3), Register(65));
    assert_eq!(m.act().unwrap(), Effect::Output(65));
}

#[test]
fn run_emits_output_in_order_and_halts() {
    let program = vec![
        inst(Op::Orth, 0, 0, 0, 2, 72),
        inst(Op::Output, 0, 0, 2, 0, 0),
        inst(Op::Orth, 0, 0, 0, 2, 105),
        inst(Op::Output, 0, 0, 2, 0, 0),
        inst(Op::Halt, 0, 0, 0, 0, 0),
    ];
    let mut m = loaded(program);
    let (out, outcome) = m.run(&Vec::new(), 100);
    assert_eq!(out, vec![72u8, 105u8]);
    assert_eq!(outcome, RunOutcome::Halted);
}

#[test]
fn run_reads_input_bytes_in_order() {
    let program = vec![
        inst(Op::Input, 0, 0, 3, 0, 0),
        inst(Op::Input, 0, 0, 4, 0, 0),
        inst(Op::Halt, 0, 0, 0, 0, 0),
    ];
    let mut m = loaded(program);
    let (out, outcome) = m.run(&vec![65u8, 66u8], 100);
    assert_eq!(out, Vec::<u8>::new());
    assert_eq!(outcome, RunOutcome::Halted);
    assert_eq!(m.r.read(Index::new(3)).0, 65);
    assert_eq!(m.r.read(Index::new(4)).0, 66);
}

#[test]
fn end_of_input_stores_all_ones() {
    let program = vec![inst(Op::Input, 0, 0, 3, 0, 0), inst(Op::Halt, 0, 0, 0, 0, 0)];
    let mut m = loaded(program);
    let (_, outcome) = m.run(&Vec::new(), 100);
    assert_eq!(outcome, RunOutcome::Halted);
    assert_eq!(m.r.read(Index::new(3)).0, 0xFFFF_FFFF);
}

#[test]
fn run_stops_at_fuel_bound() {
    // load-program from array 0 with target 0: a tight infinite loop.
    let code = inst(Op::Load, 0, 1, 3, 0, 0);
    let mut m = loaded(vec![code]);
    let (out, outcome) = m.run(&Vec::new(), 5);
    assert_eq!(out, Vec::<u8>::new());
    assert_eq!(outcome, RunOutcome::OutOfFuel);
}

#[test]
fn illegal_opcode_is_fatal() {
    let mut m = loaded(vec![0xE000_0000]);
    assert_eq!(m.act(), Err(VmError::IllegalOpcode(14)));
    let mut m = loaded(vec![0xF000_0000]);
    assert_eq!(m.act(), Err(VmError::IllegalOpcode(15)));
}

#[test]
fn fetch_past_end_is_fatal() {
    let mut m = loaded(Vec::new());
    assert_eq!(m.act(), Err(VmError::OutOfBounds(0, 0)));
}

#[test]
fn index_of_dead_array_is_fatal() {
    let code = inst(Op::Index, 0, 1, 3, 0, 0);
    let mut m = loaded(vec![code]);
    m.r.write(Index::new(1), Register(99));
    assert_eq!(m.act(), Err(VmError::BadArrayId(99)));
}

#[test]
fn index_past_length_is_fatal() {
    let code = inst(Op::Index, 0, 1, 3, 0, 0);
    let mut m = loaded(vec![code]);
    m.r.write(Index::new(1), Register(0));
    m.r.write(Index::new(3), Register(7));
    assert_eq!(m.act(), Err(VmError::OutOfBounds(0, 7)));
}

#[test]
fn amend_of_dead_array_is_fatal() {
    let code = inst(Op::Amend, 1, 3, 4, 0, 0);
    let mut m = loaded(vec![code]);
    m.r.write(Index::new(1), Register(5));
    assert_eq!(m.act(), Err(VmError::BadArrayId(5)));
}

#[test]
fn abandon_of_reserved_array_is_fatal() {
    let code = inst(Op::Aband, 0, 0, 2, 0, 0);
    let mut m = loaded(vec![code]);
    assert_eq!(m.act(), Err(VmError::AbandonReserved));
}

#[test]
fn abandon_of_dead_array_is_fatal() {
    let code = inst(Op::Aband, 0, 0, 2, 0, 0);
    let mut m = loaded(vec![code]);
    m.r.write(Index::new(2), Register(4));
    assert_eq!(m.act(), Err(VmError::BadArrayId(4)));
}

#[test]
fn divide_by_zero_is_fatal() {
    let code = inst(Op::Div, 2, 0, 1, 0, 0);
    let mut m = loaded(vec![code]);
    m.r.write(Index::new(0), Register(7));
    assert_eq!(m.act(), Err(VmError::DivideByZero));
}

#[test]
fn output_above_byte_range_is_fatal() {
    let code = inst(Op::Output, 0, 0, 3, 0, 0);
    let mut m = loaded(vec![code]);
    m.r.write(Index::new(3), Register(256));
    assert_eq!(m.act(), Err(VmError::OutputOverflow(256)));
}

#[test]
fn fault_leaves_cursor_at_instruction() {
    let code = inst(Op::Div, 2, 0, 1, 0, 0);
    let mut m = loaded(vec![code]);
    assert_eq!(m.ip, 0);
    assert!(m.act().is_err());
    assert_eq!(m.ip, 0);
}

#[test]
fn amend_array_zero_self_modifies() {
    // Writing a halt word over the next instruction must take effect.
    let amend_code = inst(Op::Amend, 1, 3, 4, 0, 0);
    let halt_code = inst(Op::Halt, 0, 0, 0, 0, 0);
    let mut m = loaded(vec![amend_code, 0xE000_0000]);
    m.r.write(Index::new(1), Register(0));
    m.r.write(Index::new(3), Register(1));
    m.r.write(Index::new(4), Register(halt_code));
    m.act().unwrap();
    assert_eq!(m.act().unwrap(), Effect::Halted);
}
