use aluvm::assembler::Assembler;
use aluvm::assembler::AssemblerError;
use aluvm::assembler::ByteAssembler;
use aluvm::assembler::LibId;
use aluvm::assembler::LibSite;
use aluvm::compiler::CompiledLib;
use aluvm::compiler::CompilerError;
use aluvm::isa::BasicInstr;
use aluvm::isa::Instruction;

fn ins(byte_len: u16, entry: bool, goto: Option<u16>) -> BasicInstr {
    BasicInstr { byte_len, entry, goto }
}

fn compile(code: &mut Vec<BasicInstr>) -> Result<CompiledLib, CompilerError<BasicInstr>> {
    CompiledLib::compile::<BasicInstr, ByteAssembler>(code)
}

#[test]
fn empty_sequence_compiles() {
    let mut code: Vec<BasicInstr> = vec![];
    let unit = compile(&mut code).unwrap();
    assert_eq!(unit.routines_count(), 0);
    let lib = unit.into_lib();
    assert!(lib.bytes().is_empty());
    assert_eq!(ByteAssembler::lib_id(&lib), LibId(0));
}

#[test]
fn no_entry_points_no_references() {
    let mut code = vec![ins(1, false, None), ins(2, false, None)];
    let unit = compile(&mut code).unwrap();
    assert_eq!(unit.routines_count(), 0);
    assert_eq!(unit.as_lib().bytes(), &vec![0u8, 0, 0]);
}

#[test]
fn entry_offsets_are_prefix_sums() {
    // entry points at positions 0, 2 and 3: offsets 0, 2+3 and 2+3+4
    let mut code = vec![
        ins(2, true, None),
        ins(3, false, None),
        ins(4, true, None),
        ins(1, true, None),
    ];
    let unit = compile(&mut code).unwrap();
    assert_eq!(unit.routines_count(), 3);
    assert_eq!(unit.routine(0).offset, 0);
    assert_eq!(unit.routine(1).offset, 5);
    assert_eq!(unit.routine(2).offset, 9);
}

#[test]
fn patches_goto_to_entry_offset() {
    // A: length 2, entry point, no goto; B: length 3, goto -> routine 0
    let mut code = vec![ins(2, true, None), ins(3, false, Some(0))];
    let unit = compile(&mut code).unwrap();
    assert_eq!(unit.routines_count(), 1);
    assert_eq!(code[1].local_goto_pos(), Some(0));
    let id = ByteAssembler::lib_id(unit.as_lib());
    assert_eq!(unit.routine(0), LibSite::new(id, 0));
}

#[test]
fn patches_forward_and_backward_references() {
    let mut code = vec![
        ins(3, false, Some(1)), // forward: routine 1 sits at offset 3 + 2 = 5
        ins(2, true, None),     // routine 0, offset 3
        ins(4, true, Some(0)),  // routine 1; its own goto looks back to routine 0
    ];
    let unit = compile(&mut code).unwrap();
    assert_eq!(unit.routines_count(), 2);
    assert_eq!(unit.routine(0).offset, 3);
    assert_eq!(unit.routine(1).offset, 5);
    assert_eq!(code[0].local_goto_pos(), Some(5));
    assert_eq!(code[2].local_goto_pos(), Some(3));
}

#[test]
fn emitted_bytecode_layout() {
    let mut code = vec![ins(2, true, None), ins(3, false, Some(0))];
    let unit = compile(&mut code).unwrap();
    // A: flag 1 (entry), one padding byte; B: flag 2 (goto), goto 0 little-endian
    assert_eq!(unit.as_lib().bytes(), &vec![1u8, 0, 2, 0, 0]);
    assert_eq!(ByteAssembler::lib_id(unit.as_lib()), LibId(8742113800));
}

#[test]
fn goto_split_into_little_endian_bytes() {
    // routine 1 sits at offset 300 = 0x012C, split across two bytes
    let mut code = vec![ins(3, false, Some(1)), ins(297, true, None), ins(1, true, None)];
    let unit = compile(&mut code).unwrap();
    assert_eq!(unit.routine(1).offset, 300);
    assert_eq!(code[0].local_goto_pos(), Some(300));
    let bytes = unit.into_lib();
    assert_eq!(bytes.bytes()[0..3], [2u8, 0x2C, 0x01]);
}

#[test]
fn invalid_reference_with_no_entry_points() {
    // A: length 2, not an entry point, goto -> routine 0; table is empty
    let mut code = vec![ins(2, false, Some(0))];
    match compile(&mut code) {
        Err(CompilerError::InvalidRef(instr, no, offset, table)) => {
            assert_eq!(instr, ins(2, false, Some(0)));
            assert_eq!(no, 0);
            assert_eq!(offset, 0);
            assert_eq!(table, Vec::<u16>::new());
        }
        other => panic!("expected InvalidRef, got {:?}", other.map(|_| ())),
    }
    // the sequence is untouched: the failing goto field keeps its index
    assert_eq!(code[0].local_goto_pos(), Some(0));
}

#[test]
fn invalid_reference_reports_full_table_and_offset() {
    let mut code = vec![ins(2, true, None), ins(3, false, Some(0)), ins(3, false, Some(7))];
    match compile(&mut code) {
        Err(CompilerError::InvalidRef(instr, no, offset, table)) => {
            assert_eq!(instr, ins(3, false, Some(7)));
            assert_eq!(no, 2);
            assert_eq!(offset, 5);
            assert_eq!(table, vec![0u16]);
        }
        other => panic!("expected InvalidRef, got {:?}", other.map(|_| ())),
    }
    // instructions before the failing one are already patched, later ones not
    assert_eq!(code[1].local_goto_pos(), Some(0));
    assert_eq!(code[2].local_goto_pos(), Some(7));
}

#[test]
fn compilation_is_deterministic() {
    let source = vec![ins(2, true, None), ins(3, false, Some(0)), ins(4, true, None)];
    let mut first = source.clone();
    let mut second = source.clone();
    let u1 = compile(&mut first).unwrap();
    let u2 = compile(&mut second).unwrap();
    assert_eq!(u1.routines_count(), u2.routines_count());
    assert_eq!(u1.routine(0), u2.routine(0));
    assert_eq!(u1.routine(1), u2.routine(1));
    assert_eq!(u1.as_lib().bytes(), u2.as_lib().bytes());
    assert_eq!(
        ByteAssembler::lib_id(u1.as_lib()),
        ByteAssembler::lib_id(u2.as_lib())
    );
}

#[test]
fn prefix_instruction_shifts_entry_offset() {
    // one entry point alone: offset 0
    let mut alone = vec![ins(4, true, None)];
    let unit = compile(&mut alone).unwrap();
    assert_eq!(unit.routines_count(), 1);
    assert_eq!(unit.routine(0).offset, 0);
    // the same entry point behind one instruction of length 7: offset 7
    let mut shifted = vec![ins(7, false, None), ins(4, true, None)];
    let unit = compile(&mut shifted).unwrap();
    assert_eq!(unit.routines_count(), 1);
    assert_eq!(unit.routine(0).offset, 7);
}

#[test]
fn code_over_sixteen_bit_space_is_rejected() {
    let mut code = vec![ins(30000, false, None), ins(30000, false, None), ins(30000, false, None)];
    match compile(&mut code) {
        Err(CompilerError::CodeSizeOverflow(no)) => assert_eq!(no, 2),
        other => panic!("expected CodeSizeOverflow, got {:?}", other.map(|_| ())),
    }
}

#[test]
fn code_filling_the_space_exactly_is_accepted() {
    let mut code = vec![ins(65534, false, None), ins(1, true, None)];
    let unit = compile(&mut code).unwrap();
    assert_eq!(unit.routine(0).offset, 65534);
    assert_eq!(unit.as_lib().bytes().len(), 65535);
    let mut over = vec![ins(65535, false, None), ins(1, true, None)];
    match compile(&mut over) {
        Err(CompilerError::CodeSizeOverflow(no)) => assert_eq!(no, 1),
        other => panic!("expected CodeSizeOverflow, got {:?}", other.map(|_| ())),
    }
}

#[test]
fn assembler_rejects_zero_length_instruction() {
    let mut code = vec![ins(0, false, None)];
    match compile(&mut code) {
        Err(CompilerError::Assemble(e)) => assert_eq!(e, AssemblerError),
        other => panic!("expected Assemble, got {:?}", other.map(|_| ())),
    }
}

#[test]
fn assembler_rejects_goto_without_room() {
    // a goto needs a flag byte plus two operand bytes
    let mut code = vec![ins(1, true, None), ins(2, false, Some(0))];
    match compile(&mut code) {
        Err(CompilerError::Assemble(e)) => assert_eq!(e, AssemblerError),
        other => panic!("expected Assemble, got {:?}", other.map(|_| ())),
    }
}

#[test]
fn instruction_capabilities() {
    let mut i = ins(3, true, Some(2));
    assert_eq!(i.code_byte_len(), 3);
    assert!(i.is_local_goto_target());
    assert_eq!(i.local_goto_pos(), Some(2));
    assert_eq!(i.dup(), i);
    i.set_local_goto_pos(9);
    assert_eq!(i, ins(3, true, Some(9)));
    let plain = ins(1, false, None);
    assert_eq!(plain.local_goto_pos(), None);
    assert!(!plain.is_local_goto_target());
}
