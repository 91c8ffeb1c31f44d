use assembler::assemble::{assemble, first_pass, replace_label, LabelTable, INSTRUCTION_WIDTH};
use assembler::decode::{analyze_line, AsmError, Immediate, Instruction};
use assembler::isa::{Operator, OperatorType, Register};

fn lines(src: &[&str]) -> Vec<String> {
    src.iter().map(|s| s.to_string()).collect()
}

fn ins(
    op: Operator,
    rd: Register,
    rs1: Option<Register>,
    rs2: Option<Register>,
    imm: Option<Immediate>,
) -> Instruction {
    Instruction { op, rd, rs1, rs2, imm }
}

#[test]
fn scenario_program_addresses_and_displacements() {
    let src = lines(&["L1: ADDI r1 r0 5", "BEQ r1 r0 L2", "JAL r2 L1", "L2: CSR r3"]);
    let (labels, listing) = first_pass(&src).unwrap();
    assert_eq!(labels.get(&"L1".to_string()), Some(0x0));
    assert_eq!(labels.get(&"L2".to_string()), Some(0xC));
    let addrs: Vec<u32> = listing.iter().map(|e| e.0).collect();
    assert_eq!(addrs, vec![0x0, 0x4, 0x8, 0xC]);

    let out = assemble(&src).unwrap();
    let addrs: Vec<u32> = out.iter().map(|e| e.0).collect();
    assert_eq!(addrs, vec![0x0, 0x4, 0x8, 0xC]);
    assert_eq!(
        out[0].1,
        ins(Operator::Addi, Register::R1, Some(Register::R0), None, Some(Immediate::S32(5)))
    );
    // beq at 0x4 refers forward to L2 = 0xC: 0xC - (0x4 + 4)
    assert_eq!(
        out[1].1,
        ins(Operator::Beq, Register::R1, Some(Register::R0), None, Some(Immediate::S32(4)))
    );
    // jal at 0x8 refers back to L1 = 0x0: 0x0 - (0x8 + 4)
    assert_eq!(out[2].1, ins(Operator::Jal, Register::R2, None, None, Some(Immediate::S32(-12))));
    assert_eq!(out[3].1, ins(Operator::Csr, Register::R3, None, None, None));
}

#[test]
fn lower_case_mnemonics_are_not_operators() {
    let src = lines(&["L1: addi r1 r0 5", "beq r1 r0 L2", "jal r2 L1", "L2: csr r3"]);
    assert_eq!(assemble(&src), Err(AsmError::UnknownOperator));
}

#[test]
fn decode_each_shape() {
    assert_eq!(
        analyze_line("ADD r1 r2 r3".to_string()),
        Ok(ins(Operator::Add, Register::R1, Some(Register::R2), Some(Register::R3), None))
    );
    assert_eq!(
        analyze_line("  SRA\tr15 r0  r7  ".to_string()),
        Ok(ins(Operator::Sra, Register::R15, Some(Register::R0), Some(Register::R7), None))
    );
    assert_eq!(
        analyze_line("LW r4 r5 -16".to_string()),
        Ok(ins(Operator::Lw, Register::R4, Some(Register::R5), None, Some(Immediate::S32(-16))))
    );
    assert_eq!(
        analyze_line("LUI r9 +4096".to_string()),
        Ok(ins(Operator::Lui, Register::R9, None, None, Some(Immediate::S32(4096))))
    );
    assert_eq!(
        analyze_line("CSR r12".to_string()),
        Ok(ins(Operator::Csr, Register::R12, None, None, None))
    );
}

#[test]
fn decode_label_reference() {
    assert_eq!(
        analyze_line("BNE r1 r2 loop".to_string()),
        Ok(ins(
            Operator::Bne,
            Register::R1,
            Some(Register::R2),
            None,
            Some(Immediate::Label("loop".to_string()))
        ))
    );
    assert_eq!(
        analyze_line("JAL r1 12x".to_string()),
        Ok(ins(Operator::Jal, Register::R1, None, None, Some(Immediate::Label("12x".to_string()))))
    );
    assert_eq!(
        analyze_line("JAL r1 -".to_string()),
        Ok(ins(Operator::Jal, Register::R1, None, None, Some(Immediate::Label("-".to_string()))))
    );
}

#[test]
fn decode_immediate_range_edges() {
    assert_eq!(
        analyze_line("JAL r1 2147483647".to_string()).unwrap().imm,
        Some(Immediate::S32(i32::MAX))
    );
    assert_eq!(
        analyze_line("JAL r1 -2147483648".to_string()).unwrap().imm,
        Some(Immediate::S32(i32::MIN))
    );
    assert_eq!(
        analyze_line("JAL r1 2147483648".to_string()).unwrap().imm,
        Some(Immediate::Label("2147483648".to_string()))
    );
    assert_eq!(
        analyze_line("JAL r1 -2147483649".to_string()).unwrap().imm,
        Some(Immediate::Label("-2147483649".to_string()))
    );
    assert_eq!(
        analyze_line("JAL r1 00000000000000000000042".to_string()).unwrap().imm,
        Some(Immediate::S32(42))
    );
}

#[test]
fn decode_errors() {
    assert_eq!(analyze_line("XYZ r1 r2 r3".to_string()), Err(AsmError::UnknownOperator));
    assert_eq!(analyze_line("add r1 r2 r3".to_string()), Err(AsmError::UnknownOperator));
    assert_eq!(analyze_line("ADD r1 r2 r16".to_string()), Err(AsmError::UnknownRegister));
    assert_eq!(analyze_line("CSR R1".to_string()), Err(AsmError::UnknownRegister));
    assert_eq!(analyze_line("ADD r1 r2".to_string()), Err(AsmError::MalformedLine));
    assert_eq!(analyze_line("ADDI r1 r2".to_string()), Err(AsmError::MalformedLine));
    assert_eq!(analyze_line("JAL r1".to_string()), Err(AsmError::MalformedLine));
    assert_eq!(analyze_line("CSR".to_string()), Err(AsmError::MalformedLine));
    assert_eq!(analyze_line("   ".to_string()), Err(AsmError::MalformedLine));
}

#[test]
fn family_table_is_total() {
    let dss = [
        Operator::Add,
        Operator::Sub,
        Operator::And,
        Operator::Or,
        Operator::Xor,
        Operator::Slt,
        Operator::Sltu,
        Operator::Sll,
        Operator::Srl,
        Operator::Sra,
    ];
    let dsi = [
        Operator::Addi,
        Operator::Andi,
        Operator::Ori,
        Operator::Xori,
        Operator::Slti,
        Operator::Sltiu,
        Operator::Lw,
        Operator::Sw,
        Operator::Beq,
        Operator::Bne,
        Operator::Jalr,
    ];
    for op in dss.iter() {
        assert_eq!(op.get_type(), OperatorType::Dss);
    }
    for op in dsi.iter() {
        assert_eq!(op.get_type(), OperatorType::Dsi);
    }
    assert_eq!(Operator::Lui.get_type(), OperatorType::Di);
    assert_eq!(Operator::Jal.get_type(), OperatorType::Di);
    assert_eq!(Operator::Csr.get_type(), OperatorType::D);
}

#[test]
fn catalog_names_read_back() {
    for op in [Operator::Add, Operator::Sltiu, Operator::Jalr, Operator::Csr].iter() {
        assert_eq!(Operator::from(op.mnemonic()), Some(*op));
    }
    assert_eq!(Operator::from("SLTIU"), Some(Operator::Sltiu));
    assert_eq!(Operator::from("SLTIUX"), None);
    assert_eq!(Operator::from(""), None);
    assert_eq!(Register::from("r0"), Some(Register::R0));
    assert_eq!(Register::from("r15"), Some(Register::R15));
    assert_eq!(Register::from("r16"), None);
    assert_eq!(Register::R10.name(), "r10");
    assert_eq!(Operator::Beq.mnemonic(), "BEQ");
}

#[test]
fn blank_and_comment_lines_take_no_address() {
    let src = lines(&["", "; header", "ADD r1 r2 r3", "   ", "\t; indented comment", "CSR r1"]);
    let out = assemble(&src).unwrap();
    assert_eq!(out.len(), 2);
    assert_eq!(out[0].0, 0);
    assert_eq!(out[1].0, INSTRUCTION_WIDTH);
}

#[test]
fn label_alone_and_label_with_comment() {
    let src = lines(&["start:", "ADD r1 r2 r3", "end: ; done", "JAL r0 start", "JAL r0 end"]);
    let out = assemble(&src).unwrap();
    assert_eq!(out.len(), 3);
    assert_eq!(out[1].1.imm, Some(Immediate::S32(0 - (4 + 4))));
    assert_eq!(out[2].1.imm, Some(Immediate::S32(4 - (8 + 4))));
}

#[test]
fn forward_reference_is_positive() {
    let src = lines(&["BEQ r1 r2 far", "ADD r1 r2 r3", "ADD r1 r2 r3", "far: CSR r0"]);
    let out = assemble(&src).unwrap();
    assert_eq!(out[0].1.imm, Some(Immediate::S32(12 - (0 + 4))));
    assert_eq!(out[3].0, 12);
}

#[test]
fn self_reference_is_minus_width() {
    let src = lines(&["here: JAL r0 here"]);
    let out = assemble(&src).unwrap();
    assert_eq!(out[0].1.imm, Some(Immediate::S32(-4)));
}

#[test]
fn redefined_label_last_binding_wins() {
    let src = lines(&["x:", "ADD r1 r2 r3", "x:", "JAL r0 x"]);
    let (labels, _) = first_pass(&src).unwrap();
    assert_eq!(labels.get(&"x".to_string()), Some(4));
    let out = assemble(&src).unwrap();
    assert_eq!(out[1].1.imm, Some(Immediate::S32(4 - (4 + 4))));
}

#[test]
fn unknown_label_fails_the_run() {
    let src = lines(&["ADD r1 r2 r3", "BEQ r1 r2 nowhere"]);
    assert_eq!(assemble(&src), Err(AsmError::UnknownLabel));
}

#[test]
fn first_decoding_error_ends_the_run() {
    let src = lines(&["ADD r1 r2 r3", "FOO r1", "ADD r1 r2 r99"]);
    assert_eq!(assemble(&src).err(), Some(AsmError::UnknownOperator));
    assert!(first_pass(&src).is_err());
}

#[test]
fn replace_label_leaves_listing_on_error() {
    let mut listing = vec![
        (0u32, ins(Operator::Jal, Register::R1, None, None, Some(Immediate::Label("a".to_string())))),
        (4u32, ins(Operator::Jal, Register::R1, None, None, Some(Immediate::Label("b".to_string())))),
    ];
    let before = listing.clone();
    let mut labels = LabelTable::new();
    labels.insert("a".to_string(), 8);
    assert_eq!(replace_label(&mut listing, &labels), Err(AsmError::UnknownLabel));
    assert_eq!(listing, before);
    labels.insert("b".to_string(), 0);
    assert_eq!(replace_label(&mut listing, &labels), Ok(()));
    assert_eq!(listing[0].1.imm, Some(Immediate::S32(4)));
    assert_eq!(listing[1].1.imm, Some(Immediate::S32(-8)));
}

#[test]
fn displacement_at_the_ends_of_the_range() {
    let far = 0x7FFF_FFF0u32;
    let mut listing = vec![
        (far, ins(Operator::Jal, Register::R0, None, None, Some(Immediate::Label("lo".to_string())))),
        (0u32, ins(Operator::Jal, Register::R0, None, None, Some(Immediate::Label("hi".to_string())))),
        (8u32, ins(Operator::Addi, Register::R1, Some(Register::R1), None, Some(Immediate::S32(7)))),
    ];
    let mut labels = LabelTable::new();
    labels.insert("lo".to_string(), 0);
    labels.insert("hi".to_string(), 0x7FFF_FFFF);
    assert_eq!(replace_label(&mut listing, &labels), Ok(()));
    let d0 = match listing[0].1.imm {
        Some(Immediate::S32(d)) => d,
        _ => panic!("unresolved"),
    };
    assert_eq!(d0, -0x7FFF_FFF4);
    assert_eq!((far as i64 + 4 + d0 as i64) as u32, 0);
    assert_eq!(listing[1].1.imm, Some(Immediate::S32(0x7FFF_FFFB)));
    assert_eq!(listing[2].1.imm, Some(Immediate::S32(7)));
}

#[test]
fn resolved_output_has_no_label() {
    let src = lines(&["a: BEQ r1 r2 b", "b: BNE r1 r2 a", "JALR r1 r2 a", "LUI r3 100"]);
    let out = assemble(&src).unwrap();
    for (_, i) in out.iter() {
        assert!(!matches!(i.imm, Some(Immediate::Label(_))));
    }
}

#[test]
fn empty_program() {
    let out = assemble(&Vec::new()).unwrap();
    assert!(out.is_empty());
}

#[test]
fn equal_values_decode_alike_whatever_their_spelling() {
    let a = analyze_line("SW r1 r2 -12".to_string()).unwrap();
    let b = analyze_line("SW  r1\tr2 -0012 extra".to_string()).unwrap();
    assert_eq!(a, b);
    assert_eq!(
        analyze_line("ADDI r1 r2 -0".to_string()).unwrap().imm,
        Some(Immediate::S32(0))
    );
}
