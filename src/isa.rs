use vstd::prelude::*;
use crate::lex::{chars_of, token_is};

verus! {

/// The operators of the machine, one per mnemonic.
#[derive(Clone, Copy, Debug, PartialEq, Eq, Structural)]
pub enum Operator {
    Add,
    Sub,
    And,
    Or,
    Xor,
    Slt,
    Sltu,
    Sll,
    Srl,
    Sra,
    Addi,
    Andi,
    Ori,
    Xori,
    Slti,
    Sltiu,
    Lw,
    Sw,
    Beq,
    Bne,
    Lui,
    Jal,
    Jalr,
    Csr,
}

/// The operand shape of an operator.
#[derive(Clone, Copy, Debug, PartialEq, Eq, Structural)]
pub enum OperatorType {
    /// `op rd rs1 rs2`
    Dss,
    /// `op rd rs1 imm`
    Dsi,
    /// `op rd imm`
    Di,
    /// `op rd`
    D,
}

/// The operand shape of each operator.
pub open spec fn family_of(op: Operator) -> OperatorType {
    match op {
        Operator::Add => OperatorType::Dss,
        Operator::Sub => OperatorType::Dss,
        Operator::And => OperatorType::Dss,
        Operator::Or => OperatorType::Dss,
        Operator::Xor => OperatorType::Dss,
        Operator::Slt => OperatorType::Dss,
        Operator::Sltu => OperatorType::Dss,
        Operator::Sll => OperatorType::Dss,
        Operator::Srl => OperatorType::Dss,
        Operator::Sra => OperatorType::Dss,
        Operator::Addi => OperatorType::Dsi,
        Operator::Andi => OperatorType::Dsi,
        Operator::Ori => OperatorType::Dsi,
        Operator::Xori => OperatorType::Dsi,
        Operator::Slti => OperatorType::Dsi,
        Operator::Sltiu => OperatorType::Dsi,
        Operator::Lw => OperatorType::Dsi,
        Operator::Sw => OperatorType::Dsi,
        Operator::Beq => OperatorType::Dsi,
        Operator::Bne => OperatorType::Dsi,
        Operator::Lui => OperatorType::Di,
        Operator::Jal => OperatorType::Di,
        Operator::Jalr => OperatorType::Dsi,
        Operator::Csr => OperatorType::D,
    }
}

/// The upper-case mnemonic that names each operator in source text.
pub open spec fn operator_name(op: Operator) -> Seq<char> {
    match op {
        Operator::Add => seq!['A', 'D', 'D'],
        Operator::Sub => seq!['S', 'U', 'B'],
        Operator::And => seq!['A', 'N', 'D'],
        Operator::Or => seq!['O', 'R'],
        Operator::Xor => seq!['X', 'O', 'R'],
        Operator::Slt => seq!['S', 'L', 'T'],
        Operator::Sltu => seq!['S', 'L', 'T', 'U'],
        Operator::Sll => seq!['S', 'L', 'L'],
        Operator::Srl => seq!['S', 'R', 'L'],
        Operator::Sra => seq!['S', 'R', 'A'],
        Operator::Addi => seq!['A', 'D', 'D', 'I'],
        Operator::Andi => seq!['A', 'N', 'D', 'I'],
        Operator::Ori => seq!['O', 'R', 'I'],
        Operator::Xori => seq!['X', 'O', 'R', 'I'],
        Operator::Slti => seq!['S', 'L', 'T', 'I'],
        Operator::Sltiu => seq!['S', 'L', 'T', 'I', 'U'],
        Operator::Lw => seq!['L', 'W'],
        Operator::Sw => seq!['S', 'W'],
        Operator::Beq => seq!['B', 'E', 'Q'],
        Operator::Bne => seq!['B', 'N', 'E'],
        Operator::Lui => seq!['L', 'U', 'I'],
        Operator::Jal => seq!['J', 'A', 'L'],
        Operator::Jalr => seq!['J', 'A', 'L', 'R'],
        Operator::Csr => seq!['C', 'S', 'R'],
    }
}

/// The operator whose mnemonic is exactly `s`, if any.
pub open spec fn operator_named(s: Seq<char>) -> Option<Operator> {
    if s == operator_name(Operator::Add) {
        Some(Operator::Add)
    } else if s == operator_name(Operator::Sub) {
        Some(Operator::Sub)
    } else if s == operator_name(Operator::And) {
        Some(Operator::And)
    } else if s == operator_name(Operator::Or) {
        Some(Operator::Or)
    } else if s == operator_name(Operator::Xor) {
        Some(Operator::Xor)
    } else if s == operator_name(Operator::Slt) {
        Some(Operator::Slt)
    } else if s == operator_name(Operator::Sltu) {
        Some(Operator::Sltu)
    } else if s == operator_name(Operator::Sll) {
        Some(Operator::Sll)
    } else if s == operator_name(Operator::Srl) {
        Some(Operator::Srl)
    } else if s == operator_name(Operator::Sra) {
        Some(Operator::Sra)
    } else if s == operator_name(Operator::Addi) {
        Some(Operator::Addi)
    } else if s == operator_name(Operator::Andi) {
        Some(Operator::Andi)
    } else if s == operator_name(Operator::Ori) {
        Some(Operator::Ori)
    } else if s == operator_name(Operator::Xori) {
        Some(Operator::Xori)
    } else if s == operator_name(Operator::Slti) {
        Some(Operator::Slti)
    } else if s == operator_name(Operator::Sltiu) {
        Some(Operator::Sltiu)
    } else if s == operator_name(Operator::Lw) {
        Some(Operator::Lw)
    } else if s == operator_name(Operator::Sw) {
        Some(Operator::Sw)
    } else if s == operator_name(Operator::Beq) {
        Some(Operator::Beq)
    } else if s == operator_name(Operator::Bne) {
        Some(Operator::Bne)
    } else if s == operator_name(Operator::Lui) {
        Some(Operator::Lui)
    } else if s == operator_name(Operator::Jal) {
        Some(Operator::Jal)
    } else if s == operator_name(Operator::Jalr) {
        Some(Operator::Jalr)
    } else if s == operator_name(Operator::Csr) {
        Some(Operator::Csr)
    } else {
        None
    }
}

/// The registers of the machine, `r0` to `r15`.
#[derive(Clone, Copy, Debug, PartialEq, Eq, Structural)]
pub enum Register {
    R0,
    R1,
    R2,
    R3,
    R4,
    R5,
    R6,
    R7,
    R8,
    R9,
    R10,
    R11,
    R12,
    R13,
    R14,
    R15,
}

/// The lower-case name of each register in source text.
pub open spec fn register_name(r: Register) -> Seq<char> {
    match r {
        Register::R0 => seq!['r', '0'],
        Register::R1 => seq!['r', '1'],
        Register::R2 => seq!['r', '2'],
        Register::R3 => seq!['r', '3'],
        Register::R4 => seq!['r', '4'],
        Register::R5 => seq!['r', '5'],
        Register::R6 => seq!['r', '6'],
        Register::R7 => seq!['r', '7'],
        Register::R8 => seq!['r', '8'],
        Register::R9 => seq!['r', '9'],
        Register::R10 => seq!['r', '1', '0'],
        Register::R11 => seq!['r', '1', '1'],
        Register::R12 => seq!['r', '1', '2'],
        Register::R13 => seq!['r', '1', '3'],
        Register::R14 => seq!['r', '1', '4'],
        Register::R15 => seq!['r', '1', '5'],
    }
}

/// The register whose name is exactly `s`, if any.
pub open spec fn register_named(s: Seq<char>) -> Option<Register> {
    if s == register_name(Register::R0) {
        Some(Register::R0)
    } else if s == register_name(Register::R1) {
        Some(Register::R1)
    } else if s == register_name(Register::R2) {
        Some(Register::R2)
    } else if s == register_name(Register::R3) {
        Some(Register::R3)
    } else if s == register_name(Register::R4) {
        Some(Register::R4)
    } else if s == register_name(Register::R5) {
        Some(Register::R5)
    } else if s == register_name(Register::R6) {
        Some(Register::R6)
    } else if s == register_name(Register::R7) {
        Some(Register::R7)
    } else if s == register_name(Register::R8) {
        Some(Register::R8)
    } else if s == register_name(Register::R9) {
        Some(Register::R9)
    } else if s == register_name(Register::R10) {
        Some(Register::R10)
    } else if s == register_name(Register::R11) {
        Some(Register::R11)
    } else if s == register_name(Register::R12) {
        Some(Register::R12)
    } else if s == register_name(Register::R13) {
        Some(Register::R13)
    } else if s == register_name(Register::R14) {
        Some(Register::R14)
    } else if s == register_name(Register::R15) {
        Some(Register::R15)
    } else {
        None
    }
}

impl Operator {
    /// The operand shape of this operator.
    pub fn get_type(&self) -> (r: OperatorType)
        ensures
            r == family_of(*self),
    {
        match self {
            Operator::Add => OperatorType::Dss,
            Operator::Sub => OperatorType::Dss,
            Operator::And => OperatorType::Dss,
            Operator::Or => OperatorType::Dss,
            Operator::Xor => OperatorType::Dss,
            Operator::Slt => OperatorType::Dss,
            Operator::Sltu => OperatorType::Dss,
            Operator::Sll => OperatorType::Dss,
            Operator::Srl => OperatorType::Dss,
            Operator::Sra => OperatorType::Dss,
            Operator::Addi => OperatorType::Dsi,
            Operator::Andi => OperatorType::Dsi,
            Operator::Ori => OperatorType::Dsi,
            Operator::Xori => OperatorType::Dsi,
            Operator::Slti => OperatorType::Dsi,
            Operator::Sltiu => OperatorType::Dsi,
            Operator::Lw => OperatorType::Dsi,
            Operator::Sw => OperatorType::Dsi,
            Operator::Beq => OperatorType::Dsi,
            Operator::Bne => OperatorType::Dsi,
            Operator::Lui => OperatorType::Di,
            Operator::Jal => OperatorType::Di,
            Operator::Jalr => OperatorType::Dsi,
            Operator::Csr => OperatorType::D,
        }
    }

    /// The mnemonic of this operator.
    pub fn mnemonic(&self) -> (r: &'static str)
        ensures
            r@ == operator_name(*self),
    {
        match self {
            Operator::Add => {
                proof {
                    reveal_strlit("ADD");
                }
                "ADD"
            },
            Operator::Sub => {
                proof {
                    reveal_strlit("SUB");
                }
                "SUB"
            },
            Operator::And => {
                proof {
                    reveal_strlit("AND");
                }
                "AND"
            },
            Operator::Or => {
                proof {
                    reveal_strlit("OR");
                }
                "OR"
            },
            Operator::Xor => {
                proof {
                    reveal_strlit("XOR");
                }
                "XOR"
            },
            Operator::Slt => {
                proof {
                    reveal_strlit("SLT");
                }
                "SLT"
            },
            Operator::Sltu => {
                proof {
                    reveal_strlit("SLTU");
                }
                "SLTU"
            },
            Operator::Sll => {
                proof {
                    reveal_strlit("SLL");
                }
                "SLL"
            },
            Operator::Srl => {
                proof {
                    reveal_strlit("SRL");
                }
                "SRL"
            },
            Operator::Sra => {
                proof {
                    reveal_strlit("SRA");
                }
                "SRA"
            },
            Operator::Addi => {
                proof {
                    reveal_strlit("ADDI");
                }
                "ADDI"
            },
            Operator::Andi => {
                proof {
                    reveal_strlit("ANDI");
                }
                "ANDI"
            },
            Operator::Ori => {
                proof {
                    reveal_strlit("ORI");
                }
                "ORI"
            },
            Operator::Xori => {
                proof {
                    reveal_strlit("XORI");
                }
                "XORI"
            },
            Operator::Slti => {
                proof {
                    reveal_strlit("SLTI");
                }
                "SLTI"
            },
            Operator::Sltiu => {
                proof {
                    reveal_strlit("SLTIU");
                }
                "SLTIU"
            },
            Operator::Lw => {
                proof {
                    reveal_strlit("LW");
                }
                "LW"
            },
            Operator::Sw => {
                proof {
                    reveal_strlit("SW");
                }
                "SW"
            },
            Operator::Beq => {
                proof {
                    reveal_strlit("BEQ");
                }
                "BEQ"
            },
            Operator::Bne => {
                proof {
                    reveal_strlit("BNE");
                }
                "BNE"
            },
            Operator::Lui => {
                proof {
                    reveal_strlit("LUI");
                }
                "LUI"
            },
            Operator::Jal => {
                proof {
                    reveal_strlit("JAL");
                }
                "JAL"
            },
            Operator::Jalr => {
                proof {
                    reveal_strlit("JALR");
                }
                "JALR"
            },
            Operator::Csr => {
                proof {
                    reveal_strlit("CSR");
                }
                "CSR"
            },
        }
    }
}

impl Register {
    /// The name of this register.
    pub fn name(&self) -> (r: &'static str)
        ensures
            r@ == register_name(*self),
    {
        match self {
            Register::R0 => {
                proof {
                    reveal_strlit("r0");
                }
                "r0"
            },
            Register::R1 => {
                proof {
                    reveal_strlit("r1");
                }
                "r1"
            },
            Register::R2 => {
                proof {
                    reveal_strlit("r2");
                }
                "r2"
            },
            Register::R3 => {
                proof {
                    reveal_strlit("r3");
                }
                "r3"
            },
            Register::R4 => {
                proof {
                    reveal_strlit("r4");
                }
                "r4"
            },
            Register::R5 => {
                proof {
                    reveal_strlit("r5");
                }
                "r5"
            },
            Register::R6 => {
                proof {
                    reveal_strlit("r6");
                }
                "r6"
            },
            Register::R7 => {
                proof {
                    reveal_strlit("r7");
                }
                "r7"
            },
            Register::R8 => {
                proof {
                    reveal_strlit("r8");
                }
                "r8"
            },
            Register::R9 => {
                proof {
                    reveal_strlit("r9");
                }
                "r9"
            },
            Register::R10 => {
                proof {
                    reveal_strlit("r10");
                }
                "r10"
            },
            Register::R11 => {
                proof {
                    reveal_strlit("r11");
                }
                "r11"
            },
            Register::R12 => {
                proof {
                    reveal_strlit("r12");
                }
                "r12"
            },
            Register::R13 => {
                proof {
                    reveal_strlit("r13");
                }
                "r13"
            },
            Register::R14 => {
                proof {
                    reveal_strlit("r14");
                }
                "r14"
            },
            Register::R15 => {
                proof {
                    reveal_strlit("r15");
                }
                "r15"
            },
        }
    }
}

/// The operator spelt by `chars[a..b]`.
pub fn operator_at(chars: &Vec<char>, a: usize, b: usize) -> (r: Option<Operator>)
    requires
        a <= b <= chars@.len(),
    ensures
        r == operator_named(chars@.subrange(a as int, b as int)),
{
    if token_is(chars, a, b, Operator::Add.mnemonic()) {
        Some(Operator::Add)
    } else if token_is(chars, a, b, Operator::Sub.mnemonic()) {
        Some(Operator::Sub)
    } else if token_is(chars, a, b, Operator::And.mnemonic()) {
        Some(Operator::And)
    } else if token_is(chars, a, b, Operator::Or.mnemonic()) {
        Some(Operator::Or)
    } else if token_is(chars, a, b, Operator::Xor.mnemonic()) {
        Some(Operator::Xor)
    } else if token_is(chars, a, b, Operator::Slt.mnemonic()) {
        Some(Operator::Slt)
    } else if token_is(chars, a, b, Operator::Sltu.mnemonic()) {
        Some(Operator::Sltu)
    } else if token_is(chars, a, b, Operator::Sll.mnemonic()) {
        Some(Operator::Sll)
    } else if token_is(chars, a, b, Operator::Srl.mnemonic()) {
        Some(Operator::Srl)
    } else if token_is(chars, a, b, Operator::Sra.mnemonic()) {
        Some(Operator::Sra)
    } else if token_is(chars, a, b, Operator::Addi.mnemonic()) {
        Some(Operator::Addi)
    } else if token_is(chars, a, b, Operator::Andi.mnemonic()) {
        Some(Operator::Andi)
    } else if token_is(chars, a, b, Operator::Ori.mnemonic()) {
        Some(Operator::Ori)
    } else if token_is(chars, a, b, Operator::Xori.mnemonic()) {
        Some(Operator::Xori)
    } else if token_is(chars, a, b, Operator::Slti.mnemonic()) {
        Some(Operator::Slti)
    } else if token_is(chars, a, b, Operator::Sltiu.mnemonic()) {
        Some(Operator::Sltiu)
    } else if token_is(chars, a, b, Operator::Lw.mnemonic()) {
        Some(Operator::Lw)
    } else if token_is(chars, a, b, Operator::Sw.mnemonic()) {
        Some(Operator::Sw)
    } else if token_is(chars, a, b, Operator::Beq.mnemonic()) {
        Some(Operator::Beq)
    } else if token_is(chars, a, b, Operator::Bne.mnemonic()) {
        Some(Operator::Bne)
    } else if token_is(chars, a, b, Operator::Lui.mnemonic()) {
        Some(Operator::Lui)
    } else if token_is(chars, a, b, Operator::Jal.mnemonic()) {
        Some(Operator::Jal)
    } else if token_is(chars, a, b, Operator::Jalr.mnemonic()) {
        Some(Operator::Jalr)
    } else if token_is(chars, a, b, Operator::Csr.mnemonic()) {
        Some(Operator::Csr)
    } else {
        None
    }
}

/// The register spelt by `chars[a..b]`.
pub fn register_at(chars: &Vec<char>, a: usize, b: usize) -> (r: Option<Register>)
    requires
        a <= b <= chars@.len(),
    ensures
        r == register_named(chars@.subrange(a as int, b as int)),
{
    if token_is(chars, a, b, Register::R0.name()) {
        Some(Register::R0)
    } else if token_is(chars, a, b, Register::R1.name()) {
        Some(Register::R1)
    } else if token_is(chars, a, b, Register::R2.name()) {
        Some(Register::R2)
    } else if token_is(chars, a, b, Register::R3.name()) {
        Some(Register::R3)
    } else if token_is(chars, a, b, Register::R4.name()) {
        Some(Register::R4)
    } else if token_is(chars, a, b, Register::R5.name()) {
        Some(Register::R5)
    } else if token_is(chars, a, b, Register::R6.name()) {
        Some(Register::R6)
    } else if token_is(chars, a, b, Register::R7.name()) {
        Some(Register::R7)
    } else if token_is(chars, a, b, Register::R8.name()) {
        Some(Register::R8)
    } else if token_is(chars, a, b, Register::R9.name()) {
        Some(Register::R9)
    } else if token_is(chars, a, b, Register::R10.name()) {
        Some(Register::R10)
    } else if token_is(chars, a, b, Register::R11.name()) {
        Some(Register::R11)
    } else if token_is(chars, a, b, Register::R12.name()) {
        Some(Register::R12)
    } else if token_is(chars, a, b, Register::R13.name()) {
        Some(Register::R13)
    } else if token_is(chars, a, b, Register::R14.name()) {
        Some(Register::R14)
    } else if token_is(chars, a, b, Register::R15.name()) {
        Some(Register::R15)
    } else {
        None
    }
}


impl Operator {
    /// The operator whose mnemonic is exactly `mnemonic` (upper case), if any.
    pub fn from(mnemonic: &str) -> (r: Option<Operator>)
        ensures
            r == operator_named(mnemonic@),
    {
        let chars = chars_of(mnemonic);
        proof {
            assert(chars@.subrange(0, chars@.len() as int) =~= chars@);
        }
        operator_at(&chars, 0, chars.len())
    }
}

impl Register {
    /// The register whose name is exactly `name` (`r0` to `r15`), if any.
    pub fn from(name: &str) -> (r: Option<Register>)
        ensures
            r == register_named(name@),
    {
        let chars = chars_of(name);
        proof {
            assert(chars@.subrange(0, chars@.len() as int) =~= chars@);
        }
        register_at(&chars, 0, chars.len())
    }
}

} // verus!
