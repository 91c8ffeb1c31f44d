use vstd::prelude::*;
use crate::isa::{
    family_of, operator_at, operator_named, register_at, register_named, Operator, OperatorType,
    Register,
};
use crate::lex::{chars_of, parse_i32, parse_i32_at, spans_match, tokenize, tokens_of};

verus! {

/// Errors of decoding and resolution; each is fatal to the whole run.
#[derive(Clone, Copy, Debug, PartialEq, Eq, Structural)]
pub enum AsmError {
    /// The mnemonic is not in the operator catalog.
    UnknownOperator,
    /// A token where a register was expected is not a register name.
    UnknownRegister,
    /// An immediate names a label that the program never binds.
    UnknownLabel,
    /// The line has fewer tokens than its operator's shape requires.
    MalformedLine,
}

/// An immediate operand: a resolved 32-bit constant, or a reference to a
/// label that the resolution pass has yet to turn into a displacement.
#[derive(Clone, Debug, PartialEq, Eq)]
pub enum Immediate {
    S32(i32),
    Label(String),
}

/// The mathematical value of an [`Immediate`].
pub enum ImmView {
    S32(i32),
    Label(Seq<char>),
}

impl View for Immediate {
    type V = ImmView;

    open spec fn view(&self) -> ImmView {
        match self {
            Immediate::S32(v) => ImmView::S32(*v),
            Immediate::Label(name) => ImmView::Label(name@),
        }
    }
}

/// One decoded instruction. Which optional fields are present is fixed by
/// the operator's shape (see [`shape_ok`]).
#[derive(Clone, Debug, PartialEq, Eq)]
pub struct Instruction {
    /// The operator.
    pub op: Operator,
    /// The destination register.
    pub rd: Register,
    /// The first source register: present for `Dss` and `Dsi`.
    pub rs1: Option<Register>,
    /// The second source register: present for `Dss` only.
    pub rs2: Option<Register>,
    /// The immediate: present for `Dsi` and `Di`.
    pub imm: Option<Immediate>,
}

/// The mathematical value of an [`Instruction`].
pub struct InstrView {
    pub op: Operator,
    pub rd: Register,
    pub rs1: Option<Register>,
    pub rs2: Option<Register>,
    pub imm: Option<ImmView>,
}

impl View for Instruction {
    type V = InstrView;

    open spec fn view(&self) -> InstrView {
        InstrView {
            op: self.op,
            rd: self.rd,
            rs1: self.rs1,
            rs2: self.rs2,
            imm: match self.imm {
                Some(i) => Some(i@),
                None => None,
            },
        }
    }
}

/// The fields that are present are exactly those that the operator's shape
/// requires.
pub open spec fn shape_ok(v: InstrView) -> bool {
    match family_of(v.op) {
        OperatorType::Dss => v.rs1 is Some && v.rs2 is Some && v.imm is None,
        OperatorType::Dsi => v.rs1 is Some && v.rs2 is None && v.imm is Some,
        OperatorType::Di => v.rs1 is None && v.rs2 is None && v.imm is Some,
        OperatorType::D => v.rs1 is None && v.rs2 is None && v.imm is None,
    }
}

/// The number of operand tokens that follow the mnemonic.
pub open spec fn operand_count(f: OperatorType) -> nat {
    match f {
        OperatorType::Dss => 3,
        OperatorType::Dsi => 3,
        OperatorType::Di => 2,
        OperatorType::D => 1,
    }
}

/// An immediate token: a decimal constant where it reads as one, else a
/// label reference.
pub open spec fn imm_of(s: Seq<char>) -> ImmView {
    match parse_i32(s) {
        Some(v) => ImmView::S32(v),
        None => ImmView::Label(s),
    }
}

/// Decoding the tokens of one instruction: the mnemonic, then the operands
/// that its shape asks for, in order. Tokens past those are not read.
pub open spec fn decode_tokens(t: Seq<Seq<char>>) -> Result<InstrView, AsmError> {
    if t.len() == 0 {
        Err(AsmError::MalformedLine)
    } else {
        match operator_named(t[0]) {
            None => Err(AsmError::UnknownOperator),
            Some(op) => if t.len() < 1 + operand_count(family_of(op)) {
                Err(AsmError::MalformedLine)
            } else {
                match family_of(op) {
                    OperatorType::Dss => match (
                        register_named(t[1]),
                        register_named(t[2]),
                        register_named(t[3]),
                    ) {
                        (Some(rd), Some(rs1), Some(rs2)) => Ok(
                            InstrView { op, rd, rs1: Some(rs1), rs2: Some(rs2), imm: None },
                        ),
                        _ => Err(AsmError::UnknownRegister),
                    },
                    OperatorType::Dsi => match (register_named(t[1]), register_named(t[2])) {
                        (Some(rd), Some(rs1)) => Ok(
                            InstrView { op, rd, rs1: Some(rs1), rs2: None, imm: Some(imm_of(t[3])) },
                        ),
                        _ => Err(AsmError::UnknownRegister),
                    },
                    OperatorType::Di => match register_named(t[1]) {
                        Some(rd) => Ok(
                            InstrView { op, rd, rs1: None, rs2: None, imm: Some(imm_of(t[2])) },
                        ),
                        None => Err(AsmError::UnknownRegister),
                    },
                    OperatorType::D => match register_named(t[1]) {
                        Some(rd) => Ok(InstrView { op, rd, rs1: None, rs2: None, imm: None }),
                        None => Err(AsmError::UnknownRegister),
                    },
                }
            },
        }
    }
}

/// Decoding one source line.
pub open spec fn decode_line(s: Seq<char>) -> Result<InstrView, AsmError> {
    decode_tokens(tokens_of(s))
}

/// The mathematical value of a decoding result.
pub open spec fn result_view(r: Result<Instruction, AsmError>) -> Result<InstrView, AsmError> {
    match r {
        Ok(ins) => Ok(ins@),
        Err(e) => Err(e),
    }
}

/// A successful decoding always has the shape of its operator.
pub proof fn lemma_decode_shape(t: Seq<Seq<char>>)
    ensures
        decode_tokens(t) is Ok ==> shape_ok(decode_tokens(t)->Ok_0),
{
}

/// The immediate spelt by `chars[a..b]`, where `chars` are those of `line`.
fn immediate_at(line: &str, chars: &Vec<char>, a: usize, b: usize) -> (r: Immediate)
    requires
        chars@ == line@,
        a <= b <= chars@.len(),
    ensures
        r@ == imm_of(chars@.subrange(a as int, b as int)),
{
    match parse_i32_at(chars, a, b) {
        Some(v) => Immediate::S32(v),
        None => Immediate::Label(line.substring_char(a, b).to_owned()),
    }
}

/// Decodes the instruction made of the tokens of `line` from index `from` on.
pub fn decode_at(line: &str, chars: &Vec<char>, spans: &Vec<(usize, usize)>, from: usize) -> (r:
    Result<Instruction, AsmError>)
    requires
        chars@ == line@,
        spans_match(chars@, spans@, tokens_of(chars@)),
        from <= spans@.len(),
    ensures
        result_view(r) == decode_tokens(
            tokens_of(chars@).subrange(from as int, spans@.len() as int),
        ),
{
    let ghost toks = tokens_of(chars@);
    let ghost t = toks.subrange(from as int, spans@.len() as int);
    let n = spans.len() - from;
    if n == 0 {
        return Err(AsmError::MalformedLine);
    }
    assert(t[0] == toks[from as int]);
    let op = match operator_at(chars, spans[from].0, spans[from].1) {
        Some(op) => op,
        None => {
            return Err(AsmError::UnknownOperator);
        },
    };
    let need: usize = match op.get_type() {
        OperatorType::Dss => 3,
        OperatorType::Dsi => 3,
        OperatorType::Di => 2,
        OperatorType::D => 1,
    };
    if n < 1 + need {
        return Err(AsmError::MalformedLine);
    }
    assert(t[1] == toks[from + 1]);
    let rd = match register_at(chars, spans[from + 1].0, spans[from + 1].1) {
        Some(r) => r,
        None => {
            return Err(AsmError::UnknownRegister);
        },
    };
    match op.get_type() {
        OperatorType::Dss => {
            assert(t[2] == toks[from + 2]);
            assert(t[3] == toks[from + 3]);
            let rs1 = register_at(chars, spans[from + 2].0, spans[from + 2].1);
            let rs2 = register_at(chars, spans[from + 3].0, spans[from + 3].1);
            match (rs1, rs2) {
                (Some(rs1), Some(rs2)) => Ok(
                    Instruction { op, rd, rs1: Some(rs1), rs2: Some(rs2), imm: None },
                ),
                _ => Err(AsmError::UnknownRegister),
            }
        },
        OperatorType::Dsi => {
            assert(t[2] == toks[from + 2]);
            assert(t[3] == toks[from + 3]);
            match register_at(chars, spans[from + 2].0, spans[from + 2].1) {
                Some(rs1) => {
                    let imm = immediate_at(line, chars, spans[from + 3].0, spans[from + 3].1);
                    Ok(Instruction { op, rd, rs1: Some(rs1), rs2: None, imm: Some(imm) })
                },
                None => Err(AsmError::UnknownRegister),
            }
        },
        OperatorType::Di => {
            assert(t[2] == toks[from + 2]);
            let imm = immediate_at(line, chars, spans[from + 2].0, spans[from + 2].1);
            Ok(Instruction { op, rd, rs1: None, rs2: None, imm: Some(imm) })
        },
        OperatorType::D => Ok(Instruction { op, rd, rs1: None, rs2: None, imm: None }),
    }
}

/// Decodes one instruction line: a mnemonic followed by the operands that
/// its shape asks for, separated by whitespace.
pub fn analyze_line(line: String) -> (r: Result<Instruction, AsmError>)
    ensures
        result_view(r) == decode_line(line@),
        r is Ok ==> shape_ok(r->Ok_0@),
{
    let chars = chars_of(line.as_str());
    let spans = tokenize(&chars);
    proof {
        assert(tokens_of(chars@).subrange(0, spans@.len() as int) =~= tokens_of(chars@));
        lemma_decode_shape(tokens_of(line@));
    }
    decode_at(line.as_str(), &chars, &spans, 0)
}

} // verus!
