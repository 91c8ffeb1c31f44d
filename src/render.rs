use vstd::prelude::*;
use crate::decode::{decode_tokens, imm_of, lemma_decode_shape, shape_ok, ImmView, InstrView};
use crate::isa::{
    family_of, operator_name, operator_named, register_name, register_named, Operator,
    OperatorType, Register,
};
use crate::lex::{all_digits, digit_value, digits_value, is_digit, parse_i32};

verus! {

/// Each mnemonic reads back as its operator.
pub proof fn lemma_operator_name_inverse(op: Operator)
    ensures
        operator_named(operator_name(op)) == Some(op),
{
    assert(operator_name(Operator::Add).len() == 3 && operator_name(Operator::Add)[0] == 'A' && operator_name(Operator::Add)[1] == 'D' && operator_name(Operator::Add)[2] == 'D');
    assert(operator_name(Operator::Sub).len() == 3 && operator_name(Operator::Sub)[0] == 'S' && operator_name(Operator::Sub)[1] == 'U' && operator_name(Operator::Sub)[2] == 'B');
    assert(operator_name(Operator::And).len() == 3 && operator_name(Operator::And)[0] == 'A' && operator_name(Operator::And)[1] == 'N' && operator_name(Operator::And)[2] == 'D');
    assert(operator_name(Operator::Or).len() == 2 && operator_name(Operator::Or)[0] == 'O' && operator_name(Operator::Or)[1] == 'R');
    assert(operator_name(Operator::Xor).len() == 3 && operator_name(Operator::Xor)[0] == 'X' && operator_name(Operator::Xor)[1] == 'O' && operator_name(Operator::Xor)[2] == 'R');
    assert(operator_name(Operator::Slt).len() == 3 && operator_name(Operator::Slt)[0] == 'S' && operator_name(Operator::Slt)[1] == 'L' && operator_name(Operator::Slt)[2] == 'T');
    assert(operator_name(Operator::Sltu).len() == 4 && operator_name(Operator::Sltu)[0] == 'S' && operator_name(Operator::Sltu)[1] == 'L' && operator_name(Operator::Sltu)[2] == 'T' && operator_name(Operator::Sltu)[3] == 'U');
    assert(operator_name(Operator::Sll).len() == 3 && operator_name(Operator::Sll)[0] == 'S' && operator_name(Operator::Sll)[1] == 'L' && operator_name(Operator::Sll)[2] == 'L');
    assert(operator_name(Operator::Srl).len() == 3 && operator_name(Operator::Srl)[0] == 'S' && operator_name(Operator::Srl)[1] == 'R' && operator_name(Operator::Srl)[2] == 'L');
    assert(operator_name(Operator::Sra).len() == 3 && operator_name(Operator::Sra)[0] == 'S' && operator_name(Operator::Sra)[1] == 'R' && operator_name(Operator::Sra)[2] == 'A');
    assert(operator_name(Operator::Addi).len() == 4 && operator_name(Operator::Addi)[0] == 'A' && operator_name(Operator::Addi)[1] == 'D' && operator_name(Operator::Addi)[2] == 'D' && operator_name(Operator::Addi)[3] == 'I');
    assert(operator_name(Operator::Andi).len() == 4 && operator_name(Operator::Andi)[0] == 'A' && operator_name(Operator::Andi)[1] == 'N' && operator_name(Operator::Andi)[2] == 'D' && operator_name(Operator::Andi)[3] == 'I');
    assert(operator_name(Operator::Ori).len() == 3 && operator_name(Operator::Ori)[0] == 'O' && operator_name(Operator::Ori)[1] == 'R' && operator_name(Operator::Ori)[2] == 'I');
    assert(operator_name(Operator::Xori).len() == 4 && operator_name(Operator::Xori)[0] == 'X' && operator_name(Operator::Xori)[1] == 'O' && operator_name(Operator::Xori)[2] == 'R' && operator_name(Operator::Xori)[3] == 'I');
    assert(operator_name(Operator::Slti).len() == 4 && operator_name(Operator::Slti)[0] == 'S' && operator_name(Operator::Slti)[1] == 'L' && operator_name(Operator::Slti)[2] == 'T' && operator_name(Operator::Slti)[3] == 'I');
    assert(operator_name(Operator::Sltiu).len() == 5 && operator_name(Operator::Sltiu)[0] == 'S' && operator_name(Operator::Sltiu)[1] == 'L' && operator_name(Operator::Sltiu)[2] == 'T' && operator_name(Operator::Sltiu)[3] == 'I' && operator_name(Operator::Sltiu)[4] == 'U');
    assert(operator_name(Operator::Lw).len() == 2 && operator_name(Operator::Lw)[0] == 'L' && operator_name(Operator::Lw)[1] == 'W');
    assert(operator_name(Operator::Sw).len() == 2 && operator_name(Operator::Sw)[0] == 'S' && operator_name(Operator::Sw)[1] == 'W');
    assert(operator_name(Operator::Beq).len() == 3 && operator_name(Operator::Beq)[0] == 'B' && operator_name(Operator::Beq)[1] == 'E' && operator_name(Operator::Beq)[2] == 'Q');
    assert(operator_name(Operator::Bne).len() == 3 && operator_name(Operator::Bne)[0] == 'B' && operator_name(Operator::Bne)[1] == 'N' && operator_name(Operator::Bne)[2] == 'E');
    assert(operator_name(Operator::Lui).len() == 3 && operator_name(Operator::Lui)[0] == 'L' && operator_name(Operator::Lui)[1] == 'U' && operator_name(Operator::Lui)[2] == 'I');
    assert(operator_name(Operator::Jal).len() == 3 && operator_name(Operator::Jal)[0] == 'J' && operator_name(Operator::Jal)[1] == 'A' && operator_name(Operator::Jal)[2] == 'L');
    assert(operator_name(Operator::Jalr).len() == 4 && operator_name(Operator::Jalr)[0] == 'J' && operator_name(Operator::Jalr)[1] == 'A' && operator_name(Operator::Jalr)[2] == 'L' && operator_name(Operator::Jalr)[3] == 'R');
    assert(operator_name(Operator::Csr).len() == 3 && operator_name(Operator::Csr)[0] == 'C' && operator_name(Operator::Csr)[1] == 'S' && operator_name(Operator::Csr)[2] == 'R');
}

/// Each register name reads back as its register.
pub proof fn lemma_register_name_inverse(r: Register)
    ensures
        register_named(register_name(r)) == Some(r),
{
    assert(register_name(Register::R0).len() == 2 && register_name(Register::R0)[0] == 'r' && register_name(Register::R0)[1] == '0');
    assert(register_name(Register::R1).len() == 2 && register_name(Register::R1)[0] == 'r' && register_name(Register::R1)[1] == '1');
    assert(register_name(Register::R2).len() == 2 && register_name(Register::R2)[0] == 'r' && register_name(Register::R2)[1] == '2');
    assert(register_name(Register::R3).len() == 2 && register_name(Register::R3)[0] == 'r' && register_name(Register::R3)[1] == '3');
    assert(register_name(Register::R4).len() == 2 && register_name(Register::R4)[0] == 'r' && register_name(Register::R4)[1] == '4');
    assert(register_name(Register::R5).len() == 2 && register_name(Register::R5)[0] == 'r' && register_name(Register::R5)[1] == '5');
    assert(register_name(Register::R6).len() == 2 && register_name(Register::R6)[0] == 'r' && register_name(Register::R6)[1] == '6');
    assert(register_name(Register::R7).len() == 2 && register_name(Register::R7)[0] == 'r' && register_name(Register::R7)[1] == '7');
    assert(register_name(Register::R8).len() == 2 && register_name(Register::R8)[0] == 'r' && register_name(Register::R8)[1] == '8');
    assert(register_name(Register::R9).len() == 2 && register_name(Register::R9)[0] == 'r' && register_name(Register::R9)[1] == '9');
    assert(register_name(Register::R10).len() == 3 && register_name(Register::R10)[0] == 'r' && register_name(Register::R10)[1] == '1' && register_name(Register::R10)[2] == '0');
    assert(register_name(Register::R11).len() == 3 && register_name(Register::R11)[0] == 'r' && register_name(Register::R11)[1] == '1' && register_name(Register::R11)[2] == '1');
    assert(register_name(Register::R12).len() == 3 && register_name(Register::R12)[0] == 'r' && register_name(Register::R12)[1] == '1' && register_name(Register::R12)[2] == '2');
    assert(register_name(Register::R13).len() == 3 && register_name(Register::R13)[0] == 'r' && register_name(Register::R13)[1] == '1' && register_name(Register::R13)[2] == '3');
    assert(register_name(Register::R14).len() == 3 && register_name(Register::R14)[0] == 'r' && register_name(Register::R14)[1] == '1' && register_name(Register::R14)[2] == '4');
    assert(register_name(Register::R15).len() == 3 && register_name(Register::R15)[0] == 'r' && register_name(Register::R15)[1] == '1' && register_name(Register::R15)[2] == '5');
}

/// The decimal digit character for `d`, which is below ten.
pub open spec fn digit_char(d: int) -> char {
    if d == 0 {
        '0'
    } else if d == 1 {
        '1'
    } else if d == 2 {
        '2'
    } else if d == 3 {
        '3'
    } else if d == 4 {
        '4'
    } else if d == 5 {
        '5'
    } else if d == 6 {
        '6'
    } else if d == 7 {
        '7'
    } else if d == 8 {
        '8'
    } else {
        '9'
    }
}

/// The shortest decimal digits of `n`.
pub open spec fn digits_of(n: nat) -> Seq<char>
    decreases n,
{
    if n < 10 {
        seq![digit_char(n as int)]
    } else {
        digits_of(n / 10).push(digit_char((n % 10) as int))
    }
}

/// The canonical decimal text of `v`: a `-` for a negative value, then its
/// magnitude's digits.
pub open spec fn decimal_of(v: int) -> Seq<char> {
    if v < 0 {
        seq!['-'] + digits_of((-v) as nat)
    } else {
        digits_of(v as nat)
    }
}

/// The source text of an immediate.
pub open spec fn imm_text(i: ImmView) -> Seq<char> {
    match i {
        ImmView::S32(v) => decimal_of(v as int),
        ImmView::Label(n) => n,
    }
}

/// The tokens of an instruction in source form: the mnemonic, then the
/// operands of its shape in order.
pub open spec fn render_tokens(v: InstrView) -> Seq<Seq<char>> {
    let head = seq![operator_name(v.op), register_name(v.rd)];
    match family_of(v.op) {
        OperatorType::Dss => head.push(register_name(v.rs1->Some_0)).push(
            register_name(v.rs2->Some_0),
        ),
        OperatorType::Dsi => head.push(register_name(v.rs1->Some_0)).push(
            imm_text(v.imm->Some_0),
        ),
        OperatorType::Di => head.push(imm_text(v.imm->Some_0)),
        OperatorType::D => head,
    }
}

/// A label reference whose text reads as a number would decode as that
/// number instead: such an instruction has no source form.
pub open spec fn label_text_ok(v: InstrView) -> bool {
    match v.imm {
        Some(ImmView::Label(n)) => parse_i32(n) is None,
        _ => true,
    }
}

proof fn lemma_digits_of(n: nat)
    ensures
        all_digits(digits_of(n)),
        digits_value(digits_of(n)) == n,
    decreases n,
{
    if n < 10 {
        let s = digits_of(n);
        assert(s.drop_last() =~= Seq::<char>::empty());
        assert(digits_value(s.drop_last()) == 0);
        assert(digit_value(digit_char(n as int)) == n);
        assert(digits_value(s) == digits_value(s.drop_last()) * 10 + digit_value(s.last()));
    } else {
        lemma_digits_of(n / 10);
        let s = digits_of(n);
        let d = (n % 10) as int;
        assert(s.drop_last() =~= digits_of(n / 10));
        assert(digit_value(digit_char(d)) == d);
        assert(is_digit(digit_char(d)));
        assert forall|i: int| 0 <= i < s.len() implies is_digit(#[trigger] s[i]) by {
            if i < s.len() - 1 {
                assert(s[i] == digits_of(n / 10)[i]);
            }
        }
        assert(s.last() == digit_char(d));
        assert(digits_value(s) == digits_value(s.drop_last()) * 10 + digit_value(s.last()));
        assert((n / 10) * 10 + n % 10 == n);
    }
}

/// The decimal text of a 32-bit value reads back as that value.
pub proof fn lemma_decimal_round_trip(v: i32)
    ensures
        parse_i32(decimal_of(v as int)) == Some(v),
{
    if v < 0 {
        let m = (-(v as int)) as nat;
        lemma_digits_of(m);
        let s = decimal_of(v as int);
        assert(s[0] == '-');
        assert(s.drop_first() =~= digits_of(m));
    } else {
        lemma_digits_of(v as nat);
        let s = digits_of(v as nat);
        assert(is_digit(s[0]));
    }
}

/// Re-encoding an instruction of the right shape and decoding the tokens
/// gives the instruction back.
pub proof fn lemma_render_decode(v: InstrView)
    requires
        shape_ok(v),
        label_text_ok(v),
    ensures
        decode_tokens(render_tokens(v)) == Ok::<InstrView, crate::decode::AsmError>(v),
{
    lemma_operator_name_inverse(v.op);
    lemma_register_name_inverse(v.rd);
    if v.rs1 is Some {
        lemma_register_name_inverse(v.rs1->Some_0);
    }
    if v.rs2 is Some {
        lemma_register_name_inverse(v.rs2->Some_0);
    }
    match v.imm {
        Some(ImmView::S32(x)) => {
            lemma_decimal_round_trip(x);
            assert(imm_of(imm_text(ImmView::S32(x))) == ImmView::S32(x));
        },
        _ => {},
    }
    let t = render_tokens(v);
    assert(t[0] == operator_name(v.op));
    assert(t[1] == register_name(v.rd));
}

/// Decoding a line's tokens, re-encoding the result and decoding again
/// gives the same operator, registers and immediate.
pub proof fn lemma_decode_render_decode(t: Seq<Seq<char>>)
    requires
        decode_tokens(t) is Ok,
    ensures
        decode_tokens(render_tokens(decode_tokens(t)->Ok_0)) == decode_tokens(t),
{
    lemma_decode_shape(t);
    lemma_render_decode(decode_tokens(t)->Ok_0);
}

} // verus!
