//! The subset of x86-64 that the generator emits, and its AT&T text.

use vstd::prelude::*;
use vstd::string::*;

verus! {

/// The general-purpose registers that generated code touches.
#[derive(Debug, Clone, Copy, PartialEq, Eq, Structural)]
pub enum Register {
    /// The accumulator: every expression leaves its value here.
    Rax,
    Rbx,
    Rcx,
    Rdx,
}

/// The conditions of `set`, read from the flags that a comparison left.
#[derive(Debug, Clone, Copy, PartialEq, Eq, Structural)]
pub enum Condition {
    Equal,
    NotEqual,
    Less,
    LessOrEqual,
    Greater,
    GreaterOrEqual,
}

/// How the comma between two operands is written. Generated code writes
/// some instructions in both ways; those say which.
#[derive(Debug, Clone, Copy, PartialEq, Eq, Structural)]
pub enum Comma {
    /// With a space after it: `movq $0, %rax`.
    Spaced,
    /// Without: `movq $0,%rax`.
    Tight,
}

/// One instruction. Two-operand forms name the source first, as AT&T syntax
/// does. The text of an instruction is fixed to the character; the comma of
/// `cmpq` and `orq` between registers is tight, that of the other
/// two-register forms spaced.
#[derive(Debug, Clone, Copy, PartialEq, Eq, Structural)]
pub enum Instruction {
    /// `movq $value, %dst` or `movq $value,%dst`
    MovImm(usize, Register, Comma),
    /// `movq %src, %dst`
    Mov(Register, Register),
    /// `neg %dst`
    Neg(Register),
    /// `not %dst`
    Not(Register),
    /// `addq %src, %dst`
    Add(Register, Register),
    /// `subq %src, %dst`: `dst` becomes `dst - src`
    Sub(Register, Register),
    /// `imul %src, %dst`
    Imul(Register, Register),
    /// `orq %src,%dst`
    Or(Register, Register),
    /// `cmpq $0, %dst` or `cmpq $0,%dst`: the flags of `dst - 0`
    CmpZero(Register, Comma),
    /// `cmpq %src,%dst`: the flags of `dst - src`
    Cmp(Register, Register),
    /// `set<cc> %low`: the low byte of the register becomes 1 or 0
    SetByte(Condition, Register),
    /// ` andb %src_low, %dst_low`, written with one space before it
    AndByte(Register, Register),
    /// `push %src`
    Push(Register),
    /// `pop %dst`
    Pop(Register),
    /// `cqto`: sign-extend `rax` into `rdx:rax`
    Cqto,
    /// `idivq %divisor`: signed division of `rdx:rax`
    Idiv(Register),
}

impl Register {
    /// The name of the 64-bit register.
    pub open spec fn spec_name(self) -> Seq<char> {
        match self {
            Register::Rax => "rax"@,
            Register::Rbx => "rbx"@,
            Register::Rcx => "rcx"@,
            Register::Rdx => "rdx"@,
        }
    }

    /// The name of the register's low byte.
    pub open spec fn spec_low_name(self) -> Seq<char> {
        match self {
            Register::Rax => "al"@,
            Register::Rbx => "bl"@,
            Register::Rcx => "cl"@,
            Register::Rdx => "dl"@,
        }
    }

    /// The name of the 64-bit register.
    pub fn name(self) -> (text: &'static str)
        ensures
            text@ == self.spec_name(),
    {
        match self {
            Register::Rax => "rax",
            Register::Rbx => "rbx",
            Register::Rcx => "rcx",
            Register::Rdx => "rdx",
        }
    }

    /// The name of the register's low byte.
    pub fn low_name(self) -> (text: &'static str)
        ensures
            text@ == self.spec_low_name(),
    {
        match self {
            Register::Rax => "al",
            Register::Rbx => "bl",
            Register::Rcx => "cl",
            Register::Rdx => "dl",
        }
    }
}

impl Condition {
    /// The suffix that `set` takes for this condition.
    pub open spec fn spec_suffix(self) -> Seq<char> {
        match self {
            Condition::Equal => "e"@,
            Condition::NotEqual => "ne"@,
            Condition::Less => "l"@,
            Condition::LessOrEqual => "le"@,
            Condition::Greater => "g"@,
            Condition::GreaterOrEqual => "ge"@,
        }
    }

    /// The suffix that `set` takes for this condition.
    pub fn suffix(self) -> (text: &'static str)
        ensures
            text@ == self.spec_suffix(),
    {
        match self {
            Condition::Equal => "e",
            Condition::NotEqual => "ne",
            Condition::Less => "l",
            Condition::LessOrEqual => "le",
            Condition::Greater => "g",
            Condition::GreaterOrEqual => "ge",
        }
    }
}

/// The character of a decimal digit.
pub open spec fn digit_char(digit: nat) -> char
    recommends
        digit < 10,
{
    if digit == 0 {
        '0'
    } else if digit == 1 {
        '1'
    } else if digit == 2 {
        '2'
    } else if digit == 3 {
        '3'
    } else if digit == 4 {
        '4'
    } else if digit == 5 {
        '5'
    } else if digit == 6 {
        '6'
    } else if digit == 7 {
        '7'
    } else if digit == 8 {
        '8'
    } else {
        '9'
    }
}

/// A number in decimal, without sign or leading zeros.
pub open spec fn decimal_text(value: nat) -> Seq<char>
    decreases value,
{
    if value < 10 {
        seq![digit_char(value)]
    } else {
        decimal_text(value / 10).push(digit_char(value % 10))
    }
}

/// The one-character text of a decimal digit.
fn digit_text(digit: usize) -> (text: &'static str)
    requires
        digit < 10,
    ensures
        text@ == seq![digit_char(digit as nat)],
{
    proof {
        reveal_strlit("0");
        reveal_strlit("1");
        reveal_strlit("2");
        reveal_strlit("3");
        reveal_strlit("4");
        reveal_strlit("5");
        reveal_strlit("6");
        reveal_strlit("7");
        reveal_strlit("8");
        reveal_strlit("9");
    }
    let text = if digit == 0 {
        "0"
    } else if digit == 1 {
        "1"
    } else if digit == 2 {
        "2"
    } else if digit == 3 {
        "3"
    } else if digit == 4 {
        "4"
    } else if digit == 5 {
        "5"
    } else if digit == 6 {
        "6"
    } else if digit == 7 {
        "7"
    } else if digit == 8 {
        "8"
    } else {
        "9"
    };
    assert(text@ =~= seq![digit_char(digit as nat)]);
    text
}

/// Appends `value` in decimal to `out`.
pub fn append_decimal(out: &mut String, value: usize)
    ensures
        final(out)@ == old(out)@ + decimal_text(value as nat),
    decreases value,
{
    if value >= 10 {
        append_decimal(out, value / 10);
    }
    out.append(digit_text(value % 10));
    assert(out@ =~= old(out)@ + decimal_text(value as nat));
}

impl Comma {
    /// The comma and the sign of the register after it.
    pub open spec fn spec_text(self) -> Seq<char> {
        match self {
            Comma::Spaced => ", %"@,
            Comma::Tight => ",%"@,
        }
    }

    /// The comma and the sign of the register after it.
    pub fn text(self) -> (text: &'static str)
        ensures
            text@ == self.spec_text(),
    {
        match self {
            Comma::Spaced => ", %",
            Comma::Tight => ",%",
        }
    }
}

impl Instruction {
    /// The line of assembly for this instruction, newline included.
    pub open spec fn spec_text(self) -> Seq<char> {
        match self {
            Instruction::MovImm(value, dst, comma) => "movq $"@ + decimal_text(value as nat)
                + comma.spec_text() + dst.spec_name() + "\n"@,
            Instruction::Mov(src, dst) => "movq %"@ + src.spec_name() + ", %"@ + dst.spec_name()
                + "\n"@,
            Instruction::Neg(dst) => "neg %"@ + dst.spec_name() + "\n"@,
            Instruction::Not(dst) => "not %"@ + dst.spec_name() + "\n"@,
            Instruction::Add(src, dst) => "addq %"@ + src.spec_name() + ", %"@ + dst.spec_name()
                + "\n"@,
            Instruction::Sub(src, dst) => "subq %"@ + src.spec_name() + ", %"@ + dst.spec_name()
                + "\n"@,
            Instruction::Imul(src, dst) => "imul %"@ + src.spec_name() + ", %"@ + dst.spec_name()
                + "\n"@,
            Instruction::Or(src, dst) => "orq %"@ + src.spec_name() + ",%"@ + dst.spec_name()
                + "\n"@,
            Instruction::CmpZero(dst, comma) => "cmpq $0"@ + comma.spec_text() + dst.spec_name()
                + "\n"@,
            Instruction::Cmp(src, dst) => "cmpq %"@ + src.spec_name() + ",%"@ + dst.spec_name()
                + "\n"@,
            Instruction::SetByte(condition, dst) => "set"@ + condition.spec_suffix() + " %"@
                + dst.spec_low_name() + "\n"@,
            Instruction::AndByte(src, dst) => " andb %"@ + src.spec_low_name() + ", %"@
                + dst.spec_low_name() + "\n"@,
            Instruction::Push(src) => "push %"@ + src.spec_name() + "\n"@,
            Instruction::Pop(dst) => "pop %"@ + dst.spec_name() + "\n"@,
            Instruction::Cqto => "cqto\n"@,
            Instruction::Idiv(divisor) => "idivq %"@ + divisor.spec_name() + "\n"@,
        }
    }

    /// Appends the line of assembly for this instruction to `out`.
    pub fn write(self, out: &mut String)
        ensures
            final(out)@ == old(out)@ + self.spec_text(),
    {
        match self {
            Instruction::MovImm(value, dst, comma) => {
                out.append("movq $");
                append_decimal(out, value);
                out.append(comma.text());
                out.append(dst.name());
                out.append("\n");
            },
            Instruction::Mov(src, dst) => {
                write_two(out, "movq %", src.name(), ", %", dst.name());
            },
            Instruction::Neg(dst) => {
                write_one(out, "neg %", dst.name());
            },
            Instruction::Not(dst) => {
                write_one(out, "not %", dst.name());
            },
            Instruction::Add(src, dst) => {
                write_two(out, "addq %", src.name(), ", %", dst.name());
            },
            Instruction::Sub(src, dst) => {
                write_two(out, "subq %", src.name(), ", %", dst.name());
            },
            Instruction::Imul(src, dst) => {
                write_two(out, "imul %", src.name(), ", %", dst.name());
            },
            Instruction::Or(src, dst) => {
                write_two(out, "orq %", src.name(), ",%", dst.name());
            },
            Instruction::CmpZero(dst, comma) => {
                out.append("cmpq $0");
                out.append(comma.text());
                out.append(dst.name());
                out.append("\n");
            },
            Instruction::Cmp(src, dst) => {
                write_two(out, "cmpq %", src.name(), ",%", dst.name());
            },
            Instruction::SetByte(condition, dst) => {
                out.append("set");
                out.append(condition.suffix());
                out.append(" %");
                out.append(dst.low_name());
                out.append("\n");
            },
            Instruction::AndByte(src, dst) => {
                write_two(out, " andb %", src.low_name(), ", %", dst.low_name());
            },
            Instruction::Push(src) => {
                write_one(out, "push %", src.name());
            },
            Instruction::Pop(dst) => {
                write_one(out, "pop %", dst.name());
            },
            Instruction::Cqto => {
                out.append("cqto\n");
            },
            Instruction::Idiv(divisor) => {
                write_one(out, "idivq %", divisor.name());
            },
        }
        assert(out@ =~= old(out)@ + self.spec_text());
    }
}

/// Appends a line made of a mnemonic and one operand.
fn write_one(out: &mut String, head: &str, operand: &str)
    ensures
        final(out)@ == old(out)@ + (head@ + operand@ + "\n"@),
{
    out.append(head);
    out.append(operand);
    out.append("\n");
    assert(out@ =~= old(out)@ + (head@ + operand@ + "\n"@));
}

/// Appends a line made of a mnemonic, two operands and what stands between them.
fn write_two(out: &mut String, head: &str, src: &str, comma: &str, dst: &str)
    ensures
        final(out)@ == old(out)@ + (head@ + src@ + comma@ + dst@ + "\n"@),
{
    out.append(head);
    out.append(src);
    out.append(comma);
    out.append(dst);
    out.append("\n");
    assert(out@ =~= old(out)@ + (head@ + src@ + comma@ + dst@ + "\n"@));
}

/// The text of a sequence of instructions, one line each.
pub open spec fn code_text(code: Seq<Instruction>) -> Seq<char>
    decreases code.len(),
{
    if code.len() == 0 {
        Seq::empty()
    } else {
        code_text(code.drop_last()) + code.last().spec_text()
    }
}

/// The text of two sequences joined is the two texts joined.
pub proof fn lemma_code_text_concat(first: Seq<Instruction>, second: Seq<Instruction>)
    ensures
        code_text(first + second) == code_text(first) + code_text(second),
    decreases second.len(),
{
    if second.len() == 0 {
        assert(first + second =~= first);
        assert(code_text(first) + code_text(second) =~= code_text(first));
    } else {
        lemma_code_text_concat(first, second.drop_last());
        assert((first + second).drop_last() =~= first + second.drop_last());
        assert((first + second).last() == second.last());
        assert(code_text(first + second) =~= code_text(first) + code_text(second));
    }
}

/// Appends the text of `code` to `out`.
pub fn write_code(code: &Vec<Instruction>, out: &mut String)
    ensures
        final(out)@ == old(out)@ + code_text(code@),
{
    let mut index: usize = 0;
    while index < code.len()
        invariant
            index <= code.len(),
            out@ == old(out)@ + code_text(code@.take(index as int)),
        decreases code.len() - index,
    {
        code[index].write(out);
        proof {
            let next = code@.take(index + 1);
            assert(next.drop_last() =~= code@.take(index as int));
            assert(next.last() == code@[index as int]);
            assert(out@ =~= old(out)@ + code_text(next));
        }
        index += 1;
    }
    assert(code@.take(index as int) =~= code@);
}

} // verus!
