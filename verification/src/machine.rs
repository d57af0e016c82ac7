//! A model of the machine, as far as generated code uses it: four 64-bit
//! registers, the two conditions of the flags that `set` reads, and the part
//! of the run-time stack above the point where the code started.
//!
//! Register values are the signed readings of 64-bit words. The flags are
//! modelled after `cmpq` and `orq` only; after any other instruction that
//! changes them they are undefined, and code that reads undefined flags has
//! no outcome in the model. Code also has no outcome when it pops more than
//! it pushed, and when `idivq` traps.

use vstd::prelude::*;
use crate::instruction::{Condition, Instruction, Register};

verus! {

/// Two to the power of 64.
pub open spec fn modulus() -> int {
    0x1_0000_0000_0000_0000
}

/// Whether `value` is the signed reading of a 64-bit word.
pub open spec fn in_range(value: int) -> bool {
    -0x8000_0000_0000_0000 <= value < 0x8000_0000_0000_0000
}

/// The unsigned reading of the 64-bit word that holds `value` modulo two to the power of 64.
pub open spec fn unsigned(value: int) -> int {
    value % modulus()
}

/// The signed reading of the 64-bit word that holds `value` modulo two to the power of 64.
pub open spec fn wrap(value: int) -> int {
    if unsigned(value) >= 0x8000_0000_0000_0000 {
        unsigned(value) - modulus()
    } else {
        unsigned(value)
    }
}

/// The quotient of a signed division, rounded toward zero.
pub open spec fn truncated_quotient(dividend: int, divisor: int) -> int
    recommends
        divisor != 0,
{
    if dividend >= 0 {
        if divisor > 0 {
            dividend / divisor
        } else {
            -(dividend / (-divisor))
        }
    } else {
        if divisor > 0 {
            -((-dividend) / divisor)
        } else {
            (-dividend) / (-divisor)
        }
    }
}

/// The bitwise or of two words, as a signed reading.
pub open spec fn bit_or(a: int, b: int) -> int {
    wrap(((unsigned(a) as u64) | (unsigned(b) as u64)) as int)
}

/// The low byte of a word.
pub open spec fn low_byte(value: int) -> int {
    value % 256
}

/// The word `value` with `byte` in place of its low byte.
pub open spec fn with_low_byte(value: int, byte: int) -> int {
    value - low_byte(value) + byte
}

/// The bitwise and of two bytes.
pub open spec fn byte_and(a: int, b: int) -> int {
    ((a as u8) & (b as u8)) as int
}

/// What `set` can read of the flags after a comparison of `a` with `b`:
/// whether they are equal, and whether `a` is less than `b` as signed numbers.
pub struct Flags {
    pub zero: bool,
    pub less: bool,
}

/// The state of the machine.
pub struct Machine {
    pub rax: int,
    pub rbx: int,
    pub rcx: int,
    pub rdx: int,
    /// The flags, where the model defines them.
    pub flags: Option<Flags>,
    /// The words pushed and not yet popped, the latest last.
    pub stack: Seq<int>,
}

impl Machine {
    /// The value of a register.
    pub open spec fn get(self, register: Register) -> int {
        match register {
            Register::Rax => self.rax,
            Register::Rbx => self.rbx,
            Register::Rcx => self.rcx,
            Register::Rdx => self.rdx,
        }
    }

    /// This state with `value` in `register`.
    pub open spec fn set(self, register: Register, value: int) -> Machine {
        match register {
            Register::Rax => Machine { rax: value, ..self },
            Register::Rbx => Machine { rbx: value, ..self },
            Register::Rcx => Machine { rcx: value, ..self },
            Register::Rdx => Machine { rdx: value, ..self },
        }
    }

    /// This state with the given flags.
    pub open spec fn with_flags(self, flags: Option<Flags>) -> Machine {
        Machine { flags, ..self }
    }

    /// This state with the given stack.
    pub open spec fn with_stack(self, stack: Seq<int>) -> Machine {
        Machine { stack, ..self }
    }
}

/// The flags of the comparison of `a` with `b`.
pub open spec fn compare(a: int, b: int) -> Option<Flags> {
    Some(Flags { zero: a == b, less: a < b })
}

/// Whether `condition` holds of the flags.
pub open spec fn holds(condition: Condition, flags: Flags) -> bool {
    match condition {
        Condition::Equal => flags.zero,
        Condition::NotEqual => !flags.zero,
        Condition::Less => flags.less,
        Condition::LessOrEqual => flags.less || flags.zero,
        Condition::Greater => !flags.less && !flags.zero,
        Condition::GreaterOrEqual => !flags.less,
    }
}

/// One or zero.
pub open spec fn bit(condition: bool) -> int {
    if condition {
        1
    } else {
        0
    }
}

/// The state after one instruction, if it has an outcome.
pub open spec fn step(instruction: Instruction, machine: Machine) -> Option<Machine> {
    match instruction {
        Instruction::MovImm(value, dst, _) => Some(machine.set(dst, wrap(value as int))),
        Instruction::Mov(src, dst) => Some(machine.set(dst, machine.get(src))),
        Instruction::Neg(dst) => Some(machine.set(dst, wrap(-machine.get(dst))).with_flags(None)),
        Instruction::Not(dst) => Some(machine.set(dst, -machine.get(dst) - 1)),
        Instruction::Add(src, dst) => Some(
            machine.set(dst, wrap(machine.get(dst) + machine.get(src))).with_flags(None),
        ),
        Instruction::Sub(src, dst) => Some(
            machine.set(dst, wrap(machine.get(dst) - machine.get(src))).with_flags(None),
        ),
        Instruction::Imul(src, dst) => Some(
            machine.set(dst, wrap(machine.get(dst) * machine.get(src))).with_flags(None),
        ),
        Instruction::Or(src, dst) => {
            let result = bit_or(machine.get(dst), machine.get(src));
            Some(machine.set(dst, result).with_flags(compare(result, 0)))
        },
        Instruction::CmpZero(dst, _) => Some(machine.with_flags(compare(machine.get(dst), 0))),
        Instruction::Cmp(src, dst) => Some(
            machine.with_flags(compare(machine.get(dst), machine.get(src))),
        ),
        Instruction::SetByte(condition, dst) => match machine.flags {
            Some(flags) => Some(
                machine.set(dst, with_low_byte(machine.get(dst), bit(holds(condition, flags)))),
            ),
            None => None,
        },
        Instruction::AndByte(src, dst) => Some(
            machine.set(
                dst,
                with_low_byte(
                    machine.get(dst),
                    byte_and(low_byte(machine.get(dst)), low_byte(machine.get(src))),
                ),
            ).with_flags(None),
        ),
        Instruction::Push(src) => Some(machine.with_stack(machine.stack.push(machine.get(src)))),
        Instruction::Pop(dst) => if machine.stack.len() == 0 {
            None
        } else {
            Some(
                machine.set(dst, machine.stack.last()).with_stack(machine.stack.drop_last()),
            )
        },
        Instruction::Cqto => Some(
            machine.set(
                Register::Rdx,
                if machine.rax < 0 {
                    -1
                } else {
                    0
                },
            ),
        ),
        Instruction::Idiv(divisor) => {
            let dividend = machine.rdx * modulus() + unsigned(machine.rax);
            let by = machine.get(divisor);
            let quotient = truncated_quotient(dividend, by);
            if by == 0 || !in_range(quotient) {
                None
            } else {
                Some(
                    machine.set(Register::Rax, quotient).set(
                        Register::Rdx,
                        dividend - quotient * by,
                    ).with_flags(None),
                )
            }
        },
    }
}

/// The state after the instructions of `code` from `index` on, if they have an outcome.
pub open spec fn run_from(code: Seq<Instruction>, index: nat, machine: Machine) -> Option<Machine>
    decreases code.len() - index,
{
    if index >= code.len() {
        Some(machine)
    } else {
        match step(code[index as int], machine) {
            Some(next) => run_from(code, index + 1, next),
            None => None,
        }
    }
}

/// The state after `code`, if it has an outcome.
pub open spec fn run(code: Seq<Instruction>, machine: Machine) -> Option<Machine> {
    run_from(code, 0, machine)
}

} // verus!
