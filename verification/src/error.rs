//! Error values raised by the execution core and by the assembler.

use vstd::prelude::*;

verus! {

/// Ways a fetch-decode-execute step or a memory or register access can fail.
///
/// Instruction format errors carry `(instruction, bad_field)`, memory errors
/// carry the offending address, and register-file errors carry the register
/// number.
#[derive(Debug, Clone, Copy, PartialEq, Eq, Structural)]
pub enum RiscvError {
    InvalidOpcodeError(u32, u8),
    InvalidFunc3Error(u32, u8),
    InvalidFunc7Error(u32, u8),
    RegisterOutOfRangeError(u8),
    MemoryOutOfBoundsError(u32),
    MemoryAlignmentError(u32),
}

/// Ways assembling a program can fail. Variants that concern one token carry
/// that token.
#[derive(Debug)]
pub enum AssemblerError {
    InvalidOperationError(String),
    NoSuchLabelError(String),
    NoSuchRegisterError(String),
    WrongOperandTypeError(String),
    TooManyTokensError,
    TooFewTokensError,
    ImmediateTooLargeError(String),
    InvalidImmediateError(String),
    IOError,
}

impl PartialEq for AssemblerError {
    fn eq(&self, other: &AssemblerError) -> (r: bool) {
        match (self, other) {
            (AssemblerError::InvalidOperationError(a), AssemblerError::InvalidOperationError(b)) => *a
                == *b,
            (AssemblerError::NoSuchLabelError(a), AssemblerError::NoSuchLabelError(b)) => *a == *b,
            (AssemblerError::NoSuchRegisterError(a), AssemblerError::NoSuchRegisterError(b)) => *a
                == *b,
            (
                AssemblerError::WrongOperandTypeError(a),
                AssemblerError::WrongOperandTypeError(b),
            ) => *a == *b,
            (AssemblerError::TooManyTokensError, AssemblerError::TooManyTokensError) => true,
            (AssemblerError::TooFewTokensError, AssemblerError::TooFewTokensError) => true,
            (
                AssemblerError::ImmediateTooLargeError(a),
                AssemblerError::ImmediateTooLargeError(b),
            ) => *a == *b,
            (
                AssemblerError::InvalidImmediateError(a),
                AssemblerError::InvalidImmediateError(b),
            ) => *a == *b,
            (AssemblerError::IOError, AssemblerError::IOError) => true,
            _ => false,
        }
    }
}

impl vstd::std_specs::cmp::PartialEqSpecImpl for AssemblerError {
    open spec fn obeys_eq_spec() -> bool {
        true
    }

    open spec fn eq_spec(&self, other: &AssemblerError) -> bool {
        match (self, other) {
            (AssemblerError::InvalidOperationError(a), AssemblerError::InvalidOperationError(b)) => a@
                == b@,
            (AssemblerError::NoSuchLabelError(a), AssemblerError::NoSuchLabelError(b)) => a@ == b@,
            (AssemblerError::NoSuchRegisterError(a), AssemblerError::NoSuchRegisterError(b)) => a@
                == b@,
            (
                AssemblerError::WrongOperandTypeError(a),
                AssemblerError::WrongOperandTypeError(b),
            ) => a@ == b@,
            (AssemblerError::TooManyTokensError, AssemblerError::TooManyTokensError) => true,
            (AssemblerError::TooFewTokensError, AssemblerError::TooFewTokensError) => true,
            (
                AssemblerError::ImmediateTooLargeError(a),
                AssemblerError::ImmediateTooLargeError(b),
            ) => a@ == b@,
            (
                AssemblerError::InvalidImmediateError(a),
                AssemblerError::InvalidImmediateError(b),
            ) => a@ == b@,
            (AssemblerError::IOError, AssemblerError::IOError) => true,
            _ => false,
        }
    }
}


/// A specification-level description of an assembler error: which variant,
/// and the token it concerns.
pub enum AsmIssue {
    InvalidOperation(Seq<char>),
    NoSuchRegister(Seq<char>),
    InvalidImmediate(Seq<char>),
    TooManyTokens,
    TooFewTokens,
}

/// Whether the executable error value reports the described issue.
pub open spec fn spec_err_matches(e: AssemblerError, i: AsmIssue) -> bool {
    match i {
        AsmIssue::InvalidOperation(t) => e matches AssemblerError::InvalidOperationError(s) && s@
            == t,
        AsmIssue::NoSuchRegister(t) => e matches AssemblerError::NoSuchRegisterError(s) && s@ == t,
        AsmIssue::InvalidImmediate(t) => e matches AssemblerError::InvalidImmediateError(s) && s@
            == t,
        AsmIssue::TooManyTokens => e is TooManyTokensError,
        AsmIssue::TooFewTokens => e is TooFewTokensError,
    }
}

} // verus!
