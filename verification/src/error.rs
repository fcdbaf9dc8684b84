//! The failures that the library reports.

use vstd::prelude::*;

verus! {

/// Why an operation of the library failed.
#[derive(Clone, Copy, Debug, PartialEq, Eq, Structural)]
pub enum ErrorKind {
    /// The path names no file and no executable on the search path.
    PathLookupFailed,
    /// The file could not be read.
    IoError,
    /// The bytes are neither an ELF nor a PE image.
    UnsupportedFormat,
    /// An ELF structure is violated: a bad link index, an offset out of
    /// range, a string table that cannot be read.
    MalformedElf,
    /// A PE export has neither a name nor an ordinal to be named after.
    MalformedPe,
    /// The machine of the image is none that the stub emulation supports.
    UnsupportedArchitecture,
    /// The CPU emulator could not be created, mapped or hooked.
    EmulatorSetupFailed,
    /// A dynamically linked image has no `DT_PLTGOT` entry.
    MissingDtPltGot,
    /// No symbol of that name is known.
    SymbolNotFound,
    /// A byte string has the wrong length for the integer to unpack.
    WrongVectorSize,
    /// A percent sign is not followed by two hexadecimal digits.
    InvalidUrlEncoding,
    /// The sequence has fewer letters left than were asked for.
    SequenceExhausted,
    /// A script is no expression of the language.
    SyntaxError,
    /// An expression names a register that does not exist.
    InvalidRegister,
    /// Bytes that should be text are not UTF-8.
    InvalidUtf8,
    /// Text that should be a number is none, or one out of range.
    InvalidNumber,
    /// An operation overflows, divides by zero, or shifts too far.
    ArithmeticError,
    /// An operator stands where it cannot be applied.
    InvalidOperator,
    /// A word names no command.
    UnknownCommand,
    /// The parameter of a command lacks a part.
    MalformedCommand,
    /// A regular expression does not compile.
    InvalidPattern,
    /// A regular expression matches nothing.
    NothingCaptured,
    /// A regular expression matches, but its first group does not.
    NoGroupCaptured,
}

impl ErrorKind {
    /// A short description for people.
    pub fn message(&self) -> (text: &'static str)
        ensures
            text@ == match *self {
                ErrorKind::PathLookupFailed => "Path lookup failed"@,
                ErrorKind::IoError => "Failed to read the file"@,
                ErrorKind::UnsupportedFormat => "Illegal binary type"@,
                ErrorKind::MalformedElf => "Malformed ELF"@,
                ErrorKind::MalformedPe => "Could not parse export entry"@,
                ErrorKind::UnsupportedArchitecture => "Unsupported architecture"@,
                ErrorKind::EmulatorSetupFailed => "Failed to set up the emulator"@,
                ErrorKind::MissingDtPltGot => "Failed to get DT_PLTGOT information"@,
                ErrorKind::SymbolNotFound => "Symbol not found"@,
                ErrorKind::WrongVectorSize => "Wrong vector size!"@,
                ErrorKind::InvalidUrlEncoding => "Invalid input to urldecode"@,
                ErrorKind::SequenceExhausted => "Can't create a pattern of that length"@,
                ErrorKind::SyntaxError => "Cannot parse as AST"@,
                ErrorKind::InvalidRegister => "Invalid Register"@,
                ErrorKind::InvalidUtf8 => "Invalid utf8"@,
                ErrorKind::InvalidNumber => "Invalid number"@,
                ErrorKind::ArithmeticError => "Arithmetic error"@,
                ErrorKind::InvalidOperator => "Invalid operator"@,
                ErrorKind::UnknownCommand => "Can't parse command"@,
                ErrorKind::MalformedCommand => "Malformed Regex Cmd"@,
                ErrorKind::InvalidPattern => "Malformed Regex"@,
                ErrorKind::NothingCaptured => "Could not capture anything."@,
                ErrorKind::NoGroupCaptured => "No group captured"@,
            },
    {
        match self {
            ErrorKind::PathLookupFailed => "Path lookup failed",
            ErrorKind::IoError => "Failed to read the file",
            ErrorKind::UnsupportedFormat => "Illegal binary type",
            ErrorKind::MalformedElf => "Malformed ELF",
            ErrorKind::MalformedPe => "Could not parse export entry",
            ErrorKind::UnsupportedArchitecture => "Unsupported architecture",
            ErrorKind::EmulatorSetupFailed => "Failed to set up the emulator",
            ErrorKind::MissingDtPltGot => "Failed to get DT_PLTGOT information",
            ErrorKind::SymbolNotFound => "Symbol not found",
            ErrorKind::WrongVectorSize => "Wrong vector size!",
            ErrorKind::InvalidUrlEncoding => "Invalid input to urldecode",
            ErrorKind::SequenceExhausted => "Can't create a pattern of that length",
            ErrorKind::SyntaxError => "Cannot parse as AST",
            ErrorKind::InvalidRegister => "Invalid Register",
            ErrorKind::InvalidUtf8 => "Invalid utf8",
            ErrorKind::InvalidNumber => "Invalid number",
            ErrorKind::ArithmeticError => "Arithmetic error",
            ErrorKind::InvalidOperator => "Invalid operator",
            ErrorKind::UnknownCommand => "Can't parse command",
            ErrorKind::MalformedCommand => "Malformed Regex Cmd",
            ErrorKind::InvalidPattern => "Malformed Regex",
            ErrorKind::NothingCaptured => "Could not capture anything.",
            ErrorKind::NoGroupCaptured => "No group captured",
        }
    }
}

} // verus!
