use vstd::prelude::*;

verus! {

/// Failures of the memory bus and of its devices.
#[derive(Debug, Clone, Copy, PartialEq, Eq)]
pub enum MemoryError {
    /// A device was addressed at an offset that it does not decode.
    InvalidRamAddress(u16),
    /// A ROM image longer than the ROM region.
    InvalidRomSize(usize),
    /// A write to read-only memory (ROM, or a read-only device register).
    WriteNotPermitted(u16),
    /// An access that reaches no region or device, or a word access that
    /// straddles two regions or leaves a device's range.
    UnmappedAddress(u16),
    /// A device whose range leaves the MMIO window or overlaps another device.
    DeviceOverlap(u16),
}

/// Fatal errors of the CPU.
#[derive(Debug, Clone, Copy, PartialEq, Eq)]
pub enum VMError {
    MemoryError(MemoryError),
    InvalidOpcode(u8),
    StackOverflow,
    StackUnderflow,
    InvalidRegister(u8),
    DivideByZero,
}

/// Errors of the two-pass assembler.
#[derive(Debug, Clone, PartialEq, Eq)]
pub enum AssembleError {
    /// A character that starts no token, at the given line.
    InvalidCharacter(usize),
    /// A literal above 0xFFFF or a register index above 15, at the given line.
    InvalidLiteral(usize),
    /// A token that cannot start a statement, at the given line.
    InvalidInstruction(usize),
    /// A token that cannot be an operand, at the given line.
    ParseError(usize),
    /// A directive that the assembler does not know.
    UnknownDirective(String),
    /// A label defined twice.
    DuplicateLabel(String),
    /// A reference to a label that is never defined.
    UnknownLabel(String),
    /// A reference to an alias that is never declared.
    UnknownAlias(String),
    /// An alias chain deeper than the limit (a cycle).
    AliasDepthExceeded(String),
    /// A register index above 15 in an operand.
    RegisterOutOfRange(u8),
    /// Operand kinds that the mnemonic has no encoding for.
    InvalidOperands,
    /// Emission past the end of the output image.
    ImageOverflow,
}

/// An assembler error, with its names as character sequences.
pub enum AssembleErrorView {
    InvalidCharacter(usize),
    InvalidLiteral(usize),
    InvalidInstruction(usize),
    ParseError(usize),
    UnknownDirective(Seq<char>),
    DuplicateLabel(Seq<char>),
    UnknownLabel(Seq<char>),
    UnknownAlias(Seq<char>),
    AliasDepthExceeded(Seq<char>),
    RegisterOutOfRange(u8),
    InvalidOperands,
    ImageOverflow,
}

impl View for AssembleError {
    type V = AssembleErrorView;

    open spec fn view(&self) -> AssembleErrorView {
        match self {
            AssembleError::InvalidCharacter(l) => AssembleErrorView::InvalidCharacter(*l),
            AssembleError::InvalidLiteral(l) => AssembleErrorView::InvalidLiteral(*l),
            AssembleError::InvalidInstruction(l) => AssembleErrorView::InvalidInstruction(*l),
            AssembleError::ParseError(l) => AssembleErrorView::ParseError(*l),
            AssembleError::UnknownDirective(n) => AssembleErrorView::UnknownDirective(n@),
            AssembleError::DuplicateLabel(n) => AssembleErrorView::DuplicateLabel(n@),
            AssembleError::UnknownLabel(n) => AssembleErrorView::UnknownLabel(n@),
            AssembleError::UnknownAlias(n) => AssembleErrorView::UnknownAlias(n@),
            AssembleError::AliasDepthExceeded(n) => AssembleErrorView::AliasDepthExceeded(n@),
            AssembleError::RegisterOutOfRange(r) => AssembleErrorView::RegisterOutOfRange(*r),
            AssembleError::InvalidOperands => AssembleErrorView::InvalidOperands,
            AssembleError::ImageOverflow => AssembleErrorView::ImageOverflow,
        }
    }
}

/// Top-level error of the emulator.
#[derive(Debug, Clone, PartialEq, Eq)]
pub enum CError {
    VM(VMError),
    Assemble(AssembleError),
    Memory(MemoryError),
}

} // verus!
