//! The conditions under which resolution or stack elimination stops.

use vstd::prelude::*;

verus! {

/// Why a descriptor string is not a type or a method signature.
#[derive(Debug, Clone, Copy, PartialEq, Eq, Structural)]
pub enum DescriptorError {
    /// The input ended where a character was needed.
    UnexpectedEnd,
    /// A type starts with a character that begins no type.
    InvalidTypeStart,
    /// A class name is not closed by `;`.
    UnterminatedClassName,
    /// A method descriptor does not begin with `(`.
    MissingOpenParen,
    /// A parameter is followed by something other than `,` or `)`.
    InvalidSeparator,
}

/// Why a constant pool or a method record cannot be resolved.
#[derive(Debug, Clone, Copy, PartialEq, Eq, Structural)]
pub enum ResolveError {
    /// The pool holds more entries than a 16-bit index can address.
    PoolTooLarge,
    /// The index is zero or lies past the end of the pool.
    DanglingIndex(u16),
    /// The entry at the index is not a UTF-8 string.
    NotUtf8(u16),
    /// The entry at the index is not a name-and-type entry.
    NotNameAndType(u16),
    /// The string at the index is no well-formed descriptor.
    MalformedDescriptor(u16, DescriptorError),
}

/// The kinds of instruction that stack elimination does not handle.
#[derive(Debug, Clone, Copy, PartialEq, Eq, Structural)]
pub enum InstructionKind {
    TypeConv,
    ObjManip,
    StackManage,
    Throw,
    Synchronized,
}

/// Why a method body cannot be rewritten over variables.
#[derive(Debug, Clone, Copy, PartialEq, Eq, Structural)]
pub enum TransformError {
    /// The instruction is of a kind that is not handled.
    Unsupported(InstructionKind),
    /// No literal is known under the index.
    MissingLiteral(u16),
    /// No field reference is known under the index.
    MissingFieldRef(u16),
    /// No method reference is known under the index.
    MissingMethodRef(u16),
    /// No class reference is known under the index.
    MissingClassRef(u16),
    /// The instruction needs more operands than the stack holds.
    StackUnderflow,
    /// The stack would grow past the largest depth that can be counted.
    DepthLimit,
    /// Control reaches `block` with depth `expected`, but an earlier path
    /// reached it with depth `found`.
    DepthMismatch { block: usize, expected: isize, found: isize },
}

} // verus!
