use vstd::prelude::*;

verus! {

/// Why loading or running a program stopped.
#[derive(Debug, Clone, PartialEq, Eq)]
pub enum VmError {
    /// An invoked name is neither built in, nor registered, nor a `_` placeholder.
    UnknownFunction(String),
    /// An entry of the program lacks a field its type needs, or holds one of
    /// the wrong kind.
    MalformedEntry,
    /// An operand has the wrong variant.
    TypeError,
    /// An operation needs more operands than the stack holds.
    StackUnderflow,
    /// `getContext` on a key with no entry.
    KeyMissing,
    /// `goto` to a label that was never defined.
    LabelNotFound,
    /// An opening brace without its closing brace.
    UnbalancedBrace,
    /// A step with the program counter past the last instruction.
    PCOutOfRange,
    /// `run` after the program has exited.
    AlreadyExited,
    /// An arithmetic result does not fit in a machine integer.
    Overflow,
    /// `randInt` with a bound that is not positive.
    EmptyRange,
}

} // verus!
