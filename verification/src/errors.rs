use vstd::prelude::*;

verus! {

/// The category of a fault. Every fault is fatal to the run that raised it.
#[derive(Debug, Clone, Copy, PartialEq, Eq, Structural)]
pub enum Error {
    FileError,
    UnknownSymbolError,
    OpError,
    AccumulatorError,
    SyntaxError,
    InputError,
    OutOfBoundsError,
    OverflowError,
}

} // verus!
