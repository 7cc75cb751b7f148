use vstd::prelude::*;

verus! {

/// Why a decode failed.
#[derive(Clone, Copy, Debug, PartialEq, Eq, Structural)]
pub enum ScnError {
    /// The header's version text is not the one supported version.
    UnrecognizedVersion,
    /// The header declares a longer instructions text than the decoder accepts.
    InstructionsTooLarge,
    /// The body after the header is not a valid deflate stream.
    DecompressionFailure,
    /// A read needed more bytes than remain.
    UnexpectedEndOfStream,
}

} // verus!
