//! Error types for the compilation pipeline and the object format.

use vstd::prelude::*;

verus! {

/// The error type for the compilation pipeline.
#[derive(Clone, Debug, PartialEq, Eq)]
pub enum Error {
    /// A generic compilation failure with a string message, used as a
    /// catch-all for cases uncommon enough not to have specific variants.
    CompilationFailure(String),

    /// The named segment of a data-layout string could not be parsed. The
    /// first field holds the whole descriptor, the second the offending
    /// segment.
    InvalidDataLayoutSpecification(String, String),

    /// An attempt was made to construct an invalid ordering of compiler
    /// passes.
    InvalidPassOrdering(String),

    /// A pass was configured with an identity reserved for another pass
    /// kind; pass identities must never collide across kinds.
    ReservedPassKey,

    /// The module name required for code generation is missing.
    MissingModuleName,

    /// A module could not be added to the compilation context.
    UnableToAddModuleToContext(String),

    /// The target supports only a single address space, numbered zero.
    UnsupportedAdditionalAddressSpaces,

    /// The target does not support non-integral pointers.
    UnsupportedNonIntegralPointerConfiguration,

    /// A source type that the compiler's type language cannot represent.
    UnsupportedType(String),

    /// A serialized object could not be decoded.
    InvalidObjectText(String),

    /// An object still holds unexpected poison at non-partial emission time.
    UnexpectedPoison,
}

impl Error {
    /// A short human-readable description of the error.
    pub fn message(&self) -> (r: &'static str)
        ensures
            r@.len() > 0,
    {
        proof {
            reveal_strlit("compilation failed");
            reveal_strlit("the string could not be parsed as an LLVM data layout");
            reveal_strlit("invalid pass ordering");
            reveal_strlit("a pass carries an identity reserved for another pass kind");
            reveal_strlit("the module name is missing");
            reveal_strlit("unable to add module to context");
            reveal_strlit("only targets with a single address space numbered 0 are supported");
            reveal_strlit("targets with non-integral pointers are not supported");
            reveal_strlit("the source type is not supported");
            reveal_strlit("the serialized object could not be decoded");
            reveal_strlit("the object holds poisoned entities and was not marked partial");
        }
        let m: &'static str = match self {
            Error::CompilationFailure(_) => "compilation failed",
            Error::InvalidDataLayoutSpecification(_, _) => {
                "the string could not be parsed as an LLVM data layout"
            },
            Error::InvalidPassOrdering(_) => "invalid pass ordering",
            Error::ReservedPassKey => {
                "a pass carries an identity reserved for another pass kind"
            },
            Error::MissingModuleName => "the module name is missing",
            Error::UnableToAddModuleToContext(_) => "unable to add module to context",
            Error::UnsupportedAdditionalAddressSpaces => {
                "only targets with a single address space numbered 0 are supported"
            },
            Error::UnsupportedNonIntegralPointerConfiguration => {
                "targets with non-integral pointers are not supported"
            },
            Error::UnsupportedType(_) => "the source type is not supported",
            Error::InvalidObjectText(_) => "the serialized object could not be decoded",
            Error::UnexpectedPoison => {
                "the object holds poisoned entities and was not marked partial"
            },
        };
        m
    }
}

} // verus!
