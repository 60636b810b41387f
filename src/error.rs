//! The build-time diagnostics: each one aborts the analysis of a block.
use vstd::prelude::*;

verus! {

/// Why a register-block description was refused. A field is named by its
/// position in the declaration.
#[derive(Debug, PartialEq, Eq, Structural, Clone, Copy)]
pub enum GenError {
    /// The struct does not have a fixed, C-compatible layout.
    NotReprC,
    /// The declaration is not a struct.
    NotAStruct,
    /// The struct's fields are not named.
    UnnamedFields,
    /// A block-level option other than `no_ctors`, `const_ptr`, `const_inner`.
    UnknownBlockOption,
    /// A field annotation that could not be parsed at all.
    MalformedAnnotation { field: usize },
    /// A field annotation token that is not an access token.
    UnknownToken { field: usize },
    /// `Read` or `PureRead` given twice.
    DuplicateRead { field: usize },
    /// `Write` given twice.
    DuplicateWrite { field: usize },
    /// `Modify` given twice.
    DuplicateModify { field: usize },
    /// `inner` (or `Inner`) given twice.
    DuplicateInner { field: usize },
    /// `Modify` without both a read and a write capability.
    ModifyWithoutReadWrite { field: usize },
    /// A nested block that also carries an access token.
    InnerWithAccess { field: usize },
    /// A nested block whose type is neither a type path nor an array of one.
    InvalidInnerType { field: usize },
    /// The field sizes do not add up to the size of the struct.
    SizeMismatch,
}

} // verus!
