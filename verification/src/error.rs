use vstd::prelude::*;

verus! {

/// The two fatal failure kinds of a generation run. Both carry the
/// namespace and name of the declaration that triggered them.
#[derive(Debug)]
pub enum GenError {
    /// The input metadata violated a structural assumption: an attribute
    /// argument of an unexpected kind, a delegate without its invoke
    /// method, an enum without its layout fields.
    UnsupportedShape { namespace: Vec<u8>, name: Vec<u8> },
    /// A namespace-excluded type reached a position that cannot be
    /// silently elided: a structure field, a delegate's invoke signature,
    /// or a method of the primary binary surface.
    ExcludedTypeLeak { namespace: Vec<u8>, name: Vec<u8> },
}

impl GenError {
    pub open spec fn is_unsupported(&self) -> bool {
        match *self {
            GenError::UnsupportedShape { .. } => true,
            _ => false,
        }
    }

    pub open spec fn is_leak(&self) -> bool {
        match *self {
            GenError::ExcludedTypeLeak { .. } => true,
            _ => false,
        }
    }
}

} // verus!
