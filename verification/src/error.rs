//! The decoding error model.
//!
//! Every failed decode names the shape it expected and the kind of value it
//! actually found, so an error is actionable without inspecting the source
//! document.

use vstd::prelude::*;

verus! {

/// Classification of the value a failed decode actually encountered.
#[derive(Debug, Clone, PartialEq)]
pub enum Unexpected {
    /// A boolean scalar.
    Bool(bool),
    /// A signed integer scalar.
    Signed(i64),
    /// An unsigned integer scalar.
    Unsigned(u64),
    /// A floating-point scalar, as its double-precision IEEE 754 bit pattern.
    Float(u64),
    /// A string scalar.
    Str(String),
    /// A raw byte buffer.
    Bytes(Vec<u8>),
    /// A mapping.
    Mapping,
    /// A sequence.
    Sequence,
    /// An explicit "no value" signal.
    Unit,
}

/// The mathematical shape of an [`Unexpected`].
#[verifier::ext_equal]
pub ghost enum UnexpectedV {
    Bool(bool),
    Signed(i64),
    Unsigned(u64),
    Float(u64),
    Str(Seq<char>),
    Bytes(Seq<u8>),
    Mapping,
    Sequence,
    Unit,
}

impl DeepView for Unexpected {
    type V = UnexpectedV;

    open spec fn deep_view(&self) -> UnexpectedV {
        match self {
            Unexpected::Bool(b) => UnexpectedV::Bool(*b),
            Unexpected::Signed(i) => UnexpectedV::Signed(*i),
            Unexpected::Unsigned(u) => UnexpectedV::Unsigned(*u),
            Unexpected::Float(b) => UnexpectedV::Float(*b),
            Unexpected::Str(s) => UnexpectedV::Str(s@),
            Unexpected::Bytes(b) => UnexpectedV::Bytes(b@),
            Unexpected::Mapping => UnexpectedV::Mapping,
            Unexpected::Sequence => UnexpectedV::Sequence,
            Unexpected::Unit => UnexpectedV::Unit,
        }
    }
}

/// An error produced by a failed decode or downcast.
#[derive(Debug, Clone, PartialEq)]
pub enum DecodeError {
    /// The value's kind does not match what the target expected; carries a
    /// description of the expected kind and the encountered value's kind.
    InvalidType { unexpected: Unexpected, expected: &'static str },
    /// The value's kind matched but its content violates a constraint
    /// (out-of-range unsigned magnitude, non-UTF-8 bytes, a string that is
    /// not the required literal).
    InvalidValue { unexpected: Unexpected, expected: &'static str },
    /// An object decode saw the same field name twice at one nesting level.
    DuplicateKey { key: String },
    /// A map-like walk was asked for a value before a key; an internal
    /// invariant violation that correct adapter usage never produces.
    MissingValue,
    /// The map-or-list adapter, configured without a predicate field, met a
    /// map entry whose value is not itself a map; carries the configured
    /// key field name.
    MissingPredicate { key: String },
}

/// The mathematical shape of a [`DecodeError`].
#[verifier::ext_equal]
pub ghost enum ErrV {
    InvalidType { unexpected: UnexpectedV, expected: Seq<char> },
    InvalidValue { unexpected: UnexpectedV, expected: Seq<char> },
    DuplicateKey { key: Seq<char> },
    MissingValue,
    MissingPredicate { key: Seq<char> },
}

impl DeepView for DecodeError {
    type V = ErrV;

    open spec fn deep_view(&self) -> ErrV {
        match self {
            DecodeError::InvalidType { unexpected, expected } => ErrV::InvalidType {
                unexpected: unexpected.deep_view(),
                expected: expected.view(),
            },
            DecodeError::InvalidValue { unexpected, expected } => ErrV::InvalidValue {
                unexpected: unexpected.deep_view(),
                expected: expected.view(),
            },
            DecodeError::DuplicateKey { key } => ErrV::DuplicateKey { key: key.view() },
            DecodeError::MissingValue => ErrV::MissingValue,
            DecodeError::MissingPredicate { key } => ErrV::MissingPredicate { key: key.view() },
        }
    }
}

/// The mathematical shape of a decode result: the value's shape on success,
/// the error's shape on failure.
pub open spec fn res_view<T: DeepView>(r: Result<T, DecodeError>) -> Result<T::V, ErrV> {
    match r {
        Ok(t) => Ok(t.deep_view()),
        Err(e) => Err(e.deep_view()),
    }
}

impl DecodeError {
    /// The description of the expected shape, where the error carries one.
    pub fn expected(&self) -> (r: Option<&'static str>)
        ensures
            match self.deep_view() {
                ErrV::InvalidType { expected, .. } => r is Some && r->0@ == expected,
                ErrV::InvalidValue { expected, .. } => r is Some && r->0@ == expected,
                _ => r is None,
            },
    {
        match self {
            DecodeError::InvalidType { expected, .. } => Some(*expected),
            DecodeError::InvalidValue { expected, .. } => Some(*expected),
            _ => None,
        }
    }
}

} // verus!
