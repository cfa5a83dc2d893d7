//! Runtime value model and flexible decoding layer for a schema-driven,
//! YAML/JSON-like interchange format.
//!
//! A document parser hands the library a [`doc::Doc`] tree; the library
//! decodes it into the canonical untyped [`any::SaladAny`] value model, or
//! into precise typed values, and can later "downcast" parts of an untyped
//! tree into typed values without touching the original document.

use vstd::prelude::*;

pub mod any;
pub mod bridge;
pub mod common;
pub mod de;
pub mod doc;
pub mod encode;
pub mod error;
pub mod laws;
pub mod num;
pub mod object;
pub mod primitive;
pub mod util;

pub use crate::any::SaladAny;
pub use crate::object::SaladObject;
pub use crate::primitive::{
    SaladBool, SaladDouble, SaladFloat, SaladInt, SaladLong, SaladPrimitive, SaladString,
};

use crate::any::AnyV;
use crate::doc::{Doc, DocV};
use crate::error::{res_view, DecodeError, ErrV};

verus! {

/// The decoding contract for Schema Salad data types.
///
/// A type joins the value model by saying, as two specification functions,
/// exactly what it decodes to from a parsed document node and from an
/// already-decoded untyped value, and by providing executable decoders that
/// meet those specifications. The second decoder is the downcast engine:
/// it lets any salad type be re-read from an in-memory [`SaladAny`] tree as
/// if it were freshly parsed.
pub trait SaladType: DeepView + Sized {
    /// What this type decodes to from a document node.
    spec fn from_doc_spec(d: DocV) -> Result<<Self as DeepView>::V, ErrV>;

    /// What this type decodes to from an untyped value.
    spec fn from_any_spec(v: AnyV) -> Result<<Self as DeepView>::V, ErrV>;

    /// Decodes a parsed document node into this type.
    fn from_doc(doc: &Doc) -> (r: Result<Self, DecodeError>)
        ensures
            res_view(r) == Self::from_doc_spec(doc.deep_view()),
    ;

    /// Decodes an untyped value into this type.
    fn from_any(v: &SaladAny) -> (r: Result<Self, DecodeError>)
        ensures
            res_view(r) == Self::from_any_spec(v.deep_view()),
    ;
}

} // verus!
