//! The encoding contract: the dual of decoding.
//!
//! Each value of the model emits itself back to the abstract document tree:
//! scalars emit as themselves, an object emits its key/value pairs in
//! order, a list emits its elements in order. Both signed integer widths
//! emit as the one signed-integer document node: a document serializer does
//! not distinguish them.

use vstd::prelude::*;

use crate::any::{any_view, AnyV, SaladAny};
use crate::common::{primitive_type_chars, ArrayName, EnumName, PrimitiveType, RecordName};
use crate::doc::{Doc, DocV};
use crate::object::{obj_view, ObjV, SaladObject};
use crate::primitive::{PrimV, SaladPrimitive};

verus! {

/// What an untyped value emits to the abstract document tree.
pub open spec fn any_to_doc(v: AnyV) -> DocV
    decreases v,
{
    match v {
        AnyV::Bool(b) => DocV::Bool(b),
        AnyV::Int(i) => DocV::Int(i as i64),
        AnyV::Long(l) => DocV::Int(l),
        AnyV::Float(b) => DocV::Float(b),
        AnyV::Double(b) => DocV::Double(b),
        AnyV::Str(s) => DocV::Str(s),
        AnyV::Object(es) => DocV::Mapping(
            Seq::new(
                es.len(),
                |i: int|
                    if 0 <= i < es.len() {
                        (DocV::Str(es[i].0), any_to_doc(es[i].1))
                    } else {
                        (DocV::Null, DocV::Null)
                    },
            ),
        ),
        AnyV::List(ls) => DocV::Sequence(
            Seq::new(
                ls.len(),
                |i: int|
                    if 0 <= i < ls.len() {
                        any_to_doc(ls[i])
                    } else {
                        DocV::Null
                    },
            ),
        ),
    }
}

/// What an object emits: its key/value pairs, in order.
pub open spec fn obj_to_doc(es: ObjV) -> DocV {
    any_to_doc(AnyV::Object(es))
}

impl SaladAny {
    /// Emits this value back to the abstract document tree.
    #[verifier::loop_isolation(false)]
    pub fn to_doc(&self) -> (r: Doc)
        ensures
            r.deep_view() == any_to_doc(self.deep_view()),
        decreases self,
    {
        match self {
            SaladAny::Bool(b) => Doc::Bool(*b),
            SaladAny::Int(i) => Doc::Int(*i as i64),
            SaladAny::Long(l) => Doc::Int(*l),
            SaladAny::Float(f) => Doc::Float(f.bits),
            SaladAny::Double(d) => Doc::Double(d.bits),
            SaladAny::String(s) => Doc::Str(s.as_str().to_owned()),
            SaladAny::Object(o) => {
                proof {
                    assert(decreases_to!(*self => self->Object_0));
                }
                o.to_doc()
            },
            SaladAny::List(l) => {
                let mut out: Vec<Doc> = Vec::new();
                let mut i: usize = 0;
                while i < l.len()
                    invariant
                        i <= l@.len(),
                        out@.len() == i,
                        forall|j: int|
                            0 <= j < i ==> out@[j].deep_view() == any_to_doc(l@[j].deep_view()),
                    decreases l@.len() - i,
                {
                    proof {
                        assert(decreases_to!(*self => self->List_0));
                        assert(decreases_to!(*l => l@));
                        assert(decreases_to!(l@ => l@[i as int]));
                    }
                    out.push(l[i].to_doc());
                    i = i + 1;
                }
                let r = Doc::Sequence(out);
                proof {
                    assert(r.deep_view()->Sequence_0 =~= any_to_doc(
                        self.deep_view(),
                    )->Sequence_0);
                }
                r
            },
        }
    }
}

impl SaladObject {
    /// Emits this object back to the abstract document tree: an ordered
    /// emission of its key/value pairs.
    #[verifier::loop_isolation(false)]
    pub fn to_doc(&self) -> (r: Doc)
        ensures
            r.deep_view() == obj_to_doc(self.deep_view()),
        decreases self,
    {
        let mut out: Vec<(Doc, Doc)> = Vec::new();
        let mut i: usize = 0;
        while i < self.entries.len()
            invariant
                i <= self.entries@.len(),
                out@.len() == i,
                forall|j: int|
                    0 <= j < i ==> out@[j].0.deep_view() == DocV::Str(self.entries@[j].0@)
                        && out@[j].1.deep_view() == any_to_doc(any_view(self.entries@[j].1)),
            decreases self.entries@.len() - i,
        {
            proof {
                assert(decreases_to!(*self => self.entries));
                assert(decreases_to!(self.entries => self.entries@));
                assert(decreases_to!(self.entries@ => self.entries@[i as int]));
                assert(decreases_to!(self.entries@[i as int] => self.entries@[i as int].1));
            }
            let k = Doc::Str(self.entries[i].0.clone());
            let v = self.entries[i].1.to_doc();
            out.push((k, v));
            i = i + 1;
        }
        let r = Doc::Mapping(out);
        proof {
            assert(r.deep_view()->Mapping_0 =~= obj_to_doc(self.deep_view())->Mapping_0);
        }
        r
    }
}

/// What a primitive value emits to the abstract document tree.
pub open spec fn prim_to_doc(p: PrimV) -> DocV {
    match p {
        PrimV::Bool(b) => DocV::Bool(b),
        PrimV::Int(i) => DocV::Int(i as i64),
        PrimV::Long(l) => DocV::Int(l),
        PrimV::Float(b) => DocV::Float(b),
        PrimV::Double(b) => DocV::Double(b),
        PrimV::Str(s) => DocV::Str(s),
    }
}

impl SaladPrimitive {
    /// Emits this primitive back to the abstract document tree.
    pub fn to_doc(&self) -> (r: Doc)
        ensures
            r.deep_view() == prim_to_doc(self.deep_view()),
    {
        match self {
            SaladPrimitive::Bool(b) => Doc::Bool(*b),
            SaladPrimitive::Int(i) => Doc::Int(*i as i64),
            SaladPrimitive::Long(l) => Doc::Int(*l),
            SaladPrimitive::Float(f) => Doc::Float(f.bits),
            SaladPrimitive::Double(d) => Doc::Double(d.bits),
            SaladPrimitive::String(s) => Doc::Str(s.as_str().to_owned()),
        }
    }
}

impl PrimitiveType {
    /// Emits this primitive type name as its constant string.
    pub fn to_doc(&self) -> (r: Doc)
        ensures
            r.deep_view() == DocV::Str(primitive_type_chars(*self)),
    {
        Doc::Str(self.as_str().to_owned())
    }
}

impl ArrayName {
    /// Emits this marker as its constant string.
    pub fn to_doc(&self) -> (r: Doc)
        ensures
            r.deep_view() == DocV::Str("array"@),
    {
        Doc::Str(self.as_str().to_owned())
    }
}

impl EnumName {
    /// Emits this marker as its constant string.
    pub fn to_doc(&self) -> (r: Doc)
        ensures
            r.deep_view() == DocV::Str("enum"@),
    {
        Doc::Str(self.as_str().to_owned())
    }
}

impl RecordName {
    /// Emits this marker as its constant string.
    pub fn to_doc(&self) -> (r: Doc)
        ensures
            r.deep_view() == DocV::Str("record"@),
    {
        Doc::Str(self.as_str().to_owned())
    }
}

} // verus!
