//! The abstract document tree.
//!
//! A concrete parser (YAML, JSON, ...) is an external collaborator: it reads
//! text and hands the library one [`Doc`] node per document. `Doc` plays the
//! role of the push-style decoding contract: each variant is one scalar or
//! structured event a decoding source can present. Map entries keep the
//! order in which the parser encountered them, and duplicate keys are kept
//! as they appeared; rejecting duplicates is the job of the object decoder.

use vstd::prelude::*;

verus! {

/// One decoding event tree, as handed over by a document parser.
#[derive(Debug)]
pub enum Doc {
    /// A boolean scalar.
    Bool(bool),
    /// A signed integer scalar.
    Int(i64),
    /// An unsigned integer scalar, for magnitudes above the signed range.
    UInt(u64),
    /// A single-precision floating-point scalar, as its IEEE 754 bit pattern.
    Float(u32),
    /// A double-precision floating-point scalar, as its IEEE 754 bit pattern.
    Double(u64),
    /// A string scalar.
    Str(String),
    /// A raw byte buffer.
    Bytes(Vec<u8>),
    /// A sequence of nested documents, in order.
    Sequence(Vec<Doc>),
    /// A mapping: (key, value) pairs in encounter order, duplicates kept.
    Mapping(Vec<(Doc, Doc)>),
    /// An explicit "no value" signal (a null or unit event).
    Null,
}

/// The mathematical shape of a [`Doc`].
#[verifier::ext_equal]
pub ghost enum DocV {
    Bool(bool),
    Int(i64),
    UInt(u64),
    Float(u32),
    Double(u64),
    Str(Seq<char>),
    Bytes(Seq<u8>),
    Sequence(Seq<DocV>),
    Mapping(Seq<(DocV, DocV)>),
    Null,
}

/// The mathematical shape of a document node.
pub open spec fn doc_view(d: Doc) -> DocV
    decreases d,
{
    match d {
        Doc::Bool(b) => DocV::Bool(b),
        Doc::Int(i) => DocV::Int(i),
        Doc::UInt(u) => DocV::UInt(u),
        Doc::Float(b) => DocV::Float(b),
        Doc::Double(b) => DocV::Double(b),
        Doc::Str(s) => DocV::Str(s@),
        Doc::Bytes(b) => DocV::Bytes(b@),
        Doc::Sequence(es) => DocV::Sequence(
            Seq::new(
                es@.len(),
                |i: int|
                    if 0 <= i < es@.len() {
                        doc_view(es@[i])
                    } else {
                        DocV::Null
                    },
            ),
        ),
        Doc::Mapping(ps) => DocV::Mapping(
            Seq::new(
                ps@.len(),
                |i: int|
                    if 0 <= i < ps@.len() {
                        (doc_view(ps@[i].0), doc_view(ps@[i].1))
                    } else {
                        (DocV::Null, DocV::Null)
                    },
            ),
        ),
        Doc::Null => DocV::Null,
    }
}

impl DeepView for Doc {
    type V = DocV;

    open spec fn deep_view(&self) -> DocV {
        doc_view(*self)
    }
}

/// Copies a byte buffer.
pub(crate) fn clone_bytes(v: &Vec<u8>) -> (r: Vec<u8>)
    ensures
        r@ == v@,
{
    let mut out: Vec<u8> = Vec::new();
    let mut i: usize = 0;
    while i < v.len()
        invariant
            i <= v.len(),
            out@ == v@.subrange(0, i as int),
        decreases v.len() - i,
    {
        out.push(v[i]);
        proof {
            assert(out@ =~= v@.subrange(0, i + 1));
        }
        i = i + 1;
    }
    proof {
        assert(out@ =~= v@);
    }
    out
}

impl Clone for Doc {
    /// Deep copy; the copy has the same mathematical shape as the original.
    #[verifier::loop_isolation(false)]
    fn clone(&self) -> (r: Self)
        ensures
            r.deep_view() == self.deep_view(),
        decreases self,
    {
        match self {
            Doc::Bool(b) => Doc::Bool(*b),
            Doc::Int(i) => Doc::Int(*i),
            Doc::UInt(u) => Doc::UInt(*u),
            Doc::Float(b) => Doc::Float(*b),
            Doc::Double(b) => Doc::Double(*b),
            Doc::Str(s) => Doc::Str(s.clone()),
            Doc::Bytes(b) => Doc::Bytes(clone_bytes(b)),
            Doc::Sequence(es) => {
                let mut out: Vec<Doc> = Vec::new();
                let mut i: usize = 0;
                while i < es.len()
                    invariant
                        i <= es.len(),
                        out@.len() == i,
                        forall|j: int|
                            0 <= j < i ==> out@[j].deep_view() == es@[j].deep_view(),
                    decreases es.len() - i,
                {
                    proof {
                        assert(decreases_to!(*self => self->Sequence_0));
                        assert(decreases_to!(*es => es@));
                        assert(decreases_to!(es@ => es@[i as int]));
                    }
                    out.push(es[i].clone());
                    i = i + 1;
                }
                let r = Doc::Sequence(out);
                proof {
                    let rv = r.deep_view();
                    let sv = self.deep_view();
                    assert(rv is Sequence);
                    assert(sv is Sequence);
                    assert(rv->Sequence_0.len() == sv->Sequence_0.len());
                    assert forall|j: int| 0 <= j < out@.len() implies rv->Sequence_0[j]
                        == sv->Sequence_0[j] by {
                        assert(rv->Sequence_0[j] == out@[j].deep_view());
                        assert(sv->Sequence_0[j] == es@[j].deep_view());
                    }
                    assert(rv->Sequence_0 =~= sv->Sequence_0);
                    assert(rv =~= sv);
                }
                r
            },
            Doc::Mapping(ps) => {
                let mut out: Vec<(Doc, Doc)> = Vec::new();
                let mut i: usize = 0;
                while i < ps.len()
                    invariant
                        i <= ps.len(),
                        out@.len() == i,
                        forall|j: int|
                            0 <= j < i ==> out@[j].0.deep_view() == ps@[j].0.deep_view()
                                && out@[j].1.deep_view() == ps@[j].1.deep_view(),
                    decreases ps.len() - i,
                {
                    proof {
                        assert(decreases_to!(*self => self->Mapping_0));
                        assert(decreases_to!(*ps => ps@));
                        assert(decreases_to!(ps@ => ps@[i as int]));
                        assert(decreases_to!(ps@[i as int] => ps@[i as int].0));
                        assert(decreases_to!(ps@[i as int] => ps@[i as int].1));
                    }
                    let k = ps[i].0.clone();
                    let v = ps[i].1.clone();
                    out.push((k, v));
                    i = i + 1;
                }
                let r = Doc::Mapping(out);
                proof {
                    let rv = r.deep_view();
                    let sv = self.deep_view();
                    assert(rv->Mapping_0.len() == sv->Mapping_0.len());
                    assert forall|j: int| 0 <= j < out@.len() implies rv->Mapping_0[j]
                        == sv->Mapping_0[j] by {
                        assert(rv->Mapping_0[j] == (out@[j].0.deep_view(), out@[j].1.deep_view()));
                        assert(sv->Mapping_0[j] == (ps@[j].0.deep_view(), ps@[j].1.deep_view()));
                    }
                    assert(rv->Mapping_0 =~= sv->Mapping_0);
                    assert(rv =~= sv);
                }
                r
            },
            Doc::Null => Doc::Null,
        }
    }
}

} // verus!
