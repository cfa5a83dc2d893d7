//! The decoding bridge: the downcast engine.
//!
//! A constructed [`SaladAny`] (or [`SaladObject`]) can serve as a decoding
//! source in place of a freshly parsed document, so any [`SaladType`] can be
//! re-read from an in-memory value tree. Re-reading the untyped model from
//! itself renormalizes numeric widths; failed downcasts hand the original
//! value back unchanged.

use vstd::prelude::*;

use crate::any::{
    any_from_doc, any_unexpected, anys_from_docs, entries_contain_key, any_view, doc_unexpected, entries_view, lemma_anys_err_persists,
    lemma_norm_entries_err_persists, lemma_norm_list_err_persists, lemma_pairs_err_persists,
    norm_any, norm_entries, norm_list, object_from_doc, object_from_pairs, unexpected_of_any,
    AnyV, SaladAny,
};
use crate::doc::{clone_bytes, Doc, DocV};
use crate::error::{res_view, DecodeError, ErrV, Unexpected};
use crate::num::{
    double_to_float_bits, is_double_in_float_range, is_long_in_int_range,
};
use crate::object::{obj_view, ObjV, SaladObject};
use crate::primitive::{SaladDouble, SaladFloat, SaladString};
use crate::util::string_from_utf8;
use crate::SaladType;

verus! {

/// Renormalizes an untyped value, as [`norm_any`] says.
#[verifier::loop_isolation(false)]
pub(crate) fn normalize(v: &SaladAny) -> (r: Result<SaladAny, DecodeError>)
    ensures
        res_view(r) == norm_any(v.deep_view()),
    decreases v,
{
    match v {
        SaladAny::Bool(b) => Ok(SaladAny::Bool(*b)),
        SaladAny::Int(i) => Ok(SaladAny::Int(*i)),
        SaladAny::Long(l) => {
            if is_long_in_int_range(*l) {
                Ok(SaladAny::Int(*l as i32))
            } else {
                Ok(SaladAny::Long(*l))
            }
        },
        SaladAny::Float(f) => Ok(SaladAny::Float(*f)),
        SaladAny::Double(d) => {
            if is_double_in_float_range(d.bits) {
                Ok(SaladAny::Float(SaladFloat { bits: double_to_float_bits(d.bits) }))
            } else {
                Ok(SaladAny::Double(*d))
            }
        },
        SaladAny::String(s) => Ok(SaladAny::String(s.clone())),
        SaladAny::Object(o) => {
            proof {
                assert(decreases_to!(*v => v->Object_0));
            }
            match normalize_object(o) {
                Ok(o2) => Ok(SaladAny::Object(o2)),
                Err(e) => Err(e),
            }
        },
        SaladAny::List(l) => {
            let ghost lsv = v.deep_view()->List_0;
            let mut out: Vec<SaladAny> = Vec::new();
            let mut i: usize = 0;
            proof {
                assert(lsv.take(0) =~= Seq::<AnyV>::empty());
                assert(out.deep_view() =~= Seq::<AnyV>::empty());
            }
            while i < l.len()
                invariant
                    i <= l@.len(),
                    norm_list(lsv.take(i as int)) == Ok::<_, ErrV>(out.deep_view()),
                decreases l@.len() - i,
            {
                proof {
                    assert(decreases_to!(*v => v->List_0));
                    assert(decreases_to!(*l => l@));
                    assert(decreases_to!(l@ => l@[i as int]));
                    assert(lsv[i as int] == l@[i as int].deep_view());
                    assert(lsv.take(i + 1).drop_last() =~= lsv.take(i as int));
                    assert(lsv.take(i + 1).last() == lsv[i as int]);
                }
                match normalize(&l[i]) {
                    Err(e) => {
                        proof {
                            lemma_norm_list_err_persists(lsv, i + 1);
                        }
                        return Err(e);
                    },
                    Ok(nv) => {
                        out.push(nv);
                        proof {
                            assert(out.deep_view() =~= norm_list(lsv.take(i + 1))->Ok_0);
                        }
                    },
                }
                i = i + 1;
            }
            proof {
                assert(lsv.take(i as int) =~= lsv);
            }
            let r = SaladAny::List(out);
            proof {
                assert(any_view(r)->List_0 =~= out.deep_view());
            }
            Ok(r)
        },
    }
}

/// Renormalizes an object, as [`norm_entries`] says.
#[verifier::loop_isolation(false)]
pub(crate) fn normalize_object(o: &SaladObject) -> (r: Result<SaladObject, DecodeError>)
    ensures
        res_view(r) == norm_entries(obj_view(*o)),
    decreases o,
{
    let ghost esv = obj_view(*o);
    let mut out: Vec<(String, SaladAny)> = Vec::new();
    let mut i: usize = 0;
    proof {
        assert(esv.take(0) =~= Seq::<(Seq<char>, AnyV)>::empty());
        assert(entries_view(out@) =~= Seq::<(Seq<char>, AnyV)>::empty());
    }
    while i < o.entries.len()
        invariant
            i <= o.entries@.len(),
            norm_entries(esv.take(i as int)) == Ok::<_, ErrV>(entries_view(out@)),
        decreases o.entries@.len() - i,
    {
        proof {
            assert(decreases_to!(*o => o.entries));
            assert(decreases_to!(o.entries => o.entries@));
            assert(decreases_to!(o.entries@ => o.entries@[i as int]));
            assert(decreases_to!(o.entries@[i as int] => o.entries@[i as int].1));
            assert(esv[i as int].0 == o.entries@[i as int].0@);
            assert(esv[i as int].1 == o.entries@[i as int].1.deep_view());
            assert(esv.take(i + 1).drop_last() =~= esv.take(i as int));
            assert(esv.take(i + 1).last() == esv[i as int]);
        }
        let key = o.entries[i].0.clone();
        if entries_contain_key(&out, key.as_str()) {
            let e = DecodeError::DuplicateKey { key };
            proof {
                lemma_norm_entries_err_persists(esv, i + 1);
            }
            return Err(e);
        }
        match normalize(&o.entries[i].1) {
            Err(e) => {
                proof {
                    lemma_norm_entries_err_persists(esv, i + 1);
                }
                return Err(e);
            },
            Ok(nv) => {
                out.push((key, nv));
                proof {
                    assert(entries_view(out@) =~= norm_entries(esv.take(i + 1))->Ok_0);
                }
            },
        }
        i = i + 1;
    }
    proof {
        assert(esv.take(i as int) =~= esv);
    }
    let r = SaladObject { entries: out };
    proof {
        assert(obj_view(r) =~= entries_view(out@));
    }
    Ok(r)
}

impl SaladType for SaladAny {
    /// Decoding an untyped document yields the untyped value model itself.
    open spec fn from_doc_spec(d: DocV) -> Result<AnyV, ErrV> {
        any_from_doc(d)
    }

    /// Re-decoding an untyped value renormalizes it.
    open spec fn from_any_spec(v: AnyV) -> Result<AnyV, ErrV> {
        norm_any(v)
    }

    /// Decodes a document node into the untyped value model.
    #[verifier::loop_isolation(false)]
    fn from_doc(doc: &Doc) -> (r: Result<SaladAny, DecodeError>)
        decreases doc,
    {
        match doc {
            Doc::Bool(b) => Ok(SaladAny::Bool(*b)),
            Doc::Int(i) => {
                if is_long_in_int_range(*i) {
                    Ok(SaladAny::Int(*i as i32))
                } else {
                    Ok(SaladAny::Long(*i))
                }
            },
            Doc::UInt(u) => {
                if *u <= 0x7FFF_FFFF {
                    Ok(SaladAny::Int(*u as i32))
                } else if *u <= 0x7FFF_FFFF_FFFF_FFFF {
                    Ok(SaladAny::Long(*u as i64))
                } else {
                    Err(
                        DecodeError::InvalidValue {
                            unexpected: Unexpected::Unsigned(*u),
                            expected: "a salad primitive, a key-value object, or a list of them",
                        },
                    )
                }
            },
            Doc::Float(b) => Ok(SaladAny::Float(SaladFloat { bits: *b })),
            Doc::Double(b) => {
                if is_double_in_float_range(*b) {
                    Ok(SaladAny::Float(SaladFloat { bits: double_to_float_bits(*b) }))
                } else {
                    Ok(SaladAny::Double(SaladDouble { bits: *b }))
                }
            },
            Doc::Str(s) => Ok(SaladAny::String(SaladString::new(s.as_str()))),
            Doc::Bytes(bs) => {
                match string_from_utf8(clone_bytes(bs)) {
                    Some(s) => Ok(SaladAny::String(SaladString::from_string(s))),
                    None => Err(
                        DecodeError::InvalidValue {
                            unexpected: Unexpected::Bytes(clone_bytes(bs)),
                            expected: "a salad primitive, a key-value object, or a list of them",
                        },
                    ),
                }
            },
            Doc::Sequence(es) => {
                let ghost dsv = doc.deep_view()->Sequence_0;
                let mut out: Vec<SaladAny> = Vec::new();
                let mut i: usize = 0;
                proof {
                    assert(dsv.take(0) =~= Seq::<DocV>::empty());
                    assert(out.deep_view() =~= Seq::<AnyV>::empty());
                }
                while i < es.len()
                    invariant
                        i <= es@.len(),
                        anys_from_docs(dsv.take(i as int)) == Ok::<_, ErrV>(out.deep_view()),
                    decreases es@.len() - i,
                {
                    proof {
                        assert(decreases_to!(*doc => *es));
                        assert(decreases_to!(*es => es@));
                        assert(decreases_to!(es@ => es@[i as int]));
                        assert(dsv[i as int] == es@[i as int].deep_view());
                    }
                    match Self::from_doc(&es[i]) {
                        Err(e) => {
                            proof {
                                assert(dsv.take(i + 1).drop_last() =~= dsv.take(i as int));
                                assert(dsv.take(i + 1).last() == dsv[i as int]);
                                assert(anys_from_docs(dsv.take(i + 1)) == Err::<Seq<AnyV>, _>(
                                    e.deep_view(),
                                ));
                                lemma_anys_err_persists(dsv, i + 1);
                            }
                            return Err(e);
                        },
                        Ok(v) => {
                            proof {
                                assert(dsv.take(i + 1).drop_last() =~= dsv.take(i as int));
                                assert(dsv.take(i + 1).last() == dsv[i as int]);
                            }
                            out.push(v);
                            proof {
                                assert(out.deep_view() =~= anys_from_docs(
                                    dsv.take(i + 1),
                                )->Ok_0);
                            }
                        },
                    }
                    i = i + 1;
                }
                proof {
                    assert(dsv.take(i as int) =~= dsv);
                }
                let r = SaladAny::List(out);
                proof {
                    assert(any_view(r)->List_0 =~= out.deep_view());
                }
                Ok(r)
            },
            Doc::Mapping(ps) => {
                let ghost psv = doc.deep_view()->Mapping_0;
                let mut out: Vec<(String, SaladAny)> = Vec::new();
                let mut i: usize = 0;
                proof {
                    assert(psv.take(0) =~= Seq::<(DocV, DocV)>::empty());
                    assert(entries_view(out@) =~= Seq::<(Seq<char>, AnyV)>::empty());
                }
                while i < ps.len()
                    invariant
                        i <= ps@.len(),
                        object_from_pairs(psv.take(i as int)) == Ok::<_, ErrV>(
                            entries_view(out@),
                        ),
                    decreases ps@.len() - i,
                {
                    proof {
                        assert(decreases_to!(*doc => *ps));
                        assert(decreases_to!(*ps => ps@));
                        assert(decreases_to!(ps@ => ps@[i as int]));
                        assert(decreases_to!(ps@[i as int] => ps@[i as int].1));
                        assert(psv[i as int].0 == ps@[i as int].0.deep_view());
                        assert(psv[i as int].1 == ps@[i as int].1.deep_view());
                        assert(psv.take(i + 1).drop_last() =~= psv.take(i as int));
                        assert(psv.take(i + 1).last() == psv[i as int]);
                    }
                    let key: String = match &ps[i].0 {
                        Doc::Str(s) => s.clone(),
                        _ => {
                            let e = DecodeError::InvalidType {
                                unexpected: doc_unexpected(&ps[i].0),
                                expected: "a string key",
                            };
                            proof {
                                assert(object_from_pairs(psv.take(i + 1)) == Err::<ObjV, _>(
                                    e.deep_view(),
                                ));
                                lemma_pairs_err_persists(psv, i + 1);
                            }
                            return Err(e);
                        },
                    };
                    if entries_contain_key(&out, key.as_str()) {
                        let e = DecodeError::DuplicateKey { key };
                        proof {
                            assert(object_from_pairs(psv.take(i + 1)) == Err::<ObjV, _>(
                                e.deep_view(),
                            ));
                            lemma_pairs_err_persists(psv, i + 1);
                        }
                        return Err(e);
                    }
                    match Self::from_doc(&ps[i].1) {
                        Err(e) => {
                            proof {
                                assert(object_from_pairs(psv.take(i + 1)) == Err::<ObjV, _>(
                                    e.deep_view(),
                                ));
                                lemma_pairs_err_persists(psv, i + 1);
                            }
                            return Err(e);
                        },
                        Ok(v) => {
                            out.push((key, v));
                            proof {
                                assert(entries_view(out@) =~= object_from_pairs(
                                    psv.take(i + 1),
                                )->Ok_0);
                            }
                        },
                    }
                    i = i + 1;
                }
                proof {
                    assert(psv.take(i as int) =~= psv);
                }
                let o = SaladObject { entries: out };
                proof {
                    assert(obj_view(o) =~= entries_view(out@));
                    assert(any_view(SaladAny::Object(o)) == AnyV::Object(entries_view(out@)));
                }
                Ok(SaladAny::Object(o))
            },
            Doc::Null => Err(
                DecodeError::InvalidType {
                    unexpected: Unexpected::Unit,
                    expected: "a salad primitive, a key-value object, or a list of them",
                },
            ),
        }
    }

    /// Decodes an untyped value as the untyped model: renormalization.
    fn from_any(v: &SaladAny) -> (r: Result<SaladAny, DecodeError>) {
        normalize(v)
    }
}

impl SaladType for SaladObject {
    /// Only a mapping node decodes as an object.
    open spec fn from_doc_spec(d: DocV) -> Result<ObjV, ErrV> {
        object_from_doc(d)
    }

    /// Re-decoding as an object accepts only an object value and
    /// renormalizes its entries.
    open spec fn from_any_spec(v: AnyV) -> Result<ObjV, ErrV> {
        match v {
            AnyV::Object(es) => match norm_entries(es) {
                Ok(o) => Ok(o),
                Err(e) => Err(e),
            },
            _ => Err(
                ErrV::InvalidType {
                    unexpected: unexpected_of_any(v),
                    expected: "key-value map object"@,
                },
            ),
        }
    }

    /// Decodes a document node into a keyed object.
    fn from_doc(doc: &Doc) -> (r: Result<SaladObject, DecodeError>) {
        match doc {
            Doc::Mapping(_) => {
                match <SaladAny as SaladType>::from_doc(doc) {
                    Ok(v) => match v {
                        SaladAny::Object(o) => Ok(o),
                        _ => {
                            // A mapping node always decodes to an object.
                            proof {
                                assert(false);
                            }
                            Err(DecodeError::MissingValue)
                        },
                    },
                    Err(e) => Err(e),
                }
            },
            _ => Err(
                DecodeError::InvalidType {
                    unexpected: doc_unexpected(doc),
                    expected: "a Schema Salad key-value object",
                },
            ),
        }
    }

    /// Decodes an untyped value as a keyed object.
    fn from_any(v: &SaladAny) -> (r: Result<SaladObject, DecodeError>) {
        match v {
            SaladAny::Object(o) => normalize_object(o),
            _ => Err(
                DecodeError::InvalidType {
                    unexpected: any_unexpected(v),
                    expected: "key-value map object",
                },
            ),
        }
    }
}

/// A map-access walker over an object's entries, driving a decode by hand:
/// keys and values are asked for alternately, in entry order, and each value
/// is re-decoded through the bridge. Asking for a value before its key is
/// the internal misuse the missing-value error reports.
pub struct SaladObjectMapAccess<'a> {
    /// The object being walked.
    pub obj: &'a SaladObject,
    /// The position of the next entry to hand out.
    pub idx: usize,
    /// The entry whose value may currently be asked for.
    pub pending: Option<usize>,
}

impl<'a> SaladObjectMapAccess<'a> {
    /// True when the walker's positions lie within the object.
    pub open spec fn wf(&self) -> bool {
        &&& self.idx <= self.obj.deep_view().len()
        &&& match self.pending {
            Some(j) => j < self.obj.deep_view().len(),
            None => true,
        }
    }

    /// Starts a walk over the object's entries.
    pub fn new(obj: &'a SaladObject) -> (r: Self)
        ensures
            r.obj == obj,
            r.idx == 0,
            r.pending is None,
            r.wf(),
    {
        SaladObjectMapAccess { obj, idx: 0, pending: None }
    }

    /// Hands out the next entry's key, or `None` past the last entry; the
    /// entry's value may be asked for afterwards.
    pub fn next_key(&mut self) -> (r: Option<&'a str>)
        requires
            old(self).wf(),
        ensures
            final(self).obj == old(self).obj,
            final(self).wf(),
            old(self).idx < old(self).obj.deep_view().len() ==> {
                &&& r is Some
                &&& r->0@ == old(self).obj.deep_view()[old(self).idx as int].0
                &&& final(self).idx == old(self).idx + 1
                &&& final(self).pending == Some(old(self).idx)
            },
            old(self).idx >= old(self).obj.deep_view().len() ==> {
                &&& r is None
                &&& final(self).idx == old(self).idx
                &&& final(self).pending is None
            },
    {
        if self.idx < self.obj.entries.len() {
            let i = self.idx;
            self.pending = Some(i);
            self.idx = i + 1;
            Some(self.obj.entries[i].0.as_str())
        } else {
            self.pending = None;
            None
        }
    }

    /// Decodes the pending entry's value as a `T` through the bridge; asked
    /// before any key was handed out, it reports the missing-value error.
    pub fn next_value<T: SaladType>(&self) -> (r: Result<T, DecodeError>)
        requires
            self.wf(),
        ensures
            match self.pending {
                Some(j) => res_view(r) == T::from_any_spec(self.obj.deep_view()[j as int].1),
                None => res_view(r) == Err::<<T as DeepView>::V, _>(ErrV::MissingValue),
            },
    {
        match self.pending {
            Some(j) => T::from_any(&self.obj.entries[j].1),
            None => Err(DecodeError::MissingValue),
        }
    }
}

/// A sequence-access walker over a list's elements, driving a decode by
/// hand: each element is re-decoded through the bridge, in original order.
pub struct SaladAnyListSeqAccess<'a> {
    /// The list being walked.
    pub list: &'a Vec<SaladAny>,
    /// The position of the next element to hand out.
    pub idx: usize,
}

impl<'a> SaladAnyListSeqAccess<'a> {
    /// Starts a walk over the list's elements.
    pub fn new(list: &'a Vec<SaladAny>) -> (r: Self)
        ensures
            r.list == list,
            r.idx == 0,
    {
        SaladAnyListSeqAccess { list, idx: 0 }
    }

    /// Decodes the next element as a `T` through the bridge, or `None` past
    /// the last element.
    pub fn next_element<T: SaladType>(&mut self) -> (r: Option<Result<T, DecodeError>>)
        requires
            old(self).idx <= old(self).list@.len(),
        ensures
            final(self).list == old(self).list,
            old(self).idx < old(self).list@.len() ==> {
                &&& final(self).idx == old(self).idx + 1
                &&& r is Some
                &&& res_view(r->0) == T::from_any_spec(
                    old(self).list@[old(self).idx as int].deep_view(),
                )
            },
            old(self).idx >= old(self).list@.len() ==> {
                &&& r is None
                &&& final(self).idx == old(self).idx
            },
    {
        if self.idx < self.list.len() {
            let i = self.idx;
            self.idx = i + 1;
            Some(T::from_any(&self.list[i]))
        } else {
            None
        }
    }
}

impl SaladAny {
    /// Attempts to downcast to type `T` from a borrowed `SaladAny`. Failure
    /// is absorbed, not propagated: the original value is handed back
    /// unchanged so the caller can retry against another target type.
    pub fn downcast<'a, T: SaladType>(&'a self) -> (r: Result<T, &'a SaladAny>)
        ensures
            match r {
                Ok(t) => T::from_any_spec(self.deep_view()) == Ok::<_, ErrV>(t.deep_view()),
                Err(orig) => orig == self && T::from_any_spec(self.deep_view()) is Err,
            },
    {
        match T::from_any(self) {
            Ok(t) => Ok(t),
            Err(_) => Err(self),
        }
    }

    /// Attempts to downcast from a consumed `SaladAny` to type `T`; on
    /// failure the original value is returned unchanged.
    pub fn downcast_into<T: SaladType>(self) -> (r: Result<T, SaladAny>)
        ensures
            match r {
                Ok(t) => T::from_any_spec(self.deep_view()) == Ok::<_, ErrV>(t.deep_view()),
                Err(orig) => orig == self && T::from_any_spec(self.deep_view()) is Err,
            },
    {
        match Self::downcast::<T>(&self) {
            Ok(t) => Ok(t),
            Err(_) => Err(self),
        }
    }
}

impl SaladObject {
    /// Attempts to downcast to type `T` from a borrowed `SaladObject`; the
    /// object decodes as if it were an untyped value wrapping it. On
    /// failure the original object is handed back unchanged.
    pub fn downcast<'a, T: SaladType>(&'a self) -> (r: Result<T, &'a SaladObject>)
        ensures
            match r {
                Ok(t) => T::from_any_spec(AnyV::Object(self.deep_view())) == Ok::<_, ErrV>(
                    t.deep_view(),
                ),
                Err(orig) => orig == self && T::from_any_spec(
                    AnyV::Object(self.deep_view()),
                ) is Err,
            },
    {
        let wrapped = SaladAny::Object(self.clone());
        match T::from_any(&wrapped) {
            Ok(t) => Ok(t),
            Err(_) => Err(self),
        }
    }

    /// Attempts to downcast from a consumed `SaladObject` to type `T`; on
    /// failure the original object is returned unchanged.
    pub fn downcast_into<T: SaladType>(self) -> (r: Result<T, SaladObject>)
        ensures
            match r {
                Ok(t) => T::from_any_spec(AnyV::Object(self.deep_view())) == Ok::<_, ErrV>(
                    t.deep_view(),
                ),
                Err(orig) => orig == self && T::from_any_spec(
                    AnyV::Object(self.deep_view()),
                ) is Err,
            },
    {
        match Self::downcast::<T>(&self) {
            Ok(t) => Ok(t),
            Err(_) => Err(self),
        }
    }
}

} // verus!
