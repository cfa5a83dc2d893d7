//! Format-flexible decoding adapters and the context-threading capability.
//!
//! [`SingleOrManySeed`] normalizes "one value or a list of values" into a
//! list; [`MapToListSeed`] normalizes the three surface shapes of a
//! list-of-objects field (sequence of objects; map of objects; map of
//! key/predicate pairs) into a list. Both are parameterized over any element
//! type that implements the seeded decoding contract, and thread shared
//! context data ([`SeedData`]) through the recursive decode.

use core::marker::PhantomData;

use vstd::prelude::*;

use crate::any::{doc_unexpected, unexpected_of_any, unexpected_of_doc, AnyV, SaladAny};
use crate::common::{ArrayName, EnumName, PrimitiveType, RecordName};
use crate::doc::{Doc, DocV};
use crate::error::{res_view, DecodeError, ErrV, UnexpectedV};
use crate::object::{ObjV, SaladObject};
use crate::primitive::{SaladDouble, SaladFloat, SaladPrimitive, SaladString};
use crate::SaladType;

verus! {

/// Shared context data threaded through seeded decodes. The core carries no
/// context of its own; the capability exists so nested element types can
/// resolve shared, externally supplied context without global state.
#[derive(Debug, Clone, Copy)]
pub struct SeedData;

/// The context-threading capability: a type that obtains a decode seed
/// carrying shared context data, and decodes a document node through it.
/// Leaf types need no context and defer to their ordinary decode; a list of
/// `T` derives its seed as the scalar-or-list normalizer over `T`'s seed.
pub trait IntoDeserializeSeed: SaladType {
    /// What this type decodes to when its seed drives the decode of a node.
    spec fn seed_spec(d: DocV) -> Result<<Self as DeepView>::V, ErrV>;

    /// Decodes a node through this type's seed.
    fn deserialize_seed(doc: &Doc, data: &SeedData) -> (r: Result<Self, DecodeError>)
        ensures
            res_view(r) == Self::seed_spec(doc.deep_view()),
    ;
}

/// Decoding of a sequence of nodes, each through `T`'s seed, in order; the
/// first failure aborts the decode.
pub open spec fn seed_seq_from_docs<T: IntoDeserializeSeed>(ds: Seq<DocV>) -> Result<
    Seq<<T as DeepView>::V>,
    ErrV,
>
    decreases ds,
{
    if ds.len() == 0 {
        Ok(Seq::empty())
    } else {
        match seed_seq_from_docs::<T>(ds.drop_last()) {
            Err(e) => Err(e),
            Ok(vs) => match T::seed_spec(ds.last()) {
                Err(e) => Err(e),
                Ok(v) => Ok(vs.push(v)),
            },
        }
    }
}

/// Once a prefix of the elements fails to decode, the whole sequence fails
/// with that error.
pub proof fn lemma_seed_seq_err_persists<T: IntoDeserializeSeed>(ds: Seq<DocV>, i: int)
    requires
        0 <= i <= ds.len(),
        seed_seq_from_docs::<T>(ds.take(i)) is Err,
    ensures
        seed_seq_from_docs::<T>(ds) == seed_seq_from_docs::<T>(ds.take(i)),
    decreases ds.len() - i,
{
    if i == ds.len() {
        assert(ds.take(i) =~= ds);
    } else {
        assert(ds.take(i + 1).drop_last() =~= ds.take(i));
        lemma_seed_seq_err_persists::<T>(ds, i + 1);
    }
}

/// Decoding of a sequence of nodes, each as a `T`, in order; the first
/// failure aborts the decode.
pub open spec fn seq_from_docs<T: SaladType>(ds: Seq<DocV>) -> Result<
    Seq<<T as DeepView>::V>,
    ErrV,
>
    decreases ds,
{
    if ds.len() == 0 {
        Ok(Seq::empty())
    } else {
        match seq_from_docs::<T>(ds.drop_last()) {
            Err(e) => Err(e),
            Ok(vs) => match T::from_doc_spec(ds.last()) {
                Err(e) => Err(e),
                Ok(v) => Ok(vs.push(v)),
            },
        }
    }
}

/// Once a prefix of the elements fails to decode, the whole sequence fails
/// with that error.
pub proof fn lemma_seq_from_docs_err_persists<T: SaladType>(ds: Seq<DocV>, i: int)
    requires
        0 <= i <= ds.len(),
        seq_from_docs::<T>(ds.take(i)) is Err,
    ensures
        seq_from_docs::<T>(ds) == seq_from_docs::<T>(ds.take(i)),
    decreases ds.len() - i,
{
    if i == ds.len() {
        assert(ds.take(i) =~= ds);
    } else {
        assert(ds.take(i + 1).drop_last() =~= ds.take(i));
        lemma_seq_from_docs_err_persists::<T>(ds, i + 1);
    }
}

/// Downcasting of a list of untyped values, each as a `T`, in order; the
/// first failure aborts the downcast.
pub open spec fn seq_from_anys<T: SaladType>(vs: Seq<AnyV>) -> Result<
    Seq<<T as DeepView>::V>,
    ErrV,
>
    decreases vs,
{
    if vs.len() == 0 {
        Ok(Seq::empty())
    } else {
        match seq_from_anys::<T>(vs.drop_last()) {
            Err(e) => Err(e),
            Ok(ts) => match T::from_any_spec(vs.last()) {
                Err(e) => Err(e),
                Ok(t) => Ok(ts.push(t)),
            },
        }
    }
}

/// Once a prefix of the elements fails to downcast, the whole list fails
/// with that error.
pub proof fn lemma_seq_from_anys_err_persists<T: SaladType>(vs: Seq<AnyV>, i: int)
    requires
        0 <= i <= vs.len(),
        seq_from_anys::<T>(vs.take(i)) is Err,
    ensures
        seq_from_anys::<T>(vs) == seq_from_anys::<T>(vs.take(i)),
    decreases vs.len() - i,
{
    if i == vs.len() {
        assert(vs.take(i) =~= vs);
    } else {
        assert(vs.take(i + 1).drop_last() =~= vs.take(i));
        lemma_seq_from_anys_err_persists::<T>(vs, i + 1);
    }
}

impl<T: SaladType> SaladType for Vec<T> {
    /// Only a sequence node decodes as a plain list; each element decodes
    /// as a `T`, in order.
    open spec fn from_doc_spec(d: DocV) -> Result<Seq<<T as DeepView>::V>, ErrV> {
        match d {
            DocV::Sequence(es) => seq_from_docs::<T>(es),
            _ => Err(
                ErrV::InvalidType { unexpected: unexpected_of_doc(d), expected: "a sequence"@ },
            ),
        }
    }

    /// Downcasting accepts only a list value; each element downcasts as a
    /// `T`, in order.
    open spec fn from_any_spec(v: AnyV) -> Result<Seq<<T as DeepView>::V>, ErrV> {
        match v {
            AnyV::List(ls) => seq_from_anys::<T>(ls),
            _ => Err(
                ErrV::InvalidType {
                    unexpected: unexpected_of_any(v),
                    expected: "list of primitives/objects"@,
                },
            ),
        }
    }

    #[verifier::loop_isolation(false)]
    fn from_doc(doc: &Doc) -> (r: Result<Vec<T>, DecodeError>) {
        match doc {
            Doc::Sequence(es) => {
                let ghost dsv = doc.deep_view()->Sequence_0;
                let mut out: Vec<T> = Vec::new();
                let mut i: usize = 0;
                proof {
                    assert(dsv.take(0) =~= Seq::<DocV>::empty());
                    assert(out.deep_view() =~= Seq::<<T as DeepView>::V>::empty());
                }
                while i < es.len()
                    invariant
                        i <= es@.len(),
                        seq_from_docs::<T>(dsv.take(i as int)) == Ok::<_, ErrV>(out.deep_view()),
                    decreases es@.len() - i,
                {
                    proof {
                        assert(dsv[i as int] == es@[i as int].deep_view());
                        assert(dsv.take(i + 1).drop_last() =~= dsv.take(i as int));
                        assert(dsv.take(i + 1).last() == dsv[i as int]);
                    }
                    match T::from_doc(&es[i]) {
                        Err(e) => {
                            proof {
                                lemma_seq_from_docs_err_persists::<T>(dsv, i + 1);
                            }
                            return Err(e);
                        },
                        Ok(t) => {
                            out.push(t);
                            proof {
                                assert(out.deep_view() =~= seq_from_docs::<T>(
                                    dsv.take(i + 1),
                                )->Ok_0);
                            }
                        },
                    }
                    i = i + 1;
                }
                proof {
                    assert(dsv.take(i as int) =~= dsv);
                }
                Ok(out)
            },
            _ => Err(
                DecodeError::InvalidType {
                    unexpected: doc_unexpected(doc),
                    expected: "a sequence",
                },
            ),
        }
    }

    #[verifier::loop_isolation(false)]
    fn from_any(v: &SaladAny) -> (r: Result<Vec<T>, DecodeError>) {
        match v {
            SaladAny::List(ls) => {
                let ghost lsv = v.deep_view()->List_0;
                let mut out: Vec<T> = Vec::new();
                let mut i: usize = 0;
                proof {
                    assert(lsv.take(0) =~= Seq::<AnyV>::empty());
                    assert(out.deep_view() =~= Seq::<<T as DeepView>::V>::empty());
                }
                while i < ls.len()
                    invariant
                        i <= ls@.len(),
                        seq_from_anys::<T>(lsv.take(i as int)) == Ok::<_, ErrV>(out.deep_view()),
                    decreases ls@.len() - i,
                {
                    proof {
                        assert(lsv[i as int] == ls@[i as int].deep_view());
                        assert(lsv.take(i + 1).drop_last() =~= lsv.take(i as int));
                        assert(lsv.take(i + 1).last() == lsv[i as int]);
                    }
                    match T::from_any(&ls[i]) {
                        Err(e) => {
                            proof {
                                lemma_seq_from_anys_err_persists::<T>(lsv, i + 1);
                            }
                            return Err(e);
                        },
                        Ok(t) => {
                            out.push(t);
                            proof {
                                assert(out.deep_view() =~= seq_from_anys::<T>(
                                    lsv.take(i + 1),
                                )->Ok_0);
                            }
                        },
                    }
                    i = i + 1;
                }
                proof {
                    assert(lsv.take(i as int) =~= lsv);
                }
                Ok(out)
            },
            _ => Err(
                DecodeError::InvalidType {
                    unexpected: crate::any::any_unexpected(v),
                    expected: "list of primitives/objects",
                },
            ),
        }
    }
}

/// A list helper deserializer for handling both a single value or a list of
/// values of type `T`.
///
/// This is useful where a field accepts either one value or a list of
/// values with the same meaning: any scalar-shaped or map-shaped node is
/// decoded as one `T` and wrapped in a one-element list; a sequence node is
/// decoded element by element, preserving order and length.
pub struct SingleOrManySeed<T> {
    /// The shared context data the seed threads through the decode.
    pub data: SeedData,
    /// Marks the element type the seed decodes.
    pub _phant: PhantomData<T>,
}

/// What the scalar-or-list normalizer decodes to: a sequence node decodes
/// element by element through `T`'s seed; an explicit null is rejected; any
/// other node decodes as a single `T`, wrapped in a one-element list.
pub open spec fn single_or_many_spec<T: IntoDeserializeSeed>(d: DocV) -> Result<
    Seq<<T as DeepView>::V>,
    ErrV,
> {
    match d {
        DocV::Sequence(es) => seed_seq_from_docs::<T>(es),
        DocV::Null => Err(
            ErrV::InvalidType {
                unexpected: UnexpectedV::Unit,
                expected: "one or a list of values"@,
            },
        ),
        _ => match T::seed_spec(d) {
            Ok(t) => Ok(seq![t]),
            Err(e) => Err(e),
        },
    }
}

impl<T: IntoDeserializeSeed> SingleOrManySeed<T> {
    /// Builds the normalizer's seed from the shared context data.
    pub fn new(data: &SeedData) -> (r: Self) {
        SingleOrManySeed { data: *data, _phant: PhantomData }
    }

    /// Decodes one value or a list of values of `T`, always yielding a list.
    #[verifier::loop_isolation(false)]
    pub fn deserialize(self, doc: &Doc) -> (r: Result<Vec<T>, DecodeError>)
        ensures
            res_view(r) == single_or_many_spec::<T>(doc.deep_view()),
    {
        match doc {
            Doc::Sequence(es) => {
                let ghost dsv = doc.deep_view()->Sequence_0;
                let mut out: Vec<T> = Vec::new();
                let mut i: usize = 0;
                proof {
                    assert(dsv.take(0) =~= Seq::<DocV>::empty());
                    assert(out.deep_view() =~= Seq::<<T as DeepView>::V>::empty());
                }
                while i < es.len()
                    invariant
                        i <= es@.len(),
                        seed_seq_from_docs::<T>(dsv.take(i as int)) == Ok::<_, ErrV>(
                            out.deep_view(),
                        ),
                    decreases es@.len() - i,
                {
                    proof {
                        assert(dsv[i as int] == es@[i as int].deep_view());
                        assert(dsv.take(i + 1).drop_last() =~= dsv.take(i as int));
                        assert(dsv.take(i + 1).last() == dsv[i as int]);
                    }
                    match T::deserialize_seed(&es[i], &self.data) {
                        Err(e) => {
                            proof {
                                lemma_seed_seq_err_persists::<T>(dsv, i + 1);
                            }
                            return Err(e);
                        },
                        Ok(t) => {
                            out.push(t);
                            proof {
                                assert(out.deep_view() =~= seed_seq_from_docs::<T>(
                                    dsv.take(i + 1),
                                )->Ok_0);
                            }
                        },
                    }
                    i = i + 1;
                }
                proof {
                    assert(dsv.take(i as int) =~= dsv);
                }
                Ok(out)
            },
            Doc::Null => Err(
                DecodeError::InvalidType {
                    unexpected: crate::error::Unexpected::Unit,
                    expected: "one or a list of values",
                },
            ),
            _ => {
                match T::deserialize_seed(doc, &self.data) {
                    Ok(t) => {
                        let mut out: Vec<T> = Vec::new();
                        out.push(t);
                        proof {
                            assert(out.deep_view() =~= seq![
                                single_or_many_spec::<T>(doc.deep_view())->Ok_0[0],
                            ]);
                        }
                        Ok(out)
                    },
                    Err(e) => Err(e),
                }
            },
        }
    }
}

impl<T: IntoDeserializeSeed> IntoDeserializeSeed for Vec<T> {
    /// A list of `T` decodes through the scalar-or-list normalizer.
    open spec fn seed_spec(d: DocV) -> Result<Seq<<T as DeepView>::V>, ErrV> {
        single_or_many_spec::<T>(d)
    }

    fn deserialize_seed(doc: &Doc, data: &SeedData) -> (r: Result<Vec<T>, DecodeError>) {
        SingleOrManySeed::<T>::new(data).deserialize(doc)
    }
}

/// A list helper deserializer which allows flexible decoding of data
/// represented either as maps or as sequences of objects.
///
/// Three surface shapes decode to one list of `T`, in encounter order:
/// a sequence of objects decodes element by element; a map whose entry
/// value is itself a map decodes that map with the entry key appended
/// under the configured key field; a map entry whose value is a scalar is
/// only valid when a predicate field is configured, and decodes a fresh
/// two-field map (key field, predicate field). A single document may mix
/// the last two shapes across entries.
pub struct MapToListSeed<T> {
    /// The field name the map key is injected under.
    pub key: &'static str,
    /// The field name a scalar entry value is stored under, if configured.
    pub pred: Option<&'static str>,
    /// The shared context data the seed threads through the decode.
    pub data: SeedData,
    /// Marks the element type the seed decodes.
    pub _phant: PhantomData<T>,
}

/// The synthesized document a single map entry decodes through: a map value
/// gains the entry key under the key field; a scalar value becomes a fresh
/// two-field map when a predicate field is configured, and is rejected
/// otherwise.
pub open spec fn augmented_entry(
    key: Seq<char>,
    pred: Option<Seq<char>>,
    k: DocV,
    v: DocV,
) -> Option<DocV> {
    match v {
        DocV::Mapping(vm) => Some(DocV::Mapping(vm.push((DocV::Str(key), k)))),
        _ => match pred {
            Some(p) => Some(DocV::Mapping(seq![(DocV::Str(key), k), (DocV::Str(p), v)])),
            None => None,
        },
    }
}

/// Decoding of map entries into a list, entry by entry in encounter order;
/// each entry decodes through its synthesized document, and an entry that
/// needs a predicate field when none is configured aborts the decode.
pub open spec fn map_entries_to_list<T: IntoDeserializeSeed>(
    key: Seq<char>,
    pred: Option<Seq<char>>,
    ps: Seq<(DocV, DocV)>,
) -> Result<Seq<<T as DeepView>::V>, ErrV>
    decreases ps,
{
    if ps.len() == 0 {
        Ok(Seq::empty())
    } else {
        match map_entries_to_list::<T>(key, pred, ps.drop_last()) {
            Err(e) => Err(e),
            Ok(vs) => match augmented_entry(key, pred, ps.last().0, ps.last().1) {
                Some(doc2) => match T::seed_spec(doc2) {
                    Err(e) => Err(e),
                    Ok(t) => Ok(vs.push(t)),
                },
                None => Err(ErrV::MissingPredicate { key }),
            },
        }
    }
}

/// Once a prefix of the entries fails to decode, the whole map fails with
/// that error.
pub proof fn lemma_map_entries_err_persists<T: IntoDeserializeSeed>(
    key: Seq<char>,
    pred: Option<Seq<char>>,
    ps: Seq<(DocV, DocV)>,
    i: int,
)
    requires
        0 <= i <= ps.len(),
        map_entries_to_list::<T>(key, pred, ps.take(i)) is Err,
    ensures
        map_entries_to_list::<T>(key, pred, ps) == map_entries_to_list::<T>(key, pred, ps.take(i)),
    decreases ps.len() - i,
{
    if i == ps.len() {
        assert(ps.take(i) =~= ps);
    } else {
        assert(ps.take(i + 1).drop_last() =~= ps.take(i));
        lemma_map_entries_err_persists::<T>(key, pred, ps, i + 1);
    }
}

/// What the map-or-list normalizer decodes to: a sequence decodes element
/// by element through `T`'s seed; a map decodes entry by entry through
/// synthesized documents; any other node is rejected.
pub open spec fn map_to_list_spec<T: IntoDeserializeSeed>(
    key: Seq<char>,
    pred: Option<Seq<char>>,
    d: DocV,
) -> Result<Seq<<T as DeepView>::V>, ErrV> {
    match d {
        DocV::Sequence(es) => seed_seq_from_docs::<T>(es),
        DocV::Mapping(ps) => map_entries_to_list::<T>(key, pred, ps),
        _ => Err(
            ErrV::InvalidType {
                unexpected: unexpected_of_doc(d),
                expected: "a map or sequence of objects"@,
            },
        ),
    }
}

impl<T: IntoDeserializeSeed> MapToListSeed<T> {
    /// Creates a map-or-list normalizer with the given key field name and
    /// shared context data, and no predicate field.
    pub fn new(key: &'static str, data: &SeedData) -> (r: Self)
        ensures
            r.key == key,
            r.pred is None,
    {
        MapToListSeed { key, pred: None, data: *data, _phant: PhantomData }
    }

    /// Creates a map-or-list normalizer with the given key field name,
    /// predicate field name, and shared context data.
    pub fn with_predicate(key: &'static str, pred: &'static str, data: &SeedData) -> (r: Self)
        ensures
            r.key == key,
            r.pred == Some(pred),
    {
        MapToListSeed { key, pred: Some(pred), data: *data, _phant: PhantomData }
    }

    /// Decodes a map or a sequence of objects into a list of `T`.
    #[verifier::loop_isolation(false)]
    pub fn deserialize(self, doc: &Doc) -> (r: Result<Vec<T>, DecodeError>)
        ensures
            res_view(r) == map_to_list_spec::<T>(self.key@, self.pred.deep_view(), doc.deep_view()),
    {
        let ghost keyv = self.key@;
        let ghost predv = self.pred.deep_view();
        match doc {
            Doc::Sequence(es) => {
                let ghost dsv = doc.deep_view()->Sequence_0;
                let mut out: Vec<T> = Vec::new();
                let mut i: usize = 0;
                proof {
                    assert(dsv.take(0) =~= Seq::<DocV>::empty());
                    assert(out.deep_view() =~= Seq::<<T as DeepView>::V>::empty());
                }
                while i < es.len()
                    invariant
                        i <= es@.len(),
                        seed_seq_from_docs::<T>(dsv.take(i as int)) == Ok::<_, ErrV>(
                            out.deep_view(),
                        ),
                    decreases es@.len() - i,
                {
                    proof {
                        assert(dsv[i as int] == es@[i as int].deep_view());
                        assert(dsv.take(i + 1).drop_last() =~= dsv.take(i as int));
                        assert(dsv.take(i + 1).last() == dsv[i as int]);
                    }
                    match T::deserialize_seed(&es[i], &self.data) {
                        Err(e) => {
                            proof {
                                lemma_seed_seq_err_persists::<T>(dsv, i + 1);
                            }
                            return Err(e);
                        },
                        Ok(t) => {
                            out.push(t);
                            proof {
                                assert(out.deep_view() =~= seed_seq_from_docs::<T>(
                                    dsv.take(i + 1),
                                )->Ok_0);
                            }
                        },
                    }
                    i = i + 1;
                }
                proof {
                    assert(dsv.take(i as int) =~= dsv);
                }
                Ok(out)
            },
            Doc::Mapping(ps) => {
                let ghost psv = doc.deep_view()->Mapping_0;
                let mut out: Vec<T> = Vec::new();
                let mut i: usize = 0;
                proof {
                    assert(psv.take(0) =~= Seq::<(DocV, DocV)>::empty());
                    assert(out.deep_view() =~= Seq::<<T as DeepView>::V>::empty());
                }
                while i < ps.len()
                    invariant
                        i <= ps@.len(),
                        map_entries_to_list::<T>(keyv, predv, psv.take(i as int)) == Ok::<
                            _,
                            ErrV,
                        >(out.deep_view()),
                    decreases ps@.len() - i,
                {
                    proof {
                        assert(psv[i as int].0 == ps@[i as int].0.deep_view());
                        assert(psv[i as int].1 == ps@[i as int].1.deep_view());
                        assert(psv.take(i + 1).drop_last() =~= psv.take(i as int));
                        assert(psv.take(i + 1).last() == psv[i as int]);
                    }
                    let entry_doc: Doc = match &ps[i].1 {
                        Doc::Mapping(_) => {
                            let vc = ps[i].1.clone();
                            match vc {
                                Doc::Mapping(mut vm) => {
                                    let ghost vmv = psv[i as int].1->Mapping_0;
                                    let ghost vm_old = vm@;
                                    proof {
                                        assert(vc.deep_view()->Mapping_0 == vmv);
                                    }
                                    let injected_key = Doc::Str(self.key.to_owned());
                                    let entry_key = ps[i].0.clone();
                                    vm.push((injected_key, entry_key));
                                    let d2 = Doc::Mapping(vm);
                                    proof {
                                        let spec_d2 = augmented_entry(
                                            keyv,
                                            predv,
                                            psv[i as int].0,
                                            psv[i as int].1,
                                        )->Some_0;
                                        let dv2 = d2.deep_view()->Mapping_0;
                                        let sv2 = spec_d2->Mapping_0;
                                        assert(dv2.len() == sv2.len());
                                        assert forall|j: int| 0 <= j < dv2.len() implies dv2[j]
                                            == sv2[j] by {
                                            if j < vm_old.len() {
                                                assert(vm@[j] == vm_old[j]);
                                                assert(sv2[j] == vmv[j]);
                                                assert(vmv[j] == (
                                                    vm_old[j].0.deep_view(),
                                                    vm_old[j].1.deep_view(),
                                                ));
                                            } else {
                                                assert(vm@[j] == (injected_key, entry_key));
                                                assert(injected_key.deep_view() == DocV::Str(
                                                    keyv,
                                                ));
                                                assert(entry_key.deep_view() == psv[i as int].0);
                                                assert(sv2[j] == (DocV::Str(keyv), psv[
                                                    i as int
                                                ].0));
                                            }
                                        }
                                        assert(dv2 =~= sv2);
                                        assert(d2.deep_view() == spec_d2);
                                    }
                                    d2
                                },
                                _ => {
                                    proof {
                                        assert(false);
                                    }
                                    Doc::Null
                                },
                            }
                        },
                        _ => {
                            match self.pred {
                                Some(p) => {
                                    let mut pairs: Vec<(Doc, Doc)> = Vec::new();
                                    pairs.push((Doc::Str(self.key.to_owned()), ps[i].0.clone()));
                                    pairs.push((Doc::Str(p.to_owned()), ps[i].1.clone()));
                                    let d2 = Doc::Mapping(pairs);
                                    proof {
                                        let spec_d2 = augmented_entry(
                                            keyv,
                                            predv,
                                            psv[i as int].0,
                                            psv[i as int].1,
                                        )->Some_0;
                                        let dv2 = d2.deep_view()->Mapping_0;
                                        let sv2 = spec_d2->Mapping_0;
                                        assert(pairs@.len() == 2);
                                        assert(dv2.len() == sv2.len());
                                        assert(dv2[0] == (
                                            pairs@[0].0.deep_view(),
                                            pairs@[0].1.deep_view(),
                                        ));
                                        assert(dv2[1] == (
                                            pairs@[1].0.deep_view(),
                                            pairs@[1].1.deep_view(),
                                        ));
                                        assert(sv2[0] == (DocV::Str(keyv), psv[i as int].0));
                                        assert(sv2[1] == (
                                            DocV::Str(predv->Some_0),
                                            psv[i as int].1,
                                        ));
                                        assert(dv2 =~= sv2);
                                        assert(d2.deep_view() == spec_d2);
                                    }
                                    d2
                                },
                                None => {
                                    let e = DecodeError::MissingPredicate {
                                        key: self.key.to_owned(),
                                    };
                                    proof {
                                        assert(map_entries_to_list::<T>(
                                            keyv,
                                            predv,
                                            psv.take(i + 1),
                                        ) == Err::<Seq<<T as DeepView>::V>, _>(e.deep_view()));
                                        lemma_map_entries_err_persists::<T>(
                                            keyv,
                                            predv,
                                            psv,
                                            i + 1,
                                        );
                                    }
                                    return Err(e);
                                },
                            }
                        },
                    };
                    match T::deserialize_seed(&entry_doc, &self.data) {
                        Err(e) => {
                            proof {
                                lemma_map_entries_err_persists::<T>(keyv, predv, psv, i + 1);
                            }
                            return Err(e);
                        },
                        Ok(t) => {
                            out.push(t);
                            proof {
                                assert(out.deep_view() =~= map_entries_to_list::<T>(
                                    keyv,
                                    predv,
                                    psv.take(i + 1),
                                )->Ok_0);
                            }
                        },
                    }
                    i = i + 1;
                }
                proof {
                    assert(psv.take(i as int) =~= psv);
                }
                Ok(out)
            },
            _ => Err(
                DecodeError::InvalidType {
                    unexpected: doc_unexpected(doc),
                    expected: "a map or sequence of objects",
                },
            ),
        }
    }
}

impl IntoDeserializeSeed for SaladAny {
    /// No context is needed: the seed defers to the ordinary decode.
    open spec fn seed_spec(d: DocV) -> Result<AnyV, ErrV> {
        <SaladAny as SaladType>::from_doc_spec(d)
    }

    fn deserialize_seed(doc: &Doc, data: &SeedData) -> (r: Result<SaladAny, DecodeError>) {
        <SaladAny as SaladType>::from_doc(doc)
    }
}

impl IntoDeserializeSeed for SaladObject {
    /// No context is needed: the seed defers to the ordinary decode.
    open spec fn seed_spec(d: DocV) -> Result<ObjV, ErrV> {
        <SaladObject as SaladType>::from_doc_spec(d)
    }

    fn deserialize_seed(doc: &Doc, data: &SeedData) -> (r: Result<SaladObject, DecodeError>) {
        <SaladObject as SaladType>::from_doc(doc)
    }
}

impl IntoDeserializeSeed for bool {
    /// No context is needed: the seed defers to the ordinary decode.
    open spec fn seed_spec(d: DocV) -> Result<bool, ErrV> {
        <bool as SaladType>::from_doc_spec(d)
    }

    fn deserialize_seed(doc: &Doc, data: &SeedData) -> (r: Result<bool, DecodeError>) {
        <bool as SaladType>::from_doc(doc)
    }
}

impl IntoDeserializeSeed for i32 {
    /// No context is needed: the seed defers to the ordinary decode.
    open spec fn seed_spec(d: DocV) -> Result<i32, ErrV> {
        <i32 as SaladType>::from_doc_spec(d)
    }

    fn deserialize_seed(doc: &Doc, data: &SeedData) -> (r: Result<i32, DecodeError>) {
        <i32 as SaladType>::from_doc(doc)
    }
}

impl IntoDeserializeSeed for i64 {
    /// No context is needed: the seed defers to the ordinary decode.
    open spec fn seed_spec(d: DocV) -> Result<i64, ErrV> {
        <i64 as SaladType>::from_doc_spec(d)
    }

    fn deserialize_seed(doc: &Doc, data: &SeedData) -> (r: Result<i64, DecodeError>) {
        <i64 as SaladType>::from_doc(doc)
    }
}

impl IntoDeserializeSeed for SaladFloat {
    /// No context is needed: the seed defers to the ordinary decode.
    open spec fn seed_spec(d: DocV) -> Result<u32, ErrV> {
        <SaladFloat as SaladType>::from_doc_spec(d)
    }

    fn deserialize_seed(doc: &Doc, data: &SeedData) -> (r: Result<SaladFloat, DecodeError>) {
        <SaladFloat as SaladType>::from_doc(doc)
    }
}

impl IntoDeserializeSeed for SaladDouble {
    /// No context is needed: the seed defers to the ordinary decode.
    open spec fn seed_spec(d: DocV) -> Result<u64, ErrV> {
        <SaladDouble as SaladType>::from_doc_spec(d)
    }

    fn deserialize_seed(doc: &Doc, data: &SeedData) -> (r: Result<SaladDouble, DecodeError>) {
        <SaladDouble as SaladType>::from_doc(doc)
    }
}

impl IntoDeserializeSeed for SaladString {
    /// No context is needed: the seed defers to the ordinary decode.
    open spec fn seed_spec(d: DocV) -> Result<Seq<char>, ErrV> {
        <SaladString as SaladType>::from_doc_spec(d)
    }

    fn deserialize_seed(doc: &Doc, data: &SeedData) -> (r: Result<SaladString, DecodeError>) {
        <SaladString as SaladType>::from_doc(doc)
    }
}

impl IntoDeserializeSeed for SaladPrimitive {
    /// No context is needed: the seed defers to the ordinary decode.
    open spec fn seed_spec(d: DocV) -> Result<crate::primitive::PrimV, ErrV> {
        <SaladPrimitive as SaladType>::from_doc_spec(d)
    }

    fn deserialize_seed(doc: &Doc, data: &SeedData) -> (r: Result<SaladPrimitive, DecodeError>) {
        <SaladPrimitive as SaladType>::from_doc(doc)
    }
}

impl IntoDeserializeSeed for PrimitiveType {
    /// No context is needed: the seed defers to the ordinary decode.
    open spec fn seed_spec(d: DocV) -> Result<PrimitiveType, ErrV> {
        <PrimitiveType as SaladType>::from_doc_spec(d)
    }

    fn deserialize_seed(doc: &Doc, data: &SeedData) -> (r: Result<PrimitiveType, DecodeError>) {
        <PrimitiveType as SaladType>::from_doc(doc)
    }
}

impl IntoDeserializeSeed for ArrayName {
    /// No context is needed: the seed defers to the ordinary decode.
    open spec fn seed_spec(d: DocV) -> Result<ArrayName, ErrV> {
        <ArrayName as SaladType>::from_doc_spec(d)
    }

    fn deserialize_seed(doc: &Doc, data: &SeedData) -> (r: Result<ArrayName, DecodeError>) {
        <ArrayName as SaladType>::from_doc(doc)
    }
}

impl IntoDeserializeSeed for EnumName {
    /// No context is needed: the seed defers to the ordinary decode.
    open spec fn seed_spec(d: DocV) -> Result<EnumName, ErrV> {
        <EnumName as SaladType>::from_doc_spec(d)
    }

    fn deserialize_seed(doc: &Doc, data: &SeedData) -> (r: Result<EnumName, DecodeError>) {
        <EnumName as SaladType>::from_doc(doc)
    }
}

impl IntoDeserializeSeed for RecordName {
    /// No context is needed: the seed defers to the ordinary decode.
    open spec fn seed_spec(d: DocV) -> Result<RecordName, ErrV> {
        <RecordName as SaladType>::from_doc_spec(d)
    }

    fn deserialize_seed(doc: &Doc, data: &SeedData) -> (r: Result<RecordName, DecodeError>) {
        <RecordName as SaladType>::from_doc(doc)
    }
}

} // verus!
