//! Laws of the decoding layer: general properties of the decode and
//! normalizer specifications, stated and proved once for all inputs.

use vstd::prelude::*;

use crate::any::{any_from_doc, anys_from_docs, canon_any, norm_any, norm_entries, norm_list, object_from_pairs, AnyV};
use crate::de::{
    augmented_entry, map_entries_to_list, map_to_list_spec, seed_seq_from_docs,
    single_or_many_spec, IntoDeserializeSeed,
};
use crate::doc::DocV;
use crate::error::ErrV;
use crate::num::long_in_int_range;
use crate::object::{obj_contains_key, obj_wf, ObjV};

verus! {

/// Law: decoding a signed integer literal narrows it to the 32-bit variant
/// exactly when the value lies in the 32-bit signed range, and keeps the
/// 64-bit variant otherwise.
pub proof fn lemma_integer_narrowing(i: i64)
    ensures
        any_from_doc(DocV::Int(i)) == Ok::<AnyV, ErrV>(
            if long_in_int_range(i) {
                AnyV::Int(i as i32)
            } else {
                AnyV::Long(i)
            },
        ),
{
}

/// Law: a two-entry mapping with distinct string keys decodes to an object
/// with both entries, in encounter order.
pub proof fn lemma_object_two_distinct_keys(
    k1: Seq<char>,
    v1: DocV,
    k2: Seq<char>,
    v2: DocV,
    a1: AnyV,
    a2: AnyV,
)
    requires
        k1 != k2,
        any_from_doc(v1) == Ok::<AnyV, ErrV>(a1),
        any_from_doc(v2) == Ok::<AnyV, ErrV>(a2),
    ensures
        any_from_doc(DocV::Mapping(seq![(DocV::Str(k1), v1), (DocV::Str(k2), v2)])) == Ok::<
            AnyV,
            ErrV,
        >(AnyV::Object(seq![(k1, a1), (k2, a2)])),
{
    let ps = seq![(DocV::Str(k1), v1), (DocV::Str(k2), v2)];
    let one = seq![(DocV::Str(k1), v1)];
    assert(ps.drop_last() =~= one);
    assert(one.drop_last() =~= Seq::<(DocV, DocV)>::empty());
    assert(!obj_contains_key(Seq::empty(), k1));
    assert(Seq::<(Seq<char>, AnyV)>::empty().push((k1, a1)) =~= seq![(k1, a1)]);
    assert(object_from_pairs(Seq::<(DocV, DocV)>::empty()) == Ok::<ObjV, ErrV>(Seq::empty()));
    assert(one.last() == (DocV::Str(k1), v1));
    assert(ps.last() == (DocV::Str(k2), v2));
    assert(object_from_pairs(one) == Ok::<ObjV, ErrV>(seq![(k1, a1)]));
    assert(!obj_contains_key(seq![(k1, a1)], k2)) by {
        assert(forall|j: int| 0 <= j < 1 ==> seq![(k1, a1)][j].0 == k1);
    }
    assert(object_from_pairs(ps) == Ok::<ObjV, ErrV>(seq![(k1, a1)].push((k2, a2))));
    assert(seq![(k1, a1)].push((k2, a2)) =~= seq![(k1, a1), (k2, a2)]);
}

/// Law: a repeated key at one nesting level fails the object decode with a
/// duplicate-key error naming that key (the first entry must itself decode,
/// since entries are processed in order).
pub proof fn lemma_object_duplicate_key(k: Seq<char>, v1: DocV, v2: DocV, a1: AnyV)
    requires
        any_from_doc(v1) == Ok::<AnyV, ErrV>(a1),
    ensures
        any_from_doc(DocV::Mapping(seq![(DocV::Str(k), v1), (DocV::Str(k), v2)])) == Err::<
            AnyV,
            ErrV,
        >(ErrV::DuplicateKey { key: k }),
{
    let ps = seq![(DocV::Str(k), v1), (DocV::Str(k), v2)];
    let one = seq![(DocV::Str(k), v1)];
    assert(ps.drop_last() =~= one);
    assert(one.drop_last() =~= Seq::<(DocV, DocV)>::empty());
    assert(!obj_contains_key(Seq::empty(), k));
    assert(Seq::<(Seq<char>, AnyV)>::empty().push((k, a1)) =~= seq![(k, a1)]);
    assert(object_from_pairs(Seq::<(DocV, DocV)>::empty()) == Ok::<ObjV, ErrV>(Seq::empty()));
    assert(one.last() == (DocV::Str(k), v1));
    assert(ps.last() == (DocV::Str(k), v2));
    assert(object_from_pairs(one) == Ok::<ObjV, ErrV>(seq![(k, a1)]));
    assert(obj_contains_key(seq![(k, a1)], k)) by {
        assert(seq![(k, a1)][0].0 == k);
    }
}

/// Law: a decoded object's keys are pairwise distinct.
pub proof fn lemma_decoded_object_wf(ps: Seq<(DocV, DocV)>)
    ensures
        object_from_pairs(ps) is Ok ==> obj_wf(object_from_pairs(ps)->Ok_0),
    decreases ps,
{
    if ps.len() > 0 && object_from_pairs(ps) is Ok {
        lemma_decoded_object_wf(ps.drop_last());
        let prev = object_from_pairs(ps.drop_last())->Ok_0;
        let whole = object_from_pairs(ps)->Ok_0;
        let k = ps.last().0->Str_0;
        assert(!obj_contains_key(prev, k));
        assert(whole == prev.push((k, any_from_doc(ps.last().1)->Ok_0)));
        assert forall|i: int, j: int| 0 <= i < j < whole.len() implies #[trigger] whole[i].0
            != #[trigger] whole[j].0 by {
            if j < prev.len() {
                assert(prev[i].0 != prev[j].0);
            } else {
                assert(whole[j].0 == k);
                assert(whole[i] == prev[i]);
                if prev[i].0 == k {
                    assert(obj_contains_key(prev, k));
                }
            }
        }
    }
}

/// Helper: when every element decodes through `T`'s seed, the sequence
/// decode succeeds with exactly those elements, in order.
pub proof fn lemma_seed_seq_all_ok<T: IntoDeserializeSeed>(
    es: Seq<DocV>,
    ts: Seq<<T as DeepView>::V>,
)
    requires
        es.len() == ts.len(),
        forall|j: int|
            0 <= j < es.len() ==> T::seed_spec(#[trigger] es[j]) == Ok::<_, ErrV>(ts[j]),
    ensures
        seed_seq_from_docs::<T>(es) == Ok::<_, ErrV>(ts),
    decreases es,
{
    if es.len() == 0 {
        assert(ts =~= Seq::<<T as DeepView>::V>::empty());
    } else {
        lemma_seed_seq_all_ok::<T>(es.drop_last(), ts.drop_last());
        assert(T::seed_spec(es.last()) == Ok::<_, ErrV>(ts.last()));
        assert(ts.drop_last().push(ts.last()) =~= ts);
    }
}

/// Law: the scalar-or-list normalizer wraps a bare scalar (or object) as
/// the one-element list of its single decode.
pub proof fn lemma_single_or_many_scalar<T: IntoDeserializeSeed>(d: DocV, t: <T as DeepView>::V)
    requires
        !(d is Sequence),
        !(d is Null),
        T::seed_spec(d) == Ok::<_, ErrV>(t),
    ensures
        single_or_many_spec::<T>(d) == Ok::<_, ErrV>(seq![t]),
{
}

/// Law: the scalar-or-list normalizer decodes a sequence element by
/// element, preserving order; the result's length equals the input's, and
/// an empty sequence yields an empty list.
pub proof fn lemma_single_or_many_list<T: IntoDeserializeSeed>(
    es: Seq<DocV>,
    ts: Seq<<T as DeepView>::V>,
)
    requires
        es.len() == ts.len(),
        forall|j: int|
            0 <= j < es.len() ==> T::seed_spec(#[trigger] es[j]) == Ok::<_, ErrV>(ts[j]),
    ensures
        single_or_many_spec::<T>(DocV::Sequence(es)) == Ok::<_, ErrV>(ts),
{
    lemma_seed_seq_all_ok::<T>(es, ts);
}

/// Helper: when every map entry's synthesized document decodes through
/// `T`'s seed, the map decode succeeds with exactly those elements, in
/// encounter order.
pub proof fn lemma_map_entries_all_ok<T: IntoDeserializeSeed>(
    key: Seq<char>,
    pred: Option<Seq<char>>,
    ps: Seq<(DocV, DocV)>,
    ts: Seq<<T as DeepView>::V>,
)
    requires
        ps.len() == ts.len(),
        forall|j: int|
            0 <= j < ps.len() ==> {
                &&& #[trigger] augmented_entry(key, pred, ps[j].0, ps[j].1) is Some
                &&& T::seed_spec(augmented_entry(key, pred, ps[j].0, ps[j].1)->Some_0) == Ok::<
                    _,
                    ErrV,
                >(ts[j])
            },
    ensures
        map_entries_to_list::<T>(key, pred, ps) == Ok::<_, ErrV>(ts),
    decreases ps,
{
    if ps.len() == 0 {
        assert(ts =~= Seq::<<T as DeepView>::V>::empty());
    } else {
        lemma_map_entries_all_ok::<T>(key, pred, ps.drop_last(), ts.drop_last());
        assert(augmented_entry(key, pred, ps.last().0, ps.last().1) is Some);
        assert(ts.drop_last().push(ts.last()) =~= ts);
    }
}

/// Law: a sequence of objects handed to the map-or-list normalizer decodes
/// unchanged, element by element in order.
pub proof fn lemma_map_to_list_sequence<T: IntoDeserializeSeed>(
    key: Seq<char>,
    pred: Option<Seq<char>>,
    es: Seq<DocV>,
    ts: Seq<<T as DeepView>::V>,
)
    requires
        es.len() == ts.len(),
        forall|j: int|
            0 <= j < es.len() ==> T::seed_spec(#[trigger] es[j]) == Ok::<_, ErrV>(ts[j]),
    ensures
        map_to_list_spec::<T>(key, pred, DocV::Sequence(es)) == Ok::<_, ErrV>(ts),
{
    lemma_seed_seq_all_ok::<T>(es, ts);
}

/// Law: a mapping whose entry values are all themselves mappings decodes,
/// in encounter order, each value with the entry key appended under the
/// configured key field.
pub proof fn lemma_map_to_list_map_shape<T: IntoDeserializeSeed>(
    key: Seq<char>,
    pred: Option<Seq<char>>,
    ps: Seq<(DocV, DocV)>,
    ts: Seq<<T as DeepView>::V>,
)
    requires
        ps.len() == ts.len(),
        forall|j: int| 0 <= j < ps.len() ==> (#[trigger] ps[j].1) is Mapping,
        forall|j: int|
            0 <= j < ps.len() ==> T::seed_spec(
                DocV::Mapping((#[trigger] ps[j].1)->Mapping_0.push((DocV::Str(key), ps[j].0))),
            ) == Ok::<_, ErrV>(ts[j]),
    ensures
        map_to_list_spec::<T>(key, pred, DocV::Mapping(ps)) == Ok::<_, ErrV>(ts),
{
    assert forall|j: int| 0 <= j < ps.len() implies {
        &&& #[trigger] augmented_entry(key, pred, ps[j].0, ps[j].1) is Some
        &&& T::seed_spec(augmented_entry(key, pred, ps[j].0, ps[j].1)->Some_0) == Ok::<_, ErrV>(
            ts[j],
        )
    } by {
        assert(ps[j].1 is Mapping);
    }
    lemma_map_entries_all_ok::<T>(key, pred, ps, ts);
}

/// Law: with a predicate field configured, a mapping whose entry values are
/// scalars decodes, in encounter order, each entry as a fresh two-field
/// object (key field from the entry key, predicate field from the entry
/// value).
pub proof fn lemma_map_to_list_predicate_shape<T: IntoDeserializeSeed>(
    key: Seq<char>,
    p: Seq<char>,
    ps: Seq<(DocV, DocV)>,
    ts: Seq<<T as DeepView>::V>,
)
    requires
        ps.len() == ts.len(),
        forall|j: int| 0 <= j < ps.len() ==> !((#[trigger] ps[j].1) is Mapping),
        forall|j: int|
            0 <= j < ps.len() ==> T::seed_spec(
                DocV::Mapping(
                    seq![
                        (DocV::Str(key), (#[trigger] ps[j]).0),
                        (DocV::Str(p), ps[j].1),
                    ],
                ),
            ) == Ok::<_, ErrV>(ts[j]),
    ensures
        map_to_list_spec::<T>(key, Some(p), DocV::Mapping(ps)) == Ok::<_, ErrV>(ts),
{
    assert forall|j: int| 0 <= j < ps.len() implies {
        &&& #[trigger] augmented_entry(key, Some(p), ps[j].0, ps[j].1) is Some
        &&& T::seed_spec(augmented_entry(key, Some(p), ps[j].0, ps[j].1)->Some_0) == Ok::<
            _,
            ErrV,
        >(ts[j])
    } by {
        assert(!(ps[j].1 is Mapping));
    }
    lemma_map_entries_all_ok::<T>(key, Some(p), ps, ts);
}

/// Law: without a predicate field, a mapping entry whose value is not
/// itself a mapping fails the decode with the error naming the key field
/// (the earlier entries must decode, since entries are processed in order).
pub proof fn lemma_map_to_list_missing_predicate<T: IntoDeserializeSeed>(
    key: Seq<char>,
    ps: Seq<(DocV, DocV)>,
    i: int,
    ts: Seq<<T as DeepView>::V>,
)
    requires
        0 <= i < ps.len(),
        !(ps[i].1 is Mapping),
        forall|j: int| 0 <= j < i ==> (#[trigger] ps[j].1) is Mapping,
        ts.len() == i,
        forall|j: int|
            0 <= j < i ==> T::seed_spec(
                DocV::Mapping((#[trigger] ps[j].1)->Mapping_0.push((DocV::Str(key), ps[j].0))),
            ) == Ok::<_, ErrV>(ts[j]),
    ensures
        map_to_list_spec::<T>(key, None, DocV::Mapping(ps)) == Err::<Seq<<T as DeepView>::V>, _>(
            ErrV::MissingPredicate { key },
        ),
{
    assert forall|j: int| 0 <= j < i implies {
        &&& #[trigger] augmented_entry(key, None, ps.take(i)[j].0, ps.take(i)[j].1) is Some
        &&& T::seed_spec(augmented_entry(key, None, ps.take(i)[j].0, ps.take(i)[j].1)->Some_0)
            == Ok::<_, ErrV>(ts[j])
    } by {
        assert(ps.take(i)[j] == ps[j]);
        assert(ps[j].1 is Mapping);
    }
    assert(ps.take(i).len() == ts.len());
    lemma_map_entries_all_ok::<T>(key, None, ps.take(i), ts);
    assert(ps.take(i + 1).drop_last() =~= ps.take(i));
    assert(ps.take(i + 1).last() == ps[i]);
    assert(augmented_entry(key, None, ps[i].0, ps[i].1) is None);
    assert(map_entries_to_list::<T>(key, None, ps.take(i + 1)) == Err::<
        Seq<<T as DeepView>::V>,
        _,
    >(ErrV::MissingPredicate { key }));
    crate::de::lemma_map_entries_err_persists::<T>(key, None, ps, i + 1);
}

/// Law: decoding only produces canonical values: integers and
/// floating-point scalars occupy their narrowest width, and object keys are
/// pairwise distinct, recursively.
pub proof fn lemma_decode_canonical(d: DocV)
    ensures
        any_from_doc(d) is Ok ==> canon_any(any_from_doc(d)->Ok_0),
    decreases d,
{
    match d {
        DocV::Sequence(es) => {
            lemma_list_canonical(es);
        },
        DocV::Mapping(ps) => {
            lemma_pairs_canonical(ps);
        },
        _ => {},
    }
}

/// Helper: every element of a decoded list is canonical.
proof fn lemma_list_canonical(ds: Seq<DocV>)
    ensures
        anys_from_docs(ds) is Ok ==> {
            let vs = anys_from_docs(ds)->Ok_0;
            &&& vs.len() == ds.len()
            &&& forall|i: int| 0 <= i < vs.len() ==> canon_any(#[trigger] vs[i])
        },
    decreases ds,
{
    if ds.len() > 0 && anys_from_docs(ds) is Ok {
        lemma_list_canonical(ds.drop_last());
        lemma_decode_canonical(ds.last());
        let prev = anys_from_docs(ds.drop_last())->Ok_0;
        let vs = anys_from_docs(ds)->Ok_0;
        assert(vs == prev.push(any_from_doc(ds.last())->Ok_0));
        assert forall|i: int| 0 <= i < vs.len() implies canon_any(#[trigger] vs[i]) by {
            if i < prev.len() {
                assert(vs[i] == prev[i]);
            }
        }
    }
}

/// Helper: every decoded object entry holds a canonical value, and the keys
/// are pairwise distinct.
proof fn lemma_pairs_canonical(ps: Seq<(DocV, DocV)>)
    ensures
        object_from_pairs(ps) is Ok ==> {
            let es = object_from_pairs(ps)->Ok_0;
            &&& es.len() == ps.len()
            &&& obj_wf(es)
            &&& forall|i: int| 0 <= i < es.len() ==> canon_any(#[trigger] es[i].1)
        },
    decreases ps,
{
    lemma_decoded_object_wf(ps);
    if ps.len() > 0 && object_from_pairs(ps) is Ok {
        lemma_pairs_canonical(ps.drop_last());
        lemma_decode_canonical(ps.last().1);
        let prev = object_from_pairs(ps.drop_last())->Ok_0;
        let es = object_from_pairs(ps)->Ok_0;
        assert(es == prev.push((ps.last().0->Str_0, any_from_doc(ps.last().1)->Ok_0)));
        assert forall|i: int| 0 <= i < es.len() implies canon_any(#[trigger] es[i].1) by {
            if i < prev.len() {
                assert(es[i] == prev[i]);
            }
        }
    }
}

/// Law: renormalizing a canonical value hands it back unchanged; in
/// particular, downcasting an untyped value to the untyped model itself is
/// the identity on anything the decoder can produce.
pub proof fn lemma_norm_canonical_identity(v: AnyV)
    requires
        canon_any(v),
    ensures
        norm_any(v) == Ok::<AnyV, ErrV>(v),
    decreases v,
{
    match v {
        AnyV::List(ls) => {
            lemma_norm_list_canonical_identity(ls);
        },
        AnyV::Object(es) => {
            lemma_norm_entries_canonical_identity(es);
        },
        _ => {},
    }
}

/// Helper: renormalizing a list of canonical values is the identity.
proof fn lemma_norm_list_canonical_identity(ls: Seq<AnyV>)
    requires
        forall|i: int| 0 <= i < ls.len() ==> canon_any(#[trigger] ls[i]),
    ensures
        norm_list(ls) == Ok::<Seq<AnyV>, ErrV>(ls),
    decreases ls,
{
    if ls.len() == 0 {
        assert(norm_list(ls) == Ok::<Seq<AnyV>, ErrV>(Seq::empty()));
        assert(ls =~= Seq::<AnyV>::empty());
    } else {
        lemma_norm_list_canonical_identity(ls.drop_last());
        lemma_norm_canonical_identity(ls.last());
        assert(ls.drop_last().push(ls.last()) =~= ls);
    }
}

/// Helper: renormalizing the entries of a well-formed object whose values
/// are canonical is the identity.
proof fn lemma_norm_entries_canonical_identity(es: ObjV)
    requires
        obj_wf(es),
        forall|i: int| 0 <= i < es.len() ==> canon_any(#[trigger] es[i].1),
    ensures
        norm_entries(es) == Ok::<ObjV, ErrV>(es),
    decreases es,
{
    if es.len() == 0 {
        assert(es =~= Seq::<(Seq<char>, AnyV)>::empty());
    } else {
        assert forall|i: int| 0 <= i < es.drop_last().len() implies canon_any(
            #[trigger] es.drop_last()[i].1,
        ) by {
            assert(es.drop_last()[i] == es[i]);
        }
        lemma_norm_entries_canonical_identity(es.drop_last());
        lemma_norm_canonical_identity(es.last().1);
        assert(!obj_contains_key(es.drop_last(), es.last().0)) by {
            if obj_contains_key(es.drop_last(), es.last().0) {
                let i = choose|i: int|
                    0 <= i < es.drop_last().len() && #[trigger] es.drop_last()[i].0 == es.last().0;
                assert(es[i].0 == es[es.len() - 1].0);
            }
        }
        assert(es.drop_last().push(es.last()) =~= es);
    }
}

/// Law: re-reading a freshly decoded value through the bridge as the
/// untyped model hands the same value back: the downcast round-trips.
pub proof fn lemma_downcast_any_round_trip(d: DocV)
    requires
        any_from_doc(d) is Ok,
    ensures
        norm_any(any_from_doc(d)->Ok_0) == Ok::<AnyV, ErrV>(any_from_doc(d)->Ok_0),
{
    lemma_decode_canonical(d);
    lemma_norm_canonical_identity(any_from_doc(d)->Ok_0);
}

/// Law: a list of untyped values decodes from a sequence with one element
/// per input element, in order (the end-to-end shape of a heterogeneous
/// document).
pub proof fn lemma_any_list_decode(es: Seq<DocV>, ts: Seq<AnyV>)
    requires
        es.len() == ts.len(),
        forall|j: int|
            0 <= j < es.len() ==> any_from_doc(#[trigger] es[j]) == Ok::<AnyV, ErrV>(ts[j]),
    ensures
        any_from_doc(DocV::Sequence(es)) == Ok::<AnyV, ErrV>(AnyV::List(ts)),
    decreases es,
{
    if es.len() == 0 {
        assert(ts =~= Seq::<AnyV>::empty());
        assert(anys_from_docs(es) == Ok::<Seq<AnyV>, ErrV>(Seq::empty()));
    } else {
        lemma_any_list_decode(es.drop_last(), ts.drop_last());
        assert(anys_from_docs(es.drop_last()) == Ok::<Seq<AnyV>, ErrV>(ts.drop_last()));
        assert(any_from_doc(es.last()) == Ok::<AnyV, ErrV>(ts.last()));
        assert(ts.drop_last().push(ts.last()) =~= ts);
    }
}

} // verus!
