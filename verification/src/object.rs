//! The keyed object container of the value model.

use vstd::prelude::*;

use crate::any::{any_view, AnyV, SaladAny};
use crate::util::str_eq;

verus! {

/// The mathematical shape of an object: its (key, value) entries, in the
/// order the decoder encountered them.
pub type ObjV = Seq<(Seq<char>, AnyV)>;

/// A mapping from unique string keys to untyped values, representing an
/// untyped decoded object.
///
/// Entries keep the order in which the decoder encountered them, which the
/// format-flexible adapters make observable; constructing an object from a
/// document with a duplicate key at one nesting level fails, so the keys of
/// a decoded object are unique.
#[derive(Debug)]
pub struct SaladObject {
    pub(crate) entries: Vec<(String, SaladAny)>,
}

/// True when the entry keys are pairwise distinct.
pub open spec fn obj_wf(entries: ObjV) -> bool {
    forall|i: int, j: int|
        0 <= i < j < entries.len() ==> #[trigger] entries[i].0 != #[trigger] entries[j].0
}

/// True when some entry has the given key.
pub open spec fn obj_contains_key(entries: ObjV, k: Seq<char>) -> bool {
    exists|i: int| 0 <= i < entries.len() && #[trigger] entries[i].0 == k
}

/// The value of the first entry with the given key, if any.
pub open spec fn obj_lookup(entries: ObjV, k: Seq<char>) -> Option<AnyV>
    decreases entries.len(),
{
    if entries.len() == 0 {
        None
    } else if entries[0].0 == k {
        Some(entries[0].1)
    } else {
        obj_lookup(entries.drop_first(), k)
    }
}

/// A key is found exactly when some entry carries it.
pub proof fn lemma_obj_lookup_contains(entries: ObjV, k: Seq<char>)
    ensures
        obj_lookup(entries, k) is Some <==> obj_contains_key(entries, k),
    decreases entries.len(),
{
    if entries.len() > 0 {
        lemma_obj_lookup_contains(entries.drop_first(), k);
        if entries[0].0 != k {
            assert forall|i: int|
                0 <= i < entries.len() && #[trigger] entries[i].0 == k implies obj_contains_key(
                entries.drop_first(),
                k,
            ) by {
                assert(entries.drop_first()[i - 1].0 == k);
            }
        }
    }
}

/// The mathematical shape of an object value.
pub open(crate) spec fn obj_view(o: SaladObject) -> ObjV
    decreases o,
{
    Seq::new(
        o.entries@.len(),
        |i: int|
            if 0 <= i < o.entries@.len() {
                (o.entries@[i].0@, any_view(o.entries@[i].1))
            } else {
                (Seq::empty(), AnyV::Bool(false))
            },
    )
}

impl DeepView for SaladObject {
    type V = ObjV;

    open spec fn deep_view(&self) -> ObjV {
        obj_view(*self)
    }
}

impl Clone for SaladObject {
    /// Deep copy; the copy has the same mathematical shape as the original.
    #[verifier::loop_isolation(false)]
    fn clone(&self) -> (r: Self)
        ensures
            r.deep_view() == self.deep_view(),
        decreases self,
    {
        let mut out: Vec<(String, SaladAny)> = Vec::new();
        let mut i: usize = 0;
        while i < self.entries.len()
            invariant
                i <= self.entries@.len(),
                out@.len() == i,
                forall|j: int|
                    0 <= j < i ==> out@[j].0@ == self.entries@[j].0@ && out@[j].1.deep_view()
                        == self.entries@[j].1.deep_view(),
            decreases self.entries@.len() - i,
        {
            proof {
                assert(decreases_to!(*self => self.entries));
                assert(decreases_to!(self.entries => self.entries@));
                assert(decreases_to!(self.entries@ => self.entries@[i as int]));
                assert(decreases_to!(self.entries@[i as int] => self.entries@[i as int].1));
            }
            let k = self.entries[i].0.clone();
            let v = self.entries[i].1.clone();
            out.push((k, v));
            i = i + 1;
        }
        let r = SaladObject { entries: out };
        proof {
            assert forall|j: int| 0 <= j < out@.len() implies r.deep_view()[j]
                == self.deep_view()[j] by {}
            assert(r.deep_view() =~= self.deep_view());
        }
        r
    }
}

impl Default for SaladObject {
    /// The empty object.
    fn default() -> (r: Self)
        ensures
            r.deep_view() =~= Seq::<(Seq<char>, AnyV)>::empty(),
    {
        SaladObject { entries: Vec::new() }
    }
}

impl SaladObject {
    /// The empty object.
    pub fn empty() -> (r: Self)
        ensures
            r.deep_view() =~= Seq::<(Seq<char>, AnyV)>::empty(),
    {
        SaladObject { entries: Vec::new() }
    }

    /// The number of entries.
    pub fn len(&self) -> (r: usize)
        ensures
            r == self.deep_view().len(),
    {
        self.entries.len()
    }

    /// True when the object has no entries.
    pub fn is_empty(&self) -> (r: bool)
        ensures
            r == (self.deep_view().len() == 0),
    {
        self.entries.len() == 0
    }

    /// Borrows the entry at the given position, in encounter order.
    pub fn entry_at(&self, i: usize) -> (r: (&String, &SaladAny))
        requires
            i < self.deep_view().len(),
        ensures
            r.0@ == self.deep_view()[i as int].0,
            any_view(*r.1) == self.deep_view()[i as int].1,
    {
        let p = &self.entries[i];
        (&p.0, &p.1)
    }

    /// Retrieves a reference to the first value stored under the key, or
    /// `None` if the key does not occur.
    pub fn get(&self, key: &str) -> (r: Option<&SaladAny>)
        ensures
            match r {
                Some(v) => obj_lookup(self.deep_view(), key@) == Some(any_view(*v)),
                None => obj_lookup(self.deep_view(), key@) is None,
            },
    {
        let ghost dv = self.deep_view();
        proof {
            assert(dv.skip(0) =~= dv);
        }
        let mut i: usize = 0;
        while i < self.entries.len()
            invariant
                i <= self.entries@.len(),
                dv == self.deep_view(),
                forall|j: int| 0 <= j < i ==> dv[j].0 != key@,
                obj_lookup(dv, key@) == obj_lookup(dv.skip(i as int), key@),
            decreases self.entries@.len() - i,
        {
            proof {
                assert(dv.skip(i as int)[0] == dv[i as int]);
            }
            if str_eq(self.entries[i].0.as_str(), key) {
                return Some(&self.entries[i].1);
            }
            proof {
                assert(dv.skip(i as int).drop_first() =~= dv.skip(i + 1));
            }
            i = i + 1;
        }
        proof {
            assert(dv.skip(i as int).len() == 0);
        }
        None
    }
}

} // verus!
