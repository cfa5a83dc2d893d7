//! The canonical untyped value model.
//!
//! [`SaladAny`] holds any non-null decoded value: a scalar, a keyed object,
//! or a list. Integer and floating-point literals are narrowed on
//! construction to the smallest of two widths that represents them (see
//! [`crate::num`]); floating-point payloads are carried as IEEE 754 bit
//! patterns.

use vstd::prelude::*;
use vstd::utf8::{decode_utf8, valid_utf8};

use crate::doc::{clone_bytes, Doc, DocV};
use crate::error::{res_view, DecodeError, ErrV, Unexpected, UnexpectedV};
use crate::num::{
    double_in_float_range, double_to_float_bits, double_to_float_bits_spec, float_to_double_bits,
    float_to_double_bits_spec, is_double_in_float_range, is_long_in_int_range, long_in_int_range,
};
use crate::object::{obj_contains_key, obj_view, ObjV, SaladObject};
use crate::primitive::{SaladDouble, SaladFloat, SaladString};
use crate::util::{str_eq, string_from_utf8};

verus! {

/// The `SaladAny` type validates for any non-null value.
#[derive(Debug)]
pub enum SaladAny {
    /// A binary value.
    Bool(bool),
    /// 32-bit signed integer.
    Int(i32),
    /// 64-bit signed integer.
    Long(i64),
    /// Single precision (32-bit) IEEE 754 floating-point number.
    Float(SaladFloat),
    /// Double precision (64-bit) IEEE 754 floating-point number.
    Double(SaladDouble),
    /// Unicode character sequence.
    String(SaladString),
    /// Unknown object.
    Object(SaladObject),
    /// List of any values.
    List(Vec<SaladAny>),
}

/// The mathematical shape of a [`SaladAny`].
#[verifier::ext_equal]
pub ghost enum AnyV {
    Bool(bool),
    Int(i32),
    Long(i64),
    Float(u32),
    Double(u64),
    Str(Seq<char>),
    Object(ObjV),
    List(Seq<AnyV>),
}

/// The mathematical shape of an untyped value.
pub open spec fn any_view(v: SaladAny) -> AnyV
    decreases v,
{
    match v {
        SaladAny::Bool(b) => AnyV::Bool(b),
        SaladAny::Int(i) => AnyV::Int(i),
        SaladAny::Long(l) => AnyV::Long(l),
        SaladAny::Float(f) => AnyV::Float(f.bits),
        SaladAny::Double(d) => AnyV::Double(d.bits),
        SaladAny::String(s) => AnyV::Str(s.deep_view()),
        SaladAny::Object(o) => AnyV::Object(obj_view(o)),
        SaladAny::List(l) => AnyV::List(
            Seq::new(
                l@.len(),
                |i: int|
                    if 0 <= i < l@.len() {
                        any_view(l@[i])
                    } else {
                        AnyV::Bool(false)
                    },
            ),
        ),
    }
}

impl DeepView for SaladAny {
    type V = AnyV;

    open spec fn deep_view(&self) -> AnyV {
        any_view(*self)
    }
}

impl SaladAny {
    /// Returns true if this value is a boolean.
    pub fn is_bool(&self) -> (r: bool)
        ensures
            r == (self.deep_view() is Bool),
    {
        matches!(self, SaladAny::Bool(_))
    }

    /// Returns true if this value is an integer of either width.
    pub fn is_integer(&self) -> (r: bool)
        ensures
            r == (self.deep_view() is Int || self.deep_view() is Long),
    {
        matches!(self, SaladAny::Int(_) | SaladAny::Long(_))
    }

    /// Returns true if this value is a floating point number of either width.
    pub fn is_float(&self) -> (r: bool)
        ensures
            r == (self.deep_view() is Float || self.deep_view() is Double),
    {
        matches!(self, SaladAny::Float(_) | SaladAny::Double(_))
    }

    /// Returns true if this value is a string.
    pub fn is_string(&self) -> (r: bool)
        ensures
            r == (self.deep_view() is Str),
    {
        matches!(self, SaladAny::String(_))
    }

    /// Returns true if this value is an object.
    pub fn is_object(&self) -> (r: bool)
        ensures
            r == (self.deep_view() is Object),
    {
        matches!(self, SaladAny::Object(_))
    }

    /// Returns true if this value is a list.
    pub fn is_list(&self) -> (r: bool)
        ensures
            r == (self.deep_view() is List),
    {
        matches!(self, SaladAny::List(_))
    }
}

impl Clone for SaladAny {
    /// Deep copy; the copy has the same mathematical shape as the original.
    #[verifier::loop_isolation(false)]
    fn clone(&self) -> (r: Self)
        ensures
            r.deep_view() == self.deep_view(),
        decreases self,
    {
        match self {
            SaladAny::Bool(b) => SaladAny::Bool(*b),
            SaladAny::Int(i) => SaladAny::Int(*i),
            SaladAny::Long(l) => SaladAny::Long(*l),
            SaladAny::Float(f) => SaladAny::Float(*f),
            SaladAny::Double(d) => SaladAny::Double(*d),
            SaladAny::String(s) => SaladAny::String(s.clone()),
            SaladAny::Object(o) => {
                proof {
                    assert(decreases_to!(*self => self->Object_0));
                }
                SaladAny::Object(o.clone())
            },
            SaladAny::List(l) => {
                let mut out: Vec<SaladAny> = Vec::new();
                let mut i: usize = 0;
                while i < l.len()
                    invariant
                        i <= l@.len(),
                        out@.len() == i,
                        forall|j: int| 0 <= j < i ==> out@[j].deep_view() == l@[j].deep_view(),
                    decreases l@.len() - i,
                {
                    proof {
                        assert(decreases_to!(*self => self->List_0));
                        assert(decreases_to!(*l => l@));
                        assert(decreases_to!(l@ => l@[i as int]));
                    }
                    out.push(l[i].clone());
                    i = i + 1;
                }
                let r = SaladAny::List(out);
                proof {
                    assert forall|j: int| 0 <= j < out@.len() implies r.deep_view()->List_0[j]
                        == self.deep_view()->List_0[j] by {}
                    assert(r.deep_view()->List_0 =~= self.deep_view()->List_0);
                    assert(r.deep_view() =~= self.deep_view());
                }
                r
            },
        }
    }
}

impl From<bool> for SaladAny {
    /// Wraps a boolean as an untyped value.
    fn from(value: bool) -> (r: Self) {
        SaladAny::Bool(value)
    }
}

impl vstd::std_specs::convert::FromSpecImpl<bool> for SaladAny {
    open spec fn obeys_from_spec() -> bool {
        true
    }

    open spec fn from_spec(t: bool) -> Self {
        SaladAny::Bool(t)
    }
}

impl TryFrom<SaladAny> for bool {
    type Error = SaladAny;

    /// Unwraps a boolean from an untyped value; any other variant is handed
    /// back unchanged.
    fn try_from(value: SaladAny) -> (r: Result<bool, SaladAny>) {
        match value {
            SaladAny::Bool(x) => Ok(x),
            _ => Err(value),
        }
    }
}

impl vstd::std_specs::convert::TryFromSpecImpl<SaladAny> for bool {
    open spec fn obeys_try_from_spec() -> bool {
        true
    }

    open spec fn try_from_spec(v: SaladAny) -> Result<bool, SaladAny> {
        match v {
            SaladAny::Bool(x) => Ok(x),
            _ => Err(v),
        }
    }
}

impl From<i32> for SaladAny {
    /// Wraps a 32-bit integer as an untyped value.
    fn from(value: i32) -> (r: Self) {
        SaladAny::Int(value)
    }
}

impl vstd::std_specs::convert::FromSpecImpl<i32> for SaladAny {
    open spec fn obeys_from_spec() -> bool {
        true
    }

    open spec fn from_spec(t: i32) -> Self {
        SaladAny::Int(t)
    }
}

impl TryFrom<SaladAny> for i32 {
    type Error = SaladAny;

    /// Unwraps a 32-bit integer from an untyped value; any other variant is handed
    /// back unchanged.
    fn try_from(value: SaladAny) -> (r: Result<i32, SaladAny>) {
        match value {
            SaladAny::Int(x) => Ok(x),
            _ => Err(value),
        }
    }
}

impl vstd::std_specs::convert::TryFromSpecImpl<SaladAny> for i32 {
    open spec fn obeys_try_from_spec() -> bool {
        true
    }

    open spec fn try_from_spec(v: SaladAny) -> Result<i32, SaladAny> {
        match v {
            SaladAny::Int(x) => Ok(x),
            _ => Err(v),
        }
    }
}

impl From<i64> for SaladAny {
    /// Wraps a 64-bit integer as an untyped value.
    fn from(value: i64) -> (r: Self) {
        SaladAny::Long(value)
    }
}

impl vstd::std_specs::convert::FromSpecImpl<i64> for SaladAny {
    open spec fn obeys_from_spec() -> bool {
        true
    }

    open spec fn from_spec(t: i64) -> Self {
        SaladAny::Long(t)
    }
}

impl TryFrom<SaladAny> for i64 {
    type Error = SaladAny;

    /// Unwraps a 64-bit integer from an untyped value; any other variant is handed
    /// back unchanged.
    fn try_from(value: SaladAny) -> (r: Result<i64, SaladAny>) {
        match value {
            SaladAny::Long(x) => Ok(x),
            _ => Err(value),
        }
    }
}

impl vstd::std_specs::convert::TryFromSpecImpl<SaladAny> for i64 {
    open spec fn obeys_try_from_spec() -> bool {
        true
    }

    open spec fn try_from_spec(v: SaladAny) -> Result<i64, SaladAny> {
        match v {
            SaladAny::Long(x) => Ok(x),
            _ => Err(v),
        }
    }
}

impl From<SaladFloat> for SaladAny {
    /// Wraps a single-precision float as an untyped value.
    fn from(value: SaladFloat) -> (r: Self) {
        SaladAny::Float(value)
    }
}

impl vstd::std_specs::convert::FromSpecImpl<SaladFloat> for SaladAny {
    open spec fn obeys_from_spec() -> bool {
        true
    }

    open spec fn from_spec(t: SaladFloat) -> Self {
        SaladAny::Float(t)
    }
}

impl TryFrom<SaladAny> for SaladFloat {
    type Error = SaladAny;

    /// Unwraps a single-precision float from an untyped value; any other variant is handed
    /// back unchanged.
    fn try_from(value: SaladAny) -> (r: Result<SaladFloat, SaladAny>) {
        match value {
            SaladAny::Float(x) => Ok(x),
            _ => Err(value),
        }
    }
}

impl vstd::std_specs::convert::TryFromSpecImpl<SaladAny> for SaladFloat {
    open spec fn obeys_try_from_spec() -> bool {
        true
    }

    open spec fn try_from_spec(v: SaladAny) -> Result<SaladFloat, SaladAny> {
        match v {
            SaladAny::Float(x) => Ok(x),
            _ => Err(v),
        }
    }
}

impl From<SaladDouble> for SaladAny {
    /// Wraps a double-precision float as an untyped value.
    fn from(value: SaladDouble) -> (r: Self) {
        SaladAny::Double(value)
    }
}

impl vstd::std_specs::convert::FromSpecImpl<SaladDouble> for SaladAny {
    open spec fn obeys_from_spec() -> bool {
        true
    }

    open spec fn from_spec(t: SaladDouble) -> Self {
        SaladAny::Double(t)
    }
}

impl TryFrom<SaladAny> for SaladDouble {
    type Error = SaladAny;

    /// Unwraps a double-precision float from an untyped value; any other variant is handed
    /// back unchanged.
    fn try_from(value: SaladAny) -> (r: Result<SaladDouble, SaladAny>) {
        match value {
            SaladAny::Double(x) => Ok(x),
            _ => Err(value),
        }
    }
}

impl vstd::std_specs::convert::TryFromSpecImpl<SaladAny> for SaladDouble {
    open spec fn obeys_try_from_spec() -> bool {
        true
    }

    open spec fn try_from_spec(v: SaladAny) -> Result<SaladDouble, SaladAny> {
        match v {
            SaladAny::Double(x) => Ok(x),
            _ => Err(v),
        }
    }
}

impl From<SaladString> for SaladAny {
    /// Wraps a string as an untyped value.
    fn from(value: SaladString) -> (r: Self) {
        SaladAny::String(value)
    }
}

impl vstd::std_specs::convert::FromSpecImpl<SaladString> for SaladAny {
    open spec fn obeys_from_spec() -> bool {
        true
    }

    open spec fn from_spec(t: SaladString) -> Self {
        SaladAny::String(t)
    }
}

impl TryFrom<SaladAny> for SaladString {
    type Error = SaladAny;

    /// Unwraps a string from an untyped value; any other variant is handed
    /// back unchanged.
    fn try_from(value: SaladAny) -> (r: Result<SaladString, SaladAny>) {
        match value {
            SaladAny::String(x) => Ok(x),
            _ => Err(value),
        }
    }
}

impl vstd::std_specs::convert::TryFromSpecImpl<SaladAny> for SaladString {
    open spec fn obeys_try_from_spec() -> bool {
        true
    }

    open spec fn try_from_spec(v: SaladAny) -> Result<SaladString, SaladAny> {
        match v {
            SaladAny::String(x) => Ok(x),
            _ => Err(v),
        }
    }
}

impl From<SaladObject> for SaladAny {
    /// Wraps an object as an untyped value.
    fn from(value: SaladObject) -> (r: Self) {
        SaladAny::Object(value)
    }
}

impl vstd::std_specs::convert::FromSpecImpl<SaladObject> for SaladAny {
    open spec fn obeys_from_spec() -> bool {
        true
    }

    open spec fn from_spec(t: SaladObject) -> Self {
        SaladAny::Object(t)
    }
}

impl TryFrom<SaladAny> for SaladObject {
    type Error = SaladAny;

    /// Unwraps an object from an untyped value; any other variant is handed
    /// back unchanged.
    fn try_from(value: SaladAny) -> (r: Result<SaladObject, SaladAny>) {
        match value {
            SaladAny::Object(x) => Ok(x),
            _ => Err(value),
        }
    }
}

impl vstd::std_specs::convert::TryFromSpecImpl<SaladAny> for SaladObject {
    open spec fn obeys_try_from_spec() -> bool {
        true
    }

    open spec fn try_from_spec(v: SaladAny) -> Result<SaladObject, SaladAny> {
        match v {
            SaladAny::Object(x) => Ok(x),
            _ => Err(v),
        }
    }
}

/// Classification of a document node for error reporting; a
/// single-precision scalar is reported with its magnitude widened to double
/// precision.
pub open spec fn unexpected_of_doc(d: DocV) -> UnexpectedV {
    match d {
        DocV::Bool(b) => UnexpectedV::Bool(b),
        DocV::Int(i) => UnexpectedV::Signed(i),
        DocV::UInt(u) => UnexpectedV::Unsigned(u),
        DocV::Float(b) => UnexpectedV::Float(float_to_double_bits_spec(b)),
        DocV::Double(b) => UnexpectedV::Float(b),
        DocV::Str(s) => UnexpectedV::Str(s),
        DocV::Bytes(bs) => UnexpectedV::Bytes(bs),
        DocV::Sequence(_) => UnexpectedV::Sequence,
        DocV::Mapping(_) => UnexpectedV::Mapping,
        DocV::Null => UnexpectedV::Unit,
    }
}

/// Executable classification matching [`unexpected_of_doc`].
pub fn doc_unexpected(d: &Doc) -> (u: Unexpected)
    ensures
        u.deep_view() == unexpected_of_doc(d.deep_view()),
{
    match d {
        Doc::Bool(b) => Unexpected::Bool(*b),
        Doc::Int(i) => Unexpected::Signed(*i),
        Doc::UInt(u) => Unexpected::Unsigned(*u),
        Doc::Float(b) => Unexpected::Float(float_to_double_bits(*b)),
        Doc::Double(b) => Unexpected::Float(*b),
        Doc::Str(s) => Unexpected::Str(s.clone()),
        Doc::Bytes(bs) => Unexpected::Bytes(clone_bytes(bs)),
        Doc::Sequence(_) => Unexpected::Sequence,
        Doc::Mapping(_) => Unexpected::Mapping,
        Doc::Null => Unexpected::Unit,
    }
}

/// Classification of an untyped value for error reporting.
pub open spec fn unexpected_of_any(v: AnyV) -> UnexpectedV {
    match v {
        AnyV::Bool(b) => UnexpectedV::Bool(b),
        AnyV::Int(i) => UnexpectedV::Signed(i as i64),
        AnyV::Long(l) => UnexpectedV::Signed(l),
        AnyV::Float(b) => UnexpectedV::Float(float_to_double_bits_spec(b)),
        AnyV::Double(b) => UnexpectedV::Float(b),
        AnyV::Str(s) => UnexpectedV::Str(s),
        AnyV::Object(_) => UnexpectedV::Mapping,
        AnyV::List(_) => UnexpectedV::Sequence,
    }
}

/// Executable classification matching [`unexpected_of_any`].
pub fn any_unexpected(v: &SaladAny) -> (u: Unexpected)
    ensures
        u.deep_view() == unexpected_of_any(v.deep_view()),
{
    match v {
        SaladAny::Bool(b) => Unexpected::Bool(*b),
        SaladAny::Int(i) => Unexpected::Signed(*i as i64),
        SaladAny::Long(l) => Unexpected::Signed(*l),
        SaladAny::Float(f) => Unexpected::Float(float_to_double_bits(f.bits)),
        SaladAny::Double(d) => Unexpected::Float(d.bits),
        SaladAny::String(s) => Unexpected::Str(s.as_str().to_owned()),
        SaladAny::Object(_) => Unexpected::Mapping,
        SaladAny::List(_) => Unexpected::Sequence,
    }
}

/// Decoding of an object key: only a string node is a key.
pub open spec fn key_from_doc(d: DocV) -> Result<Seq<char>, ErrV> {
    match d {
        DocV::Str(s) => Ok(s),
        _ => Err(
            ErrV::InvalidType { unexpected: unexpected_of_doc(d), expected: "a string key"@ },
        ),
    }
}

/// Decoding of any document node into the untyped value model: scalars
/// narrow per the numeric policy, byte buffers must be valid UTF-8,
/// sequences and mappings decode their children in order, and an explicit
/// null is rejected.
pub open spec fn any_from_doc(d: DocV) -> Result<AnyV, ErrV>
    decreases d,
{
    match d {
        DocV::Bool(b) => Ok(AnyV::Bool(b)),
        DocV::Int(i) => Ok(
            if long_in_int_range(i) {
                AnyV::Int(i as i32)
            } else {
                AnyV::Long(i)
            },
        ),
        DocV::UInt(u) => if u <= 0x7FFF_FFFFu64 {
            Ok(AnyV::Int(u as i32))
        } else if u <= 0x7FFF_FFFF_FFFF_FFFFu64 {
            Ok(AnyV::Long(u as i64))
        } else {
            Err(
                ErrV::InvalidValue {
                    unexpected: UnexpectedV::Unsigned(u),
                    expected: "a salad primitive, a key-value object, or a list of them"@,
                },
            )
        },
        DocV::Float(b) => Ok(AnyV::Float(b)),
        DocV::Double(b) => Ok(
            if double_in_float_range(b) {
                AnyV::Float(double_to_float_bits_spec(b))
            } else {
                AnyV::Double(b)
            },
        ),
        DocV::Str(s) => Ok(AnyV::Str(s)),
        DocV::Bytes(bs) => if valid_utf8(bs) {
            Ok(AnyV::Str(decode_utf8(bs)))
        } else {
            Err(
                ErrV::InvalidValue {
                    unexpected: UnexpectedV::Bytes(bs),
                    expected: "a salad primitive, a key-value object, or a list of them"@,
                },
            )
        },
        DocV::Sequence(es) => match anys_from_docs(es) {
            Ok(vs) => Ok(AnyV::List(vs)),
            Err(e) => Err(e),
        },
        DocV::Mapping(ps) => match object_from_pairs(ps) {
            Ok(entries) => Ok(AnyV::Object(entries)),
            Err(e) => Err(e),
        },
        DocV::Null => Err(
            ErrV::InvalidType {
                unexpected: UnexpectedV::Unit,
                expected: "a salad primitive, a key-value object, or a list of them"@,
            },
        ),
    }
}

/// Decoding of a sequence of document nodes, element by element in order;
/// the first failure aborts the decode.
pub open spec fn anys_from_docs(ds: Seq<DocV>) -> Result<Seq<AnyV>, ErrV>
    decreases ds,
{
    if ds.len() == 0 {
        Ok(Seq::empty())
    } else {
        match anys_from_docs(ds.drop_last()) {
            Err(e) => Err(e),
            Ok(vs) => match any_from_doc(ds.last()) {
                Err(e) => Err(e),
                Ok(v) => Ok(vs.push(v)),
            },
        }
    }
}

/// Decoding of mapping pairs into object entries, pair by pair in order:
/// each key must be a string that was not seen before at this level, each
/// value decodes as an untyped value; the first failure aborts the decode.
pub open spec fn object_from_pairs(ps: Seq<(DocV, DocV)>) -> Result<ObjV, ErrV>
    decreases ps,
{
    if ps.len() == 0 {
        Ok(Seq::empty())
    } else {
        match object_from_pairs(ps.drop_last()) {
            Err(e) => Err(e),
            Ok(entries) => match key_from_doc(ps.last().0) {
                Err(e) => Err(e),
                Ok(k) => if obj_contains_key(entries, k) {
                    Err(ErrV::DuplicateKey { key: k })
                } else {
                    match any_from_doc(ps.last().1) {
                        Err(e) => Err(e),
                        Ok(v) => Ok(entries.push((k, v))),
                    }
                },
            },
        }
    }
}

/// Once a prefix of the elements fails to decode, the whole sequence fails
/// with that error.
pub proof fn lemma_anys_err_persists(ds: Seq<DocV>, i: int)
    requires
        0 <= i <= ds.len(),
        anys_from_docs(ds.take(i)) is Err,
    ensures
        anys_from_docs(ds) == anys_from_docs(ds.take(i)),
    decreases ds.len() - i,
{
    if i == ds.len() {
        assert(ds.take(i) =~= ds);
    } else {
        assert(ds.take(i + 1).drop_last() =~= ds.take(i));
        lemma_anys_err_persists(ds, i + 1);
    }
}

/// Once a prefix of the pairs fails to decode, the whole mapping fails with
/// that error.
pub proof fn lemma_pairs_err_persists(ps: Seq<(DocV, DocV)>, i: int)
    requires
        0 <= i <= ps.len(),
        object_from_pairs(ps.take(i)) is Err,
    ensures
        object_from_pairs(ps) == object_from_pairs(ps.take(i)),
    decreases ps.len() - i,
{
    if i == ps.len() {
        assert(ps.take(i) =~= ps);
    } else {
        assert(ps.take(i + 1).drop_last() =~= ps.take(i));
        lemma_pairs_err_persists(ps, i + 1);
    }
}

/// The mathematical shape of a vector of (key, value) entries.
pub open(crate) spec fn entries_view(entries: Seq<(String, SaladAny)>) -> ObjV {
    Seq::new(entries.len(), |i: int| (entries[i].0@, any_view(entries[i].1)))
}

/// Executable check whether some built entry already carries the key.
pub(crate) fn entries_contain_key(entries: &Vec<(String, SaladAny)>, key: &str) -> (r: bool)
    ensures
        r == obj_contains_key(entries_view(entries@), key@),
{
    let mut i: usize = 0;
    while i < entries.len()
        invariant
            i <= entries@.len(),
            forall|j: int| 0 <= j < i ==> entries_view(entries@)[j].0 != key@,
        decreases entries@.len() - i,
    {
        if str_eq(entries[i].0.as_str(), key) {
            proof {
                assert(entries_view(entries@)[i as int].0 == key@);
            }
            return true;
        }
        i = i + 1;
    }
    false
}

/// True when a value satisfies the model's construction invariant: an
/// integer occupies the 64-bit variant only when it does not fit the 32-bit
/// range, a floating-point scalar occupies the double-precision variant
/// only when it lies outside single-precision range, every object's keys
/// are pairwise distinct, and the same holds recursively of all children.
pub open spec fn canon_any(v: AnyV) -> bool
    decreases v,
{
    match v {
        AnyV::Bool(_) => true,
        AnyV::Int(_) => true,
        AnyV::Long(l) => !long_in_int_range(l),
        AnyV::Float(_) => true,
        AnyV::Double(b) => !double_in_float_range(b),
        AnyV::Str(_) => true,
        AnyV::Object(es) => crate::object::obj_wf(es) && forall|i: int|
            0 <= i < es.len() ==> canon_any(#[trigger] es[i].1),
        AnyV::List(ls) => forall|i: int| 0 <= i < ls.len() ==> canon_any(#[trigger] ls[i]),
    }
}

/// Renormalization of an untyped value, as performed when a value is used
/// as a decoding source for the untyped model itself: integer and
/// floating-point payloads are narrowed again, and objects re-run the
/// duplicate-key check while renormalizing their values.
pub open spec fn norm_any(v: AnyV) -> Result<AnyV, ErrV>
    decreases v,
{
    match v {
        AnyV::Bool(b) => Ok(AnyV::Bool(b)),
        AnyV::Int(i) => Ok(AnyV::Int(i)),
        AnyV::Long(l) => Ok(
            if long_in_int_range(l) {
                AnyV::Int(l as i32)
            } else {
                AnyV::Long(l)
            },
        ),
        AnyV::Float(b) => Ok(AnyV::Float(b)),
        AnyV::Double(b) => Ok(
            if double_in_float_range(b) {
                AnyV::Float(double_to_float_bits_spec(b))
            } else {
                AnyV::Double(b)
            },
        ),
        AnyV::Str(s) => Ok(AnyV::Str(s)),
        AnyV::Object(es) => match norm_entries(es) {
            Ok(o) => Ok(AnyV::Object(o)),
            Err(e) => Err(e),
        },
        AnyV::List(ls) => match norm_list(ls) {
            Ok(l) => Ok(AnyV::List(l)),
            Err(e) => Err(e),
        },
    }
}

/// Renormalization of a list of untyped values, element by element in order.
pub open spec fn norm_list(ls: Seq<AnyV>) -> Result<Seq<AnyV>, ErrV>
    decreases ls,
{
    if ls.len() == 0 {
        Ok(Seq::empty())
    } else {
        match norm_list(ls.drop_last()) {
            Err(e) => Err(e),
            Ok(vs) => match norm_any(ls.last()) {
                Err(e) => Err(e),
                Ok(v) => Ok(vs.push(v)),
            },
        }
    }
}

/// Renormalization of object entries, entry by entry in order, re-running
/// the duplicate-key check.
pub open spec fn norm_entries(es: ObjV) -> Result<ObjV, ErrV>
    decreases es,
{
    if es.len() == 0 {
        Ok(Seq::empty())
    } else {
        match norm_entries(es.drop_last()) {
            Err(e) => Err(e),
            Ok(entries) => if obj_contains_key(entries, es.last().0) {
                Err(ErrV::DuplicateKey { key: es.last().0 })
            } else {
                match norm_any(es.last().1) {
                    Err(e) => Err(e),
                    Ok(v) => Ok(entries.push((es.last().0, v))),
                }
            },
        }
    }
}

/// Once a prefix of the elements fails to renormalize, the whole list fails
/// with that error.
pub proof fn lemma_norm_list_err_persists(ls: Seq<AnyV>, i: int)
    requires
        0 <= i <= ls.len(),
        norm_list(ls.take(i)) is Err,
    ensures
        norm_list(ls) == norm_list(ls.take(i)),
    decreases ls.len() - i,
{
    if i == ls.len() {
        assert(ls.take(i) =~= ls);
    } else {
        assert(ls.take(i + 1).drop_last() =~= ls.take(i));
        lemma_norm_list_err_persists(ls, i + 1);
    }
}

/// Once a prefix of the entries fails to renormalize, the whole object
/// fails with that error.
pub proof fn lemma_norm_entries_err_persists(es: ObjV, i: int)
    requires
        0 <= i <= es.len(),
        norm_entries(es.take(i)) is Err,
    ensures
        norm_entries(es) == norm_entries(es.take(i)),
    decreases es.len() - i,
{
    if i == es.len() {
        assert(es.take(i) =~= es);
    } else {
        assert(es.take(i + 1).drop_last() =~= es.take(i));
        lemma_norm_entries_err_persists(es, i + 1);
    }
}

/// Decoding of a document node as a keyed object: only a mapping node is
/// accepted, and its pairs decode as in [`object_from_pairs`].
pub open spec fn object_from_doc(d: DocV) -> Result<ObjV, ErrV> {
    match d {
        DocV::Mapping(ps) => object_from_pairs(ps),
        _ => Err(
            ErrV::InvalidType {
                unexpected: unexpected_of_doc(d),
                expected: "a Schema Salad key-value object"@,
            },
        ),
    }
}

} // verus!
