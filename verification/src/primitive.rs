//! The primitive scalar types of the value model.
//!
//! Floating-point scalars are carried as their IEEE 754 bit patterns (see
//! [`crate::num`]); formatting or arithmetic on them is the caller's
//! business, outside this crate.

use vstd::prelude::*;
use vstd::utf8::{decode_utf8, valid_utf8};

use crate::any::{unexpected_of_any, unexpected_of_doc, AnyV, SaladAny};
use crate::doc::{clone_bytes, Doc, DocV};
use crate::error::{DecodeError, ErrV, Unexpected, UnexpectedV};
use crate::num::{
    double_in_float_range, double_to_float_bits, double_to_float_bits_spec, float_to_double_bits,
    float_to_double_bits_spec, is_double_in_float_range, is_long_in_int_range, long_in_int_range,
};
use crate::util::string_from_utf8;
use crate::SaladType;

verus! {

/// A binary value.
pub type SaladBool = bool;

/// 32-bit signed integer.
pub type SaladInt = i32;

/// 64-bit signed integer.
pub type SaladLong = i64;

/// Single precision (32-bit) IEEE 754 floating-point number, carried as its
/// bit pattern. Equality is bitwise.
#[derive(Debug, Clone, Copy, PartialEq, Eq, Structural)]
pub struct SaladFloat {
    /// The IEEE 754 single-precision bit pattern.
    pub bits: u32,
}

impl DeepView for SaladFloat {
    type V = u32;

    open spec fn deep_view(&self) -> u32 {
        self.bits
    }
}

/// Double precision (64-bit) IEEE 754 floating-point number, carried as its
/// bit pattern. Equality is bitwise.
#[derive(Debug, Clone, Copy, PartialEq, Eq, Structural)]
pub struct SaladDouble {
    /// The IEEE 754 double-precision bit pattern.
    pub bits: u64,
}

impl DeepView for SaladDouble {
    type V = u64;

    open spec fn deep_view(&self) -> u64 {
        self.bits
    }
}

/// Unicode character sequence.
#[derive(Debug)]
pub struct SaladString(pub(crate) String);

impl SaladString {
    /// Builds a salad string holding the given characters.
    pub fn new(s: &str) -> (r: Self)
        ensures
            r.deep_view() == s@,
    {
        SaladString(s.to_owned())
    }

    /// Wraps an owned string.
    pub fn from_string(s: String) -> (r: Self)
        ensures
            r.deep_view() == s@,
    {
        SaladString(s)
    }

    /// Borrows the characters.
    pub fn as_str(&self) -> (r: &str)
        ensures
            r@ == self.deep_view(),
    {
        self.0.as_str()
    }

    /// The length of the string in bytes of its UTF-8 encoding.
    pub fn len(&self) -> (r: usize)
        ensures
            r == vstd::utf8::encode_utf8(self.deep_view()).len() as usize,
    {
        self.0.as_str().len()
    }

    /// True when the string holds no characters.
    pub fn is_empty(&self) -> (r: bool)
        ensures
            r == (self.deep_view().len() == 0),
    {
        self.0.as_str().is_empty()
    }
}

impl DeepView for SaladString {
    type V = Seq<char>;

    open(crate) spec fn deep_view(&self) -> Seq<char> {
        self.0@
    }
}

impl Clone for SaladString {
    /// Copy; the copy holds the same characters.
    fn clone(&self) -> (r: Self)
        ensures
            r.deep_view() == self.deep_view(),
    {
        SaladString(self.0.clone())
    }
}

impl From<String> for SaladString {
    /// Wraps an owned string.
    fn from(value: String) -> (r: Self) {
        SaladString(value)
    }
}

impl vstd::std_specs::convert::FromSpecImpl<String> for SaladString {
    open spec fn obeys_from_spec() -> bool {
        true
    }

    open(crate) spec fn from_spec(t: String) -> Self {
        SaladString(t)
    }
}

impl Default for SaladString {
    /// The empty string.
    fn default() -> (r: Self)
        ensures
            r.deep_view().len() == 0,
    {
        SaladString(String::new())
    }
}

impl PartialEq for SaladString {
    /// Two salad strings are equal when they hold the same characters.
    fn eq(&self, other: &Self) -> (r: bool) {
        crate::util::str_eq(self.0.as_str(), other.0.as_str())
    }
}

impl Eq for SaladString {}

impl vstd::std_specs::cmp::PartialEqSpecImpl for SaladString {
    open spec fn obeys_eq_spec() -> bool {
        true
    }

    open(crate) spec fn eq_spec(&self, other: &Self) -> bool {
        self.0@ == other.0@
    }
}

impl SaladType for SaladBool {
    /// Only a boolean node decodes as a boolean.
    open spec fn from_doc_spec(d: DocV) -> Result<bool, ErrV> {
        match d {
            DocV::Bool(b) => Ok(b),
            _ => Err(
                ErrV::InvalidType { unexpected: unexpected_of_doc(d), expected: "a boolean"@ },
            ),
        }
    }

    /// An untyped boolean downcasts as itself; an integer of either width
    /// coerces, but only from the literals 0 and 1.
    open spec fn from_any_spec(v: AnyV) -> Result<bool, ErrV> {
        match v {
            AnyV::Bool(b) => Ok(b),
            AnyV::Int(0) => Ok(false),
            AnyV::Int(1) => Ok(true),
            AnyV::Long(0) => Ok(false),
            AnyV::Long(1) => Ok(true),
            _ => Err(ErrV::InvalidType { unexpected: unexpected_of_any(v), expected: "boolean"@ }),
        }
    }

    fn from_doc(doc: &Doc) -> (r: Result<bool, DecodeError>) {
        match doc {
            Doc::Bool(b) => Ok(*b),
            _ => Err(
                DecodeError::InvalidType {
                    unexpected: crate::any::doc_unexpected(doc),
                    expected: "a boolean",
                },
            ),
        }
    }

    fn from_any(v: &SaladAny) -> (r: Result<bool, DecodeError>) {
        match v {
            SaladAny::Bool(b) => Ok(*b),
            SaladAny::Int(i) if *i == 0 => Ok(false),
            SaladAny::Int(i) if *i == 1 => Ok(true),
            SaladAny::Long(l) if *l == 0 => Ok(false),
            SaladAny::Long(l) if *l == 1 => Ok(true),
            _ => Err(
                DecodeError::InvalidType {
                    unexpected: crate::any::any_unexpected(v),
                    expected: "boolean",
                },
            ),
        }
    }
}

impl SaladType for SaladInt {
    /// An integer node decodes when its magnitude fits the 32-bit signed
    /// range; out-of-range magnitudes are invalid values.
    open spec fn from_doc_spec(d: DocV) -> Result<i32, ErrV> {
        match d {
            DocV::Int(i) => if long_in_int_range(i) {
                Ok(i as i32)
            } else {
                Err(
                    ErrV::InvalidValue {
                        unexpected: UnexpectedV::Signed(i),
                        expected: "a 32-bit signed integer"@,
                    },
                )
            },
            DocV::UInt(u) => if u <= 0x7FFF_FFFFu64 {
                Ok(u as i32)
            } else {
                Err(
                    ErrV::InvalidValue {
                        unexpected: UnexpectedV::Unsigned(u),
                        expected: "a 32-bit signed integer"@,
                    },
                )
            },
            _ => Err(
                ErrV::InvalidType {
                    unexpected: unexpected_of_doc(d),
                    expected: "a 32-bit signed integer"@,
                },
            ),
        }
    }

    /// Downcasting accepts the narrow width directly and the wide width
    /// exactly when its magnitude fits.
    open spec fn from_any_spec(v: AnyV) -> Result<i32, ErrV> {
        match v {
            AnyV::Int(i) => Ok(i),
            AnyV::Long(l) if long_in_int_range(l) => Ok(l as i32),
            _ => Err(
                ErrV::InvalidType { unexpected: unexpected_of_any(v), expected: "signed integer"@ },
            ),
        }
    }

    fn from_doc(doc: &Doc) -> (r: Result<i32, DecodeError>) {
        match doc {
            Doc::Int(i) => {
                if is_long_in_int_range(*i) {
                    Ok(*i as i32)
                } else {
                    Err(
                        DecodeError::InvalidValue {
                            unexpected: Unexpected::Signed(*i),
                            expected: "a 32-bit signed integer",
                        },
                    )
                }
            },
            Doc::UInt(u) => {
                if *u <= 0x7FFF_FFFF {
                    Ok(*u as i32)
                } else {
                    Err(
                        DecodeError::InvalidValue {
                            unexpected: Unexpected::Unsigned(*u),
                            expected: "a 32-bit signed integer",
                        },
                    )
                }
            },
            _ => Err(
                DecodeError::InvalidType {
                    unexpected: crate::any::doc_unexpected(doc),
                    expected: "a 32-bit signed integer",
                },
            ),
        }
    }

    fn from_any(v: &SaladAny) -> (r: Result<i32, DecodeError>) {
        match v {
            SaladAny::Int(i) => Ok(*i),
            SaladAny::Long(l) if is_long_in_int_range(*l) => Ok(*l as i32),
            _ => Err(
                DecodeError::InvalidType {
                    unexpected: crate::any::any_unexpected(v),
                    expected: "signed integer",
                },
            ),
        }
    }
}

impl SaladType for SaladLong {
    /// Any signed integer node decodes; an unsigned node decodes when its
    /// magnitude fits the 64-bit signed range.
    open spec fn from_doc_spec(d: DocV) -> Result<i64, ErrV> {
        match d {
            DocV::Int(i) => Ok(i),
            DocV::UInt(u) => if u <= 0x7FFF_FFFF_FFFF_FFFFu64 {
                Ok(u as i64)
            } else {
                Err(
                    ErrV::InvalidValue {
                        unexpected: UnexpectedV::Unsigned(u),
                        expected: "a 64-bit signed integer"@,
                    },
                )
            },
            _ => Err(
                ErrV::InvalidType {
                    unexpected: unexpected_of_doc(d),
                    expected: "a 64-bit signed integer"@,
                },
            ),
        }
    }

    /// Downcasting accepts both integer widths; the narrow one always fits.
    open spec fn from_any_spec(v: AnyV) -> Result<i64, ErrV> {
        match v {
            AnyV::Long(l) => Ok(l),
            AnyV::Int(i) => Ok(i as i64),
            _ => Err(
                ErrV::InvalidType {
                    unexpected: unexpected_of_any(v),
                    expected: "signed long integer"@,
                },
            ),
        }
    }

    fn from_doc(doc: &Doc) -> (r: Result<i64, DecodeError>) {
        match doc {
            Doc::Int(i) => Ok(*i),
            Doc::UInt(u) => {
                if *u <= 0x7FFF_FFFF_FFFF_FFFF {
                    Ok(*u as i64)
                } else {
                    Err(
                        DecodeError::InvalidValue {
                            unexpected: Unexpected::Unsigned(*u),
                            expected: "a 64-bit signed integer",
                        },
                    )
                }
            },
            _ => Err(
                DecodeError::InvalidType {
                    unexpected: crate::any::doc_unexpected(doc),
                    expected: "a 64-bit signed integer",
                },
            ),
        }
    }

    fn from_any(v: &SaladAny) -> (r: Result<i64, DecodeError>) {
        match v {
            SaladAny::Long(l) => Ok(*l),
            SaladAny::Int(i) => Ok(*i as i64),
            _ => Err(
                DecodeError::InvalidType {
                    unexpected: crate::any::any_unexpected(v),
                    expected: "signed long integer",
                },
            ),
        }
    }
}

impl SaladType for SaladFloat {
    /// A single-precision node decodes directly; a double-precision node
    /// decodes when its magnitude lies in single-precision range, rounding
    /// to the nearest representable value.
    open spec fn from_doc_spec(d: DocV) -> Result<u32, ErrV> {
        match d {
            DocV::Float(b) => Ok(b),
            DocV::Double(b) => if double_in_float_range(b) {
                Ok(double_to_float_bits_spec(b))
            } else {
                Err(
                    ErrV::InvalidValue {
                        unexpected: UnexpectedV::Float(b),
                        expected: "a single-precision float"@,
                    },
                )
            },
            _ => Err(
                ErrV::InvalidType {
                    unexpected: unexpected_of_doc(d),
                    expected: "a single-precision float"@,
                },
            ),
        }
    }

    /// Downcasting accepts the narrow width directly and the wide width
    /// exactly when its magnitude lies in single-precision range.
    open spec fn from_any_spec(v: AnyV) -> Result<u32, ErrV> {
        match v {
            AnyV::Float(b) => Ok(b),
            AnyV::Double(b) if double_in_float_range(b) => Ok(double_to_float_bits_spec(b)),
            _ => Err(ErrV::InvalidType { unexpected: unexpected_of_any(v), expected: "float"@ }),
        }
    }

    fn from_doc(doc: &Doc) -> (r: Result<SaladFloat, DecodeError>) {
        match doc {
            Doc::Float(b) => Ok(SaladFloat { bits: *b }),
            Doc::Double(b) => {
                if is_double_in_float_range(*b) {
                    Ok(SaladFloat { bits: double_to_float_bits(*b) })
                } else {
                    Err(
                        DecodeError::InvalidValue {
                            unexpected: Unexpected::Float(*b),
                            expected: "a single-precision float",
                        },
                    )
                }
            },
            _ => Err(
                DecodeError::InvalidType {
                    unexpected: crate::any::doc_unexpected(doc),
                    expected: "a single-precision float",
                },
            ),
        }
    }

    fn from_any(v: &SaladAny) -> (r: Result<SaladFloat, DecodeError>) {
        match v {
            SaladAny::Float(f) => Ok(*f),
            SaladAny::Double(d) if is_double_in_float_range(d.bits) => Ok(
                SaladFloat { bits: double_to_float_bits(d.bits) },
            ),
            _ => Err(
                DecodeError::InvalidType {
                    unexpected: crate::any::any_unexpected(v),
                    expected: "float",
                },
            ),
        }
    }
}

impl SaladType for SaladDouble {
    /// A double-precision node decodes directly; a single-precision node
    /// widens exactly.
    open spec fn from_doc_spec(d: DocV) -> Result<u64, ErrV> {
        match d {
            DocV::Double(b) => Ok(b),
            DocV::Float(b) => Ok(float_to_double_bits_spec(b)),
            _ => Err(
                ErrV::InvalidType {
                    unexpected: unexpected_of_doc(d),
                    expected: "a double-precision float"@,
                },
            ),
        }
    }

    /// Downcasting accepts both widths; the narrow one widens exactly.
    open spec fn from_any_spec(v: AnyV) -> Result<u64, ErrV> {
        match v {
            AnyV::Double(b) => Ok(b),
            AnyV::Float(b) => Ok(float_to_double_bits_spec(b)),
            _ => Err(ErrV::InvalidType { unexpected: unexpected_of_any(v), expected: "double"@ }),
        }
    }

    fn from_doc(doc: &Doc) -> (r: Result<SaladDouble, DecodeError>) {
        match doc {
            Doc::Double(b) => Ok(SaladDouble { bits: *b }),
            Doc::Float(b) => Ok(SaladDouble { bits: float_to_double_bits(*b) }),
            _ => Err(
                DecodeError::InvalidType {
                    unexpected: crate::any::doc_unexpected(doc),
                    expected: "a double-precision float",
                },
            ),
        }
    }

    fn from_any(v: &SaladAny) -> (r: Result<SaladDouble, DecodeError>) {
        match v {
            SaladAny::Double(d) => Ok(*d),
            SaladAny::Float(f) => Ok(SaladDouble { bits: float_to_double_bits(f.bits) }),
            _ => Err(
                DecodeError::InvalidType {
                    unexpected: crate::any::any_unexpected(v),
                    expected: "double",
                },
            ),
        }
    }
}

impl SaladType for SaladString {
    /// Only a string node decodes as a string.
    open spec fn from_doc_spec(d: DocV) -> Result<Seq<char>, ErrV> {
        match d {
            DocV::Str(s) => Ok(s),
            _ => Err(ErrV::InvalidType { unexpected: unexpected_of_doc(d), expected: "a string"@ }),
        }
    }

    /// Downcasting accepts only the string variant.
    open spec fn from_any_spec(v: AnyV) -> Result<Seq<char>, ErrV> {
        match v {
            AnyV::Str(s) => Ok(s),
            _ => Err(
                ErrV::InvalidType { unexpected: unexpected_of_any(v), expected: "UTF-8 string"@ },
            ),
        }
    }

    fn from_doc(doc: &Doc) -> (r: Result<SaladString, DecodeError>) {
        match doc {
            Doc::Str(s) => Ok(SaladString::new(s.as_str())),
            _ => Err(
                DecodeError::InvalidType {
                    unexpected: crate::any::doc_unexpected(doc),
                    expected: "a string",
                },
            ),
        }
    }

    fn from_any(v: &SaladAny) -> (r: Result<SaladString, DecodeError>) {
        match v {
            SaladAny::String(s) => Ok(s.clone()),
            _ => Err(
                DecodeError::InvalidType {
                    unexpected: crate::any::any_unexpected(v),
                    expected: "UTF-8 string",
                },
            ),
        }
    }
}

/// Schema Salad primitives, except `null`.
#[derive(Debug)]
pub enum SaladPrimitive {
    /// A binary value.
    Bool(SaladBool),
    /// 32-bit signed integer.
    Int(SaladInt),
    /// 64-bit signed integer.
    Long(SaladLong),
    /// Single precision (32-bit) IEEE 754 floating-point number.
    Float(SaladFloat),
    /// Double precision (64-bit) IEEE 754 floating-point number.
    Double(SaladDouble),
    /// Unicode character sequence.
    String(SaladString),
}

/// The mathematical shape of a [`SaladPrimitive`].
#[verifier::ext_equal]
pub ghost enum PrimV {
    Bool(bool),
    Int(i32),
    Long(i64),
    Float(u32),
    Double(u64),
    Str(Seq<char>),
}

impl DeepView for SaladPrimitive {
    type V = PrimV;

    open spec fn deep_view(&self) -> PrimV {
        match self {
            SaladPrimitive::Bool(b) => PrimV::Bool(*b),
            SaladPrimitive::Int(i) => PrimV::Int(*i),
            SaladPrimitive::Long(l) => PrimV::Long(*l),
            SaladPrimitive::Float(f) => PrimV::Float(f.bits),
            SaladPrimitive::Double(d) => PrimV::Double(d.bits),
            SaladPrimitive::String(s) => PrimV::Str(s.deep_view()),
        }
    }
}

impl Clone for SaladPrimitive {
    /// Copy; the copy has the same mathematical shape as the original.
    fn clone(&self) -> (r: Self)
        ensures
            r.deep_view() == self.deep_view(),
    {
        match self {
            SaladPrimitive::Bool(b) => SaladPrimitive::Bool(*b),
            SaladPrimitive::Int(i) => SaladPrimitive::Int(*i),
            SaladPrimitive::Long(l) => SaladPrimitive::Long(*l),
            SaladPrimitive::Float(f) => SaladPrimitive::Float(*f),
            SaladPrimitive::Double(d) => SaladPrimitive::Double(*d),
            SaladPrimitive::String(s) => SaladPrimitive::String(s.clone()),
        }
    }
}

impl From<bool> for SaladPrimitive {
    /// Wraps a boolean as a primitive value.
    fn from(value: bool) -> (r: Self) {
        SaladPrimitive::Bool(value)
    }
}

impl vstd::std_specs::convert::FromSpecImpl<bool> for SaladPrimitive {
    open spec fn obeys_from_spec() -> bool {
        true
    }

    open spec fn from_spec(t: bool) -> Self {
        SaladPrimitive::Bool(t)
    }
}

impl TryFrom<SaladPrimitive> for bool {
    type Error = SaladPrimitive;

    /// Unwraps a boolean from a primitive value; any other variant is handed
    /// back unchanged.
    fn try_from(value: SaladPrimitive) -> (r: Result<bool, SaladPrimitive>) {
        match value {
            SaladPrimitive::Bool(x) => Ok(x),
            _ => Err(value),
        }
    }
}

impl vstd::std_specs::convert::TryFromSpecImpl<SaladPrimitive> for bool {
    open spec fn obeys_try_from_spec() -> bool {
        true
    }

    open spec fn try_from_spec(v: SaladPrimitive) -> Result<bool, SaladPrimitive> {
        match v {
            SaladPrimitive::Bool(x) => Ok(x),
            _ => Err(v),
        }
    }
}

impl From<i32> for SaladPrimitive {
    /// Wraps a 32-bit integer as a primitive value.
    fn from(value: i32) -> (r: Self) {
        SaladPrimitive::Int(value)
    }
}

impl vstd::std_specs::convert::FromSpecImpl<i32> for SaladPrimitive {
    open spec fn obeys_from_spec() -> bool {
        true
    }

    open spec fn from_spec(t: i32) -> Self {
        SaladPrimitive::Int(t)
    }
}

impl TryFrom<SaladPrimitive> for i32 {
    type Error = SaladPrimitive;

    /// Unwraps a 32-bit integer from a primitive value; any other variant is handed
    /// back unchanged.
    fn try_from(value: SaladPrimitive) -> (r: Result<i32, SaladPrimitive>) {
        match value {
            SaladPrimitive::Int(x) => Ok(x),
            _ => Err(value),
        }
    }
}

impl vstd::std_specs::convert::TryFromSpecImpl<SaladPrimitive> for i32 {
    open spec fn obeys_try_from_spec() -> bool {
        true
    }

    open spec fn try_from_spec(v: SaladPrimitive) -> Result<i32, SaladPrimitive> {
        match v {
            SaladPrimitive::Int(x) => Ok(x),
            _ => Err(v),
        }
    }
}

impl From<i64> for SaladPrimitive {
    /// Wraps a 64-bit integer as a primitive value.
    fn from(value: i64) -> (r: Self) {
        SaladPrimitive::Long(value)
    }
}

impl vstd::std_specs::convert::FromSpecImpl<i64> for SaladPrimitive {
    open spec fn obeys_from_spec() -> bool {
        true
    }

    open spec fn from_spec(t: i64) -> Self {
        SaladPrimitive::Long(t)
    }
}

impl TryFrom<SaladPrimitive> for i64 {
    type Error = SaladPrimitive;

    /// Unwraps a 64-bit integer from a primitive value; any other variant is handed
    /// back unchanged.
    fn try_from(value: SaladPrimitive) -> (r: Result<i64, SaladPrimitive>) {
        match value {
            SaladPrimitive::Long(x) => Ok(x),
            _ => Err(value),
        }
    }
}

impl vstd::std_specs::convert::TryFromSpecImpl<SaladPrimitive> for i64 {
    open spec fn obeys_try_from_spec() -> bool {
        true
    }

    open spec fn try_from_spec(v: SaladPrimitive) -> Result<i64, SaladPrimitive> {
        match v {
            SaladPrimitive::Long(x) => Ok(x),
            _ => Err(v),
        }
    }
}

impl From<SaladFloat> for SaladPrimitive {
    /// Wraps a single-precision float as a primitive value.
    fn from(value: SaladFloat) -> (r: Self) {
        SaladPrimitive::Float(value)
    }
}

impl vstd::std_specs::convert::FromSpecImpl<SaladFloat> for SaladPrimitive {
    open spec fn obeys_from_spec() -> bool {
        true
    }

    open spec fn from_spec(t: SaladFloat) -> Self {
        SaladPrimitive::Float(t)
    }
}

impl TryFrom<SaladPrimitive> for SaladFloat {
    type Error = SaladPrimitive;

    /// Unwraps a single-precision float from a primitive value; any other variant is handed
    /// back unchanged.
    fn try_from(value: SaladPrimitive) -> (r: Result<SaladFloat, SaladPrimitive>) {
        match value {
            SaladPrimitive::Float(x) => Ok(x),
            _ => Err(value),
        }
    }
}

impl vstd::std_specs::convert::TryFromSpecImpl<SaladPrimitive> for SaladFloat {
    open spec fn obeys_try_from_spec() -> bool {
        true
    }

    open spec fn try_from_spec(v: SaladPrimitive) -> Result<SaladFloat, SaladPrimitive> {
        match v {
            SaladPrimitive::Float(x) => Ok(x),
            _ => Err(v),
        }
    }
}

impl From<SaladDouble> for SaladPrimitive {
    /// Wraps a double-precision float as a primitive value.
    fn from(value: SaladDouble) -> (r: Self) {
        SaladPrimitive::Double(value)
    }
}

impl vstd::std_specs::convert::FromSpecImpl<SaladDouble> for SaladPrimitive {
    open spec fn obeys_from_spec() -> bool {
        true
    }

    open spec fn from_spec(t: SaladDouble) -> Self {
        SaladPrimitive::Double(t)
    }
}

impl TryFrom<SaladPrimitive> for SaladDouble {
    type Error = SaladPrimitive;

    /// Unwraps a double-precision float from a primitive value; any other variant is handed
    /// back unchanged.
    fn try_from(value: SaladPrimitive) -> (r: Result<SaladDouble, SaladPrimitive>) {
        match value {
            SaladPrimitive::Double(x) => Ok(x),
            _ => Err(value),
        }
    }
}

impl vstd::std_specs::convert::TryFromSpecImpl<SaladPrimitive> for SaladDouble {
    open spec fn obeys_try_from_spec() -> bool {
        true
    }

    open spec fn try_from_spec(v: SaladPrimitive) -> Result<SaladDouble, SaladPrimitive> {
        match v {
            SaladPrimitive::Double(x) => Ok(x),
            _ => Err(v),
        }
    }
}

impl From<SaladString> for SaladPrimitive {
    /// Wraps a string as a primitive value.
    fn from(value: SaladString) -> (r: Self) {
        SaladPrimitive::String(value)
    }
}

impl vstd::std_specs::convert::FromSpecImpl<SaladString> for SaladPrimitive {
    open spec fn obeys_from_spec() -> bool {
        true
    }

    open spec fn from_spec(t: SaladString) -> Self {
        SaladPrimitive::String(t)
    }
}

impl TryFrom<SaladPrimitive> for SaladString {
    type Error = SaladPrimitive;

    /// Unwraps a string from a primitive value; any other variant is handed
    /// back unchanged.
    fn try_from(value: SaladPrimitive) -> (r: Result<SaladString, SaladPrimitive>) {
        match value {
            SaladPrimitive::String(x) => Ok(x),
            _ => Err(value),
        }
    }
}

impl vstd::std_specs::convert::TryFromSpecImpl<SaladPrimitive> for SaladString {
    open spec fn obeys_try_from_spec() -> bool {
        true
    }

    open spec fn try_from_spec(v: SaladPrimitive) -> Result<SaladString, SaladPrimitive> {
        match v {
            SaladPrimitive::String(x) => Ok(x),
            _ => Err(v),
        }
    }
}

impl SaladType for SaladPrimitive {
    /// Any scalar node decodes, narrowing integers and floating-point
    /// values per the numeric policy; structured nodes and null are
    /// rejected.
    open spec fn from_doc_spec(d: DocV) -> Result<PrimV, ErrV> {
        match d {
            DocV::Bool(b) => Ok(PrimV::Bool(b)),
            DocV::Int(i) => Ok(
                if long_in_int_range(i) {
                    PrimV::Int(i as i32)
                } else {
                    PrimV::Long(i)
                },
            ),
            DocV::UInt(u) => if u <= 0x7FFF_FFFFu64 {
                Ok(PrimV::Int(u as i32))
            } else if u <= 0x7FFF_FFFF_FFFF_FFFFu64 {
                Ok(PrimV::Long(u as i64))
            } else {
                Err(
                    ErrV::InvalidValue {
                        unexpected: UnexpectedV::Unsigned(u),
                        expected: "any of the salad primitives"@,
                    },
                )
            },
            DocV::Float(b) => Ok(PrimV::Float(b)),
            DocV::Double(b) => Ok(
                if double_in_float_range(b) {
                    PrimV::Float(double_to_float_bits_spec(b))
                } else {
                    PrimV::Double(b)
                },
            ),
            DocV::Str(s) => Ok(PrimV::Str(s)),
            DocV::Bytes(bs) => if valid_utf8(bs) {
                Ok(PrimV::Str(decode_utf8(bs)))
            } else {
                Err(
                    ErrV::InvalidValue {
                        unexpected: UnexpectedV::Bytes(bs),
                        expected: "any of the salad primitives"@,
                    },
                )
            },
            _ => Err(
                ErrV::InvalidType {
                    unexpected: unexpected_of_doc(d),
                    expected: "any of the salad primitives"@,
                },
            ),
        }
    }

    /// Downcasting accepts any scalar value, renormalizing numeric widths;
    /// objects and lists are rejected.
    open spec fn from_any_spec(v: AnyV) -> Result<PrimV, ErrV> {
        match v {
            AnyV::Bool(b) => Ok(PrimV::Bool(b)),
            AnyV::Int(i) => Ok(PrimV::Int(i)),
            AnyV::Long(l) => Ok(
                if long_in_int_range(l) {
                    PrimV::Int(l as i32)
                } else {
                    PrimV::Long(l)
                },
            ),
            AnyV::Float(b) => Ok(PrimV::Float(b)),
            AnyV::Double(b) => Ok(
                if double_in_float_range(b) {
                    PrimV::Float(double_to_float_bits_spec(b))
                } else {
                    PrimV::Double(b)
                },
            ),
            AnyV::Str(s) => Ok(PrimV::Str(s)),
            _ => Err(
                ErrV::InvalidType {
                    unexpected: unexpected_of_any(v),
                    expected: "any of the salad primitives"@,
                },
            ),
        }
    }

    fn from_doc(doc: &Doc) -> (r: Result<SaladPrimitive, DecodeError>) {
        match doc {
            Doc::Bool(b) => Ok(SaladPrimitive::Bool(*b)),
            Doc::Int(i) => {
                if is_long_in_int_range(*i) {
                    Ok(SaladPrimitive::Int(*i as i32))
                } else {
                    Ok(SaladPrimitive::Long(*i))
                }
            },
            Doc::UInt(u) => {
                if *u <= 0x7FFF_FFFF {
                    Ok(SaladPrimitive::Int(*u as i32))
                } else if *u <= 0x7FFF_FFFF_FFFF_FFFF {
                    Ok(SaladPrimitive::Long(*u as i64))
                } else {
                    Err(
                        DecodeError::InvalidValue {
                            unexpected: Unexpected::Unsigned(*u),
                            expected: "any of the salad primitives",
                        },
                    )
                }
            },
            Doc::Float(b) => Ok(SaladPrimitive::Float(SaladFloat { bits: *b })),
            Doc::Double(b) => {
                if is_double_in_float_range(*b) {
                    Ok(SaladPrimitive::Float(SaladFloat { bits: double_to_float_bits(*b) }))
                } else {
                    Ok(SaladPrimitive::Double(SaladDouble { bits: *b }))
                }
            },
            Doc::Str(s) => Ok(SaladPrimitive::String(SaladString::new(s.as_str()))),
            Doc::Bytes(bs) => {
                match string_from_utf8(clone_bytes(bs)) {
                    Some(s) => Ok(SaladPrimitive::String(SaladString::from_string(s))),
                    None => Err(
                        DecodeError::InvalidValue {
                            unexpected: Unexpected::Bytes(clone_bytes(bs)),
                            expected: "any of the salad primitives",
                        },
                    ),
                }
            },
            _ => Err(
                DecodeError::InvalidType {
                    unexpected: crate::any::doc_unexpected(doc),
                    expected: "any of the salad primitives",
                },
            ),
        }
    }

    fn from_any(v: &SaladAny) -> (r: Result<SaladPrimitive, DecodeError>) {
        match v {
            SaladAny::Bool(b) => Ok(SaladPrimitive::Bool(*b)),
            SaladAny::Int(i) => Ok(SaladPrimitive::Int(*i)),
            SaladAny::Long(l) => {
                if is_long_in_int_range(*l) {
                    Ok(SaladPrimitive::Int(*l as i32))
                } else {
                    Ok(SaladPrimitive::Long(*l))
                }
            },
            SaladAny::Float(f) => Ok(SaladPrimitive::Float(*f)),
            SaladAny::Double(d) => {
                if is_double_in_float_range(d.bits) {
                    Ok(SaladPrimitive::Float(SaladFloat { bits: double_to_float_bits(d.bits) }))
                } else {
                    Ok(SaladPrimitive::Double(*d))
                }
            },
            SaladAny::String(s) => Ok(SaladPrimitive::String(s.clone())),
            _ => Err(
                DecodeError::InvalidType {
                    unexpected: crate::any::any_unexpected(v),
                    expected: "any of the salad primitives",
                },
            ),
        }
    }
}

} // verus!
