//! Common schema vocabulary: primitive type names and fixed name literals.

use vstd::prelude::*;

use crate::any::{any_unexpected, doc_unexpected, unexpected_of_any, unexpected_of_doc, AnyV, SaladAny};
use crate::doc::{Doc, DocV};
use crate::error::{DecodeError, ErrV, UnexpectedV};
use crate::util::str_eq;
use crate::SaladType;

verus! {

/// Names of salad data primitive types (based on Avro schema declarations).
#[derive(Debug, Clone, Copy, PartialEq, Eq, Structural)]
pub enum PrimitiveType {
    /// No value; matches constant value `null`.
    Null,
    /// A binary value; matches constant value `boolean`.
    Boolean,
    /// 32-bit signed integer; matches constant value `int`.
    Int,
    /// 64-bit signed integer; matches constant value `long`.
    Long,
    /// Single precision floating point; matches constant value `float`.
    Float,
    /// Double precision floating point; matches constant value `double`.
    Double,
    /// Unicode character sequence; matches constant value `string`.
    String,
}

impl DeepView for PrimitiveType {
    type V = PrimitiveType;

    open spec fn deep_view(&self) -> PrimitiveType {
        *self
    }
}

/// The constant string each primitive type name matches.
pub open spec fn primitive_type_chars(pt: PrimitiveType) -> Seq<char> {
    match pt {
        PrimitiveType::Null => "null"@,
        PrimitiveType::Boolean => "boolean"@,
        PrimitiveType::Int => "int"@,
        PrimitiveType::Long => "long"@,
        PrimitiveType::Float => "float"@,
        PrimitiveType::Double => "double"@,
        PrimitiveType::String => "string"@,
    }
}

/// The primitive type whose constant string the characters spell, if any.
pub open spec fn primitive_type_of_chars(s: Seq<char>) -> Option<PrimitiveType> {
    if s == "null"@ {
        Some(PrimitiveType::Null)
    } else if s == "boolean"@ {
        Some(PrimitiveType::Boolean)
    } else if s == "int"@ {
        Some(PrimitiveType::Int)
    } else if s == "long"@ {
        Some(PrimitiveType::Long)
    } else if s == "float"@ {
        Some(PrimitiveType::Float)
    } else if s == "double"@ {
        Some(PrimitiveType::Double)
    } else if s == "string"@ {
        Some(PrimitiveType::String)
    } else {
        None
    }
}

impl PrimitiveType {
    /// The constant string this primitive type name matches.
    pub fn as_str(&self) -> (r: &'static str)
        ensures
            r@ == primitive_type_chars(*self),
    {
        match self {
            PrimitiveType::Null => "null",
            PrimitiveType::Boolean => "boolean",
            PrimitiveType::Int => "int",
            PrimitiveType::Long => "long",
            PrimitiveType::Float => "float",
            PrimitiveType::Double => "double",
            PrimitiveType::String => "string",
        }
    }
}

/// Decoding of a primitive type name from its characters.
fn primitive_type_of_str(s: &str) -> (r: Option<PrimitiveType>)
    ensures
        r == primitive_type_of_chars(s@),
{
    if str_eq(s, "null") {
        Some(PrimitiveType::Null)
    } else if str_eq(s, "boolean") {
        Some(PrimitiveType::Boolean)
    } else if str_eq(s, "int") {
        Some(PrimitiveType::Int)
    } else if str_eq(s, "long") {
        Some(PrimitiveType::Long)
    } else if str_eq(s, "float") {
        Some(PrimitiveType::Float)
    } else if str_eq(s, "double") {
        Some(PrimitiveType::Double)
    } else if str_eq(s, "string") {
        Some(PrimitiveType::String)
    } else {
        None
    }
}

impl SaladType for PrimitiveType {
    /// Only a string node spelling one of the seven constant names decodes.
    open spec fn from_doc_spec(d: DocV) -> Result<PrimitiveType, ErrV> {
        match d {
            DocV::Str(s) => match primitive_type_of_chars(s) {
                Some(pt) => Ok(pt),
                None => Err(
                    ErrV::InvalidValue {
                        unexpected: UnexpectedV::Str(s),
                        expected: "any of the following strings: `null`, `boolean`, `int`, `long`, `float`, `double`, `string`"@,
                    },
                ),
            },
            _ => Err(
                ErrV::InvalidType {
                    unexpected: unexpected_of_doc(d),
                    expected: "any of the following strings: `null`, `boolean`, `int`, `long`, `float`, `double`, `string`"@,
                },
            ),
        }
    }

    /// Downcasting accepts only a string value spelling one of the names.
    open spec fn from_any_spec(v: AnyV) -> Result<PrimitiveType, ErrV> {
        match v {
            AnyV::Str(s) => match primitive_type_of_chars(s) {
                Some(pt) => Ok(pt),
                None => Err(
                    ErrV::InvalidValue {
                        unexpected: UnexpectedV::Str(s),
                        expected: "any of the following strings: `null`, `boolean`, `int`, `long`, `float`, `double`, `string`"@,
                    },
                ),
            },
            _ => Err(
                ErrV::InvalidType {
                    unexpected: unexpected_of_any(v),
                    expected: "any of the following strings: `null`, `boolean`, `int`, `long`, `float`, `double`, `string`"@,
                },
            ),
        }
    }

    fn from_doc(doc: &Doc) -> (r: Result<PrimitiveType, DecodeError>) {
        match doc {
            Doc::Str(s) => {
                match primitive_type_of_str(s.as_str()) {
                    Some(pt) => Ok(pt),
                    None => Err(
                        DecodeError::InvalidValue {
                            unexpected: crate::error::Unexpected::Str(s.clone()),
                            expected: "any of the following strings: `null`, `boolean`, `int`, `long`, `float`, `double`, `string`",
                        },
                    ),
                }
            },
            _ => Err(
                DecodeError::InvalidType {
                    unexpected: doc_unexpected(doc),
                    expected: "any of the following strings: `null`, `boolean`, `int`, `long`, `float`, `double`, `string`",
                },
            ),
        }
    }

    fn from_any(v: &SaladAny) -> (r: Result<PrimitiveType, DecodeError>) {
        match v {
            SaladAny::String(s) => {
                match primitive_type_of_str(s.as_str()) {
                    Some(pt) => Ok(pt),
                    None => Err(
                        DecodeError::InvalidValue {
                            unexpected: crate::error::Unexpected::Str(s.as_str().to_owned()),
                            expected: "any of the following strings: `null`, `boolean`, `int`, `long`, `float`, `double`, `string`",
                        },
                    ),
                }
            },
            _ => Err(
                DecodeError::InvalidType {
                    unexpected: any_unexpected(v),
                    expected: "any of the following strings: `null`, `boolean`, `int`, `long`, `float`, `double`, `string`",
                },
            ),
        }
    }
}

/// Matches constant value `array`.
#[derive(Debug, Clone, Copy, PartialEq, Eq, Structural)]
pub struct ArrayName;

/// Matches constant value `enum`.
#[derive(Debug, Clone, Copy, PartialEq, Eq, Structural)]
pub struct EnumName;

/// Matches constant value `record`.
#[derive(Debug, Clone, Copy, PartialEq, Eq, Structural)]
pub struct RecordName;

impl DeepView for ArrayName {
    type V = ArrayName;

    open spec fn deep_view(&self) -> ArrayName {
        *self
    }
}

impl DeepView for EnumName {
    type V = EnumName;

    open spec fn deep_view(&self) -> EnumName {
        *self
    }
}

impl DeepView for RecordName {
    type V = RecordName;

    open spec fn deep_view(&self) -> RecordName {
        *self
    }
}

impl ArrayName {
    /// The constant string this marker matches.
    pub fn as_str(&self) -> (r: &'static str)
        ensures
            r@ == "array"@,
    {
        "array"
    }
}

impl EnumName {
    /// The constant string this marker matches.
    pub fn as_str(&self) -> (r: &'static str)
        ensures
            r@ == "enum"@,
    {
        "enum"
    }
}

impl RecordName {
    /// The constant string this marker matches.
    pub fn as_str(&self) -> (r: &'static str)
        ensures
            r@ == "record"@,
    {
        "record"
    }
}

impl SaladType for ArrayName {
    /// Only the exact string `array` decodes.
    open spec fn from_doc_spec(d: DocV) -> Result<ArrayName, ErrV> {
        match d {
            DocV::Str(s) => if s == "array"@ {
                Ok(ArrayName)
            } else {
                Err(
                    ErrV::InvalidValue {
                        unexpected: UnexpectedV::Str(s),
                        expected: "the string `array`"@,
                    },
                )
            },
            _ => Err(
                ErrV::InvalidType {
                    unexpected: unexpected_of_doc(d),
                    expected: "the string `array`"@,
                },
            ),
        }
    }

    /// Downcasting accepts only the exact string `array`.
    open spec fn from_any_spec(v: AnyV) -> Result<ArrayName, ErrV> {
        match v {
            AnyV::Str(s) => if s == "array"@ {
                Ok(ArrayName)
            } else {
                Err(
                    ErrV::InvalidValue {
                        unexpected: UnexpectedV::Str(s),
                        expected: "the string `array`"@,
                    },
                )
            },
            _ => Err(
                ErrV::InvalidType {
                    unexpected: unexpected_of_any(v),
                    expected: "the string `array`"@,
                },
            ),
        }
    }

    fn from_doc(doc: &Doc) -> (r: Result<ArrayName, DecodeError>) {
        match doc {
            Doc::Str(s) => {
                if str_eq(s.as_str(), "array") {
                    Ok(ArrayName)
                } else {
                    Err(
                        DecodeError::InvalidValue {
                            unexpected: crate::error::Unexpected::Str(s.clone()),
                            expected: "the string `array`",
                        },
                    )
                }
            },
            _ => Err(
                DecodeError::InvalidType {
                    unexpected: doc_unexpected(doc),
                    expected: "the string `array`",
                },
            ),
        }
    }

    fn from_any(v: &SaladAny) -> (r: Result<ArrayName, DecodeError>) {
        match v {
            SaladAny::String(s) => {
                if str_eq(s.as_str(), "array") {
                    Ok(ArrayName)
                } else {
                    Err(
                        DecodeError::InvalidValue {
                            unexpected: crate::error::Unexpected::Str(s.as_str().to_owned()),
                            expected: "the string `array`",
                        },
                    )
                }
            },
            _ => Err(
                DecodeError::InvalidType {
                    unexpected: any_unexpected(v),
                    expected: "the string `array`",
                },
            ),
        }
    }
}

impl SaladType for EnumName {
    /// Only the exact string `enum` decodes.
    open spec fn from_doc_spec(d: DocV) -> Result<EnumName, ErrV> {
        match d {
            DocV::Str(s) => if s == "enum"@ {
                Ok(EnumName)
            } else {
                Err(
                    ErrV::InvalidValue {
                        unexpected: UnexpectedV::Str(s),
                        expected: "the string `enum`"@,
                    },
                )
            },
            _ => Err(
                ErrV::InvalidType {
                    unexpected: unexpected_of_doc(d),
                    expected: "the string `enum`"@,
                },
            ),
        }
    }

    /// Downcasting accepts only the exact string `enum`.
    open spec fn from_any_spec(v: AnyV) -> Result<EnumName, ErrV> {
        match v {
            AnyV::Str(s) => if s == "enum"@ {
                Ok(EnumName)
            } else {
                Err(
                    ErrV::InvalidValue {
                        unexpected: UnexpectedV::Str(s),
                        expected: "the string `enum`"@,
                    },
                )
            },
            _ => Err(
                ErrV::InvalidType {
                    unexpected: unexpected_of_any(v),
                    expected: "the string `enum`"@,
                },
            ),
        }
    }

    fn from_doc(doc: &Doc) -> (r: Result<EnumName, DecodeError>) {
        match doc {
            Doc::Str(s) => {
                if str_eq(s.as_str(), "enum") {
                    Ok(EnumName)
                } else {
                    Err(
                        DecodeError::InvalidValue {
                            unexpected: crate::error::Unexpected::Str(s.clone()),
                            expected: "the string `enum`",
                        },
                    )
                }
            },
            _ => Err(
                DecodeError::InvalidType {
                    unexpected: doc_unexpected(doc),
                    expected: "the string `enum`",
                },
            ),
        }
    }

    fn from_any(v: &SaladAny) -> (r: Result<EnumName, DecodeError>) {
        match v {
            SaladAny::String(s) => {
                if str_eq(s.as_str(), "enum") {
                    Ok(EnumName)
                } else {
                    Err(
                        DecodeError::InvalidValue {
                            unexpected: crate::error::Unexpected::Str(s.as_str().to_owned()),
                            expected: "the string `enum`",
                        },
                    )
                }
            },
            _ => Err(
                DecodeError::InvalidType {
                    unexpected: any_unexpected(v),
                    expected: "the string `enum`",
                },
            ),
        }
    }
}

impl SaladType for RecordName {
    /// Only the exact string `record` decodes.
    open spec fn from_doc_spec(d: DocV) -> Result<RecordName, ErrV> {
        match d {
            DocV::Str(s) => if s == "record"@ {
                Ok(RecordName)
            } else {
                Err(
                    ErrV::InvalidValue {
                        unexpected: UnexpectedV::Str(s),
                        expected: "the string `record`"@,
                    },
                )
            },
            _ => Err(
                ErrV::InvalidType {
                    unexpected: unexpected_of_doc(d),
                    expected: "the string `record`"@,
                },
            ),
        }
    }

    /// Downcasting accepts only the exact string `record`.
    open spec fn from_any_spec(v: AnyV) -> Result<RecordName, ErrV> {
        match v {
            AnyV::Str(s) => if s == "record"@ {
                Ok(RecordName)
            } else {
                Err(
                    ErrV::InvalidValue {
                        unexpected: UnexpectedV::Str(s),
                        expected: "the string `record`"@,
                    },
                )
            },
            _ => Err(
                ErrV::InvalidType {
                    unexpected: unexpected_of_any(v),
                    expected: "the string `record`"@,
                },
            ),
        }
    }

    fn from_doc(doc: &Doc) -> (r: Result<RecordName, DecodeError>) {
        match doc {
            Doc::Str(s) => {
                if str_eq(s.as_str(), "record") {
                    Ok(RecordName)
                } else {
                    Err(
                        DecodeError::InvalidValue {
                            unexpected: crate::error::Unexpected::Str(s.clone()),
                            expected: "the string `record`",
                        },
                    )
                }
            },
            _ => Err(
                DecodeError::InvalidType {
                    unexpected: doc_unexpected(doc),
                    expected: "the string `record`",
                },
            ),
        }
    }

    fn from_any(v: &SaladAny) -> (r: Result<RecordName, DecodeError>) {
        match v {
            SaladAny::String(s) => {
                if str_eq(s.as_str(), "record") {
                    Ok(RecordName)
                } else {
                    Err(
                        DecodeError::InvalidValue {
                            unexpected: crate::error::Unexpected::Str(s.as_str().to_owned()),
                            expected: "the string `record`",
                        },
                    )
                }
            },
            _ => Err(
                DecodeError::InvalidType {
                    unexpected: any_unexpected(v),
                    expected: "the string `record`",
                },
            ),
        }
    }
}

} // verus!
