//! The kinds of values and their discriminator strings.

use vstd::prelude::*;
use crate::text::str_eq;

verus! {

/// The kind of a value: the discriminator that the wire format writes under
/// `"type"`.
#[derive(Debug, Clone, Copy, PartialEq, Eq, Structural)]
pub enum Kind {
    Void,
    Optional,
    Bool,
    String,
    Address,
    Int,
    Int8,
    Int16,
    Int32,
    Int64,
    Int128,
    Int256,
    UInt,
    UInt8,
    UInt16,
    UInt32,
    UInt64,
    UInt128,
    UInt256,
    Word8,
    Word16,
    Word32,
    Word64,
    Word128,
    Word256,
    Fix64,
    UFix64,
    Array,
    Dictionary,
    Struct,
    Resource,
    Event,
    Contract,
    Enum,
    Path,
    Type,
    InclusiveRange,
    Capability,
    Function,
}

impl Kind {
    /// The discriminator string of this kind.
    pub open spec fn text(self) -> Seq<char> {
        match self {
            Kind::Void => "Void"@,
            Kind::Optional => "Optional"@,
            Kind::Bool => "Bool"@,
            Kind::String => "String"@,
            Kind::Address => "Address"@,
            Kind::Int => "Int"@,
            Kind::Int8 => "Int8"@,
            Kind::Int16 => "Int16"@,
            Kind::Int32 => "Int32"@,
            Kind::Int64 => "Int64"@,
            Kind::Int128 => "Int128"@,
            Kind::Int256 => "Int256"@,
            Kind::UInt => "UInt"@,
            Kind::UInt8 => "UInt8"@,
            Kind::UInt16 => "UInt16"@,
            Kind::UInt32 => "UInt32"@,
            Kind::UInt64 => "UInt64"@,
            Kind::UInt128 => "UInt128"@,
            Kind::UInt256 => "UInt256"@,
            Kind::Word8 => "Word8"@,
            Kind::Word16 => "Word16"@,
            Kind::Word32 => "Word32"@,
            Kind::Word64 => "Word64"@,
            Kind::Word128 => "Word128"@,
            Kind::Word256 => "Word256"@,
            Kind::Fix64 => "Fix64"@,
            Kind::UFix64 => "UFix64"@,
            Kind::Array => "Array"@,
            Kind::Dictionary => "Dictionary"@,
            Kind::Struct => "Struct"@,
            Kind::Resource => "Resource"@,
            Kind::Event => "Event"@,
            Kind::Contract => "Contract"@,
            Kind::Enum => "Enum"@,
            Kind::Path => "Path"@,
            Kind::Type => "Type"@,
            Kind::InclusiveRange => "InclusiveRange"@,
            Kind::Capability => "Capability"@,
            Kind::Function => "Function"@,
        }
    }

    /// The kind that `s` names, if it names one.
    pub open spec fn named(s: Seq<char>) -> Option<Kind> {
        if s == "Void"@ {
            Some(Kind::Void)
        } else if s == "Optional"@ {
            Some(Kind::Optional)
        } else if s == "Bool"@ {
            Some(Kind::Bool)
        } else if s == "String"@ {
            Some(Kind::String)
        } else if s == "Address"@ {
            Some(Kind::Address)
        } else if s == "Int"@ {
            Some(Kind::Int)
        } else if s == "Int8"@ {
            Some(Kind::Int8)
        } else if s == "Int16"@ {
            Some(Kind::Int16)
        } else if s == "Int32"@ {
            Some(Kind::Int32)
        } else if s == "Int64"@ {
            Some(Kind::Int64)
        } else if s == "Int128"@ {
            Some(Kind::Int128)
        } else if s == "Int256"@ {
            Some(Kind::Int256)
        } else if s == "UInt"@ {
            Some(Kind::UInt)
        } else if s == "UInt8"@ {
            Some(Kind::UInt8)
        } else if s == "UInt16"@ {
            Some(Kind::UInt16)
        } else if s == "UInt32"@ {
            Some(Kind::UInt32)
        } else if s == "UInt64"@ {
            Some(Kind::UInt64)
        } else if s == "UInt128"@ {
            Some(Kind::UInt128)
        } else if s == "UInt256"@ {
            Some(Kind::UInt256)
        } else if s == "Word8"@ {
            Some(Kind::Word8)
        } else if s == "Word16"@ {
            Some(Kind::Word16)
        } else if s == "Word32"@ {
            Some(Kind::Word32)
        } else if s == "Word64"@ {
            Some(Kind::Word64)
        } else if s == "Word128"@ {
            Some(Kind::Word128)
        } else if s == "Word256"@ {
            Some(Kind::Word256)
        } else if s == "Fix64"@ {
            Some(Kind::Fix64)
        } else if s == "UFix64"@ {
            Some(Kind::UFix64)
        } else if s == "Array"@ {
            Some(Kind::Array)
        } else if s == "Dictionary"@ {
            Some(Kind::Dictionary)
        } else if s == "Struct"@ {
            Some(Kind::Struct)
        } else if s == "Resource"@ {
            Some(Kind::Resource)
        } else if s == "Event"@ {
            Some(Kind::Event)
        } else if s == "Contract"@ {
            Some(Kind::Contract)
        } else if s == "Enum"@ {
            Some(Kind::Enum)
        } else if s == "Path"@ {
            Some(Kind::Path)
        } else if s == "Type"@ {
            Some(Kind::Type)
        } else if s == "InclusiveRange"@ {
            Some(Kind::InclusiveRange)
        } else if s == "Capability"@ {
            Some(Kind::Capability)
        } else if s == "Function"@ {
            Some(Kind::Function)
        } else {
            None
        }
    }

    /// Whether a value of this kind carries a string: `String`, `Address`, the integer
    /// kinds and the fixed-point kinds.
    pub open spec fn is_text(self) -> bool {
        self == Kind::String
        || self == Kind::Address
        || self == Kind::Int
        || self == Kind::Int8
        || self == Kind::Int16
        || self == Kind::Int32
        || self == Kind::Int64
        || self == Kind::Int128
        || self == Kind::Int256
        || self == Kind::UInt
        || self == Kind::UInt8
        || self == Kind::UInt16
        || self == Kind::UInt32
        || self == Kind::UInt64
        || self == Kind::UInt128
        || self == Kind::UInt256
        || self == Kind::Word8
        || self == Kind::Word16
        || self == Kind::Word32
        || self == Kind::Word64
        || self == Kind::Word128
        || self == Kind::Word256
        || self == Kind::Fix64
        || self == Kind::UFix64
    }

    /// Whether this is one of the integer kinds, whose payload is a decimal string.
    pub open spec fn is_integer(self) -> bool {
        self == Kind::Int
        || self == Kind::Int8
        || self == Kind::Int16
        || self == Kind::Int32
        || self == Kind::Int64
        || self == Kind::Int128
        || self == Kind::Int256
        || self == Kind::UInt
        || self == Kind::UInt8
        || self == Kind::UInt16
        || self == Kind::UInt32
        || self == Kind::UInt64
        || self == Kind::UInt128
        || self == Kind::UInt256
        || self == Kind::Word8
        || self == Kind::Word16
        || self == Kind::Word32
        || self == Kind::Word64
        || self == Kind::Word128
        || self == Kind::Word256
    }

    /// Whether this is `Int` or one of the sized signed integer kinds.
    pub open spec fn is_signed_integer(self) -> bool {
        self == Kind::Int
        || self == Kind::Int8
        || self == Kind::Int16
        || self == Kind::Int32
        || self == Kind::Int64
        || self == Kind::Int128
        || self == Kind::Int256
    }

    /// Whether this is `UInt` or one of the sized unsigned integer kinds.
    pub open spec fn is_unsigned_integer(self) -> bool {
        self == Kind::UInt
        || self == Kind::UInt8
        || self == Kind::UInt16
        || self == Kind::UInt32
        || self == Kind::UInt64
        || self == Kind::UInt128
        || self == Kind::UInt256
    }

    /// Whether this is `Fix64` or `UFix64`.
    pub open spec fn is_fixed_point(self) -> bool {
        self == Kind::Fix64
        || self == Kind::UFix64
    }

    /// Whether this is one of the five composite kinds.
    pub open spec fn is_composite(self) -> bool {
        self == Kind::Struct
        || self == Kind::Resource
        || self == Kind::Event
        || self == Kind::Contract
        || self == Kind::Enum
    }

    /// Whether this kind belongs to the type-descriptor family.
    pub open spec fn is_descriptor(self) -> bool {
        self == Kind::Path
        || self == Kind::Type
        || self == Kind::InclusiveRange
        || self == Kind::Capability
        || self == Kind::Function
    }

    /// The discriminator string of this kind.
    pub fn name(self) -> (r: &'static str)
        ensures
            r@ == self.text(),
    {
        match self {
            Kind::Void => "Void",
            Kind::Optional => "Optional",
            Kind::Bool => "Bool",
            Kind::String => "String",
            Kind::Address => "Address",
            Kind::Int => "Int",
            Kind::Int8 => "Int8",
            Kind::Int16 => "Int16",
            Kind::Int32 => "Int32",
            Kind::Int64 => "Int64",
            Kind::Int128 => "Int128",
            Kind::Int256 => "Int256",
            Kind::UInt => "UInt",
            Kind::UInt8 => "UInt8",
            Kind::UInt16 => "UInt16",
            Kind::UInt32 => "UInt32",
            Kind::UInt64 => "UInt64",
            Kind::UInt128 => "UInt128",
            Kind::UInt256 => "UInt256",
            Kind::Word8 => "Word8",
            Kind::Word16 => "Word16",
            Kind::Word32 => "Word32",
            Kind::Word64 => "Word64",
            Kind::Word128 => "Word128",
            Kind::Word256 => "Word256",
            Kind::Fix64 => "Fix64",
            Kind::UFix64 => "UFix64",
            Kind::Array => "Array",
            Kind::Dictionary => "Dictionary",
            Kind::Struct => "Struct",
            Kind::Resource => "Resource",
            Kind::Event => "Event",
            Kind::Contract => "Contract",
            Kind::Enum => "Enum",
            Kind::Path => "Path",
            Kind::Type => "Type",
            Kind::InclusiveRange => "InclusiveRange",
            Kind::Capability => "Capability",
            Kind::Function => "Function",
        }
    }

    /// The kind that `s` names, or `None` where `s` is no discriminator.
    pub fn from_name(s: &str) -> (r: Option<Kind>)
        ensures
            r == Kind::named(s@),
    {
        if str_eq(s, "Void") {
            Some(Kind::Void)
        } else if str_eq(s, "Optional") {
            Some(Kind::Optional)
        } else if str_eq(s, "Bool") {
            Some(Kind::Bool)
        } else if str_eq(s, "String") {
            Some(Kind::String)
        } else if str_eq(s, "Address") {
            Some(Kind::Address)
        } else if str_eq(s, "Int") {
            Some(Kind::Int)
        } else if str_eq(s, "Int8") {
            Some(Kind::Int8)
        } else if str_eq(s, "Int16") {
            Some(Kind::Int16)
        } else if str_eq(s, "Int32") {
            Some(Kind::Int32)
        } else if str_eq(s, "Int64") {
            Some(Kind::Int64)
        } else if str_eq(s, "Int128") {
            Some(Kind::Int128)
        } else if str_eq(s, "Int256") {
            Some(Kind::Int256)
        } else if str_eq(s, "UInt") {
            Some(Kind::UInt)
        } else if str_eq(s, "UInt8") {
            Some(Kind::UInt8)
        } else if str_eq(s, "UInt16") {
            Some(Kind::UInt16)
        } else if str_eq(s, "UInt32") {
            Some(Kind::UInt32)
        } else if str_eq(s, "UInt64") {
            Some(Kind::UInt64)
        } else if str_eq(s, "UInt128") {
            Some(Kind::UInt128)
        } else if str_eq(s, "UInt256") {
            Some(Kind::UInt256)
        } else if str_eq(s, "Word8") {
            Some(Kind::Word8)
        } else if str_eq(s, "Word16") {
            Some(Kind::Word16)
        } else if str_eq(s, "Word32") {
            Some(Kind::Word32)
        } else if str_eq(s, "Word64") {
            Some(Kind::Word64)
        } else if str_eq(s, "Word128") {
            Some(Kind::Word128)
        } else if str_eq(s, "Word256") {
            Some(Kind::Word256)
        } else if str_eq(s, "Fix64") {
            Some(Kind::Fix64)
        } else if str_eq(s, "UFix64") {
            Some(Kind::UFix64)
        } else if str_eq(s, "Array") {
            Some(Kind::Array)
        } else if str_eq(s, "Dictionary") {
            Some(Kind::Dictionary)
        } else if str_eq(s, "Struct") {
            Some(Kind::Struct)
        } else if str_eq(s, "Resource") {
            Some(Kind::Resource)
        } else if str_eq(s, "Event") {
            Some(Kind::Event)
        } else if str_eq(s, "Contract") {
            Some(Kind::Contract)
        } else if str_eq(s, "Enum") {
            Some(Kind::Enum)
        } else if str_eq(s, "Path") {
            Some(Kind::Path)
        } else if str_eq(s, "Type") {
            Some(Kind::Type)
        } else if str_eq(s, "InclusiveRange") {
            Some(Kind::InclusiveRange)
        } else if str_eq(s, "Capability") {
            Some(Kind::Capability)
        } else if str_eq(s, "Function") {
            Some(Kind::Function)
        } else {
            None
        }
    }

    /// Whether a value of this kind carries a string.
    pub fn carries_text(self) -> (r: bool)
        ensures
            r == self.is_text(),
    {
        match self {
            Kind::String
            | Kind::Address
            | Kind::Int
            | Kind::Int8
            | Kind::Int16
            | Kind::Int32
            | Kind::Int64
            | Kind::Int128
            | Kind::Int256
            | Kind::UInt
            | Kind::UInt8
            | Kind::UInt16
            | Kind::UInt32
            | Kind::UInt64
            | Kind::UInt128
            | Kind::UInt256
            | Kind::Word8
            | Kind::Word16
            | Kind::Word32
            | Kind::Word64
            | Kind::Word128
            | Kind::Word256
            | Kind::Fix64
            | Kind::UFix64 => true,
            _ => false,
        }
    }

    /// Whether this is one of the integer kinds.
    pub fn integer(self) -> (r: bool)
        ensures
            r == self.is_integer(),
    {
        match self {
            Kind::Int
            | Kind::Int8
            | Kind::Int16
            | Kind::Int32
            | Kind::Int64
            | Kind::Int128
            | Kind::Int256
            | Kind::UInt
            | Kind::UInt8
            | Kind::UInt16
            | Kind::UInt32
            | Kind::UInt64
            | Kind::UInt128
            | Kind::UInt256
            | Kind::Word8
            | Kind::Word16
            | Kind::Word32
            | Kind::Word64
            | Kind::Word128
            | Kind::Word256 => true,
            _ => false,
        }
    }

    /// Whether this is `Int` or one of the sized signed integer kinds.
    pub fn signed_integer(self) -> (r: bool)
        ensures
            r == self.is_signed_integer(),
    {
        match self {
            Kind::Int
            | Kind::Int8
            | Kind::Int16
            | Kind::Int32
            | Kind::Int64
            | Kind::Int128
            | Kind::Int256 => true,
            _ => false,
        }
    }

    /// Whether this is `UInt` or one of the sized unsigned integer kinds.
    pub fn unsigned_integer(self) -> (r: bool)
        ensures
            r == self.is_unsigned_integer(),
    {
        match self {
            Kind::UInt
            | Kind::UInt8
            | Kind::UInt16
            | Kind::UInt32
            | Kind::UInt64
            | Kind::UInt128
            | Kind::UInt256 => true,
            _ => false,
        }
    }

    /// Whether this is `Fix64` or `UFix64`.
    pub fn fixed_point(self) -> (r: bool)
        ensures
            r == self.is_fixed_point(),
    {
        match self {
            Kind::Fix64 | Kind::UFix64 => true,
            _ => false,
        }
    }

    /// Whether this is one of the five composite kinds.
    pub fn composite(self) -> (r: bool)
        ensures
            r == self.is_composite(),
    {
        match self {
            Kind::Struct | Kind::Resource | Kind::Event | Kind::Contract | Kind::Enum => true,
            _ => false,
        }
    }

    /// Whether this kind belongs to the type-descriptor family.
    pub fn descriptor(self) -> (r: bool)
        ensures
            r == self.is_descriptor(),
    {
        match self {
            Kind::Path
            | Kind::Type
            | Kind::InclusiveRange
            | Kind::Capability
            | Kind::Function => true,
            _ => false,
        }
    }

}

/// The length, the first two characters and the last character of each
/// discriminator string. Together they tell any two discriminators apart.
pub proof fn lemma_kind_texts()
    ensures
        "Void"@.len() == 4 && "Void"@[0] == 'V' && "Void"@[1] == 'o' && "Void"@[3] == 'd',
        "Optional"@.len() == 8
            && "Optional"@[0] == 'O'
            && "Optional"@[1] == 'p'
            && "Optional"@[7] == 'l',
        "Bool"@.len() == 4 && "Bool"@[0] == 'B' && "Bool"@[1] == 'o' && "Bool"@[3] == 'l',
        "String"@.len() == 6 && "String"@[0] == 'S' && "String"@[1] == 't' && "String"@[5] == 'g',
        "Address"@.len() == 7
            && "Address"@[0] == 'A'
            && "Address"@[1] == 'd'
            && "Address"@[6] == 's',
        "Int"@.len() == 3 && "Int"@[0] == 'I' && "Int"@[1] == 'n' && "Int"@[2] == 't',
        "Int8"@.len() == 4 && "Int8"@[0] == 'I' && "Int8"@[1] == 'n' && "Int8"@[3] == '8',
        "Int16"@.len() == 5 && "Int16"@[0] == 'I' && "Int16"@[1] == 'n' && "Int16"@[4] == '6',
        "Int32"@.len() == 5 && "Int32"@[0] == 'I' && "Int32"@[1] == 'n' && "Int32"@[4] == '2',
        "Int64"@.len() == 5 && "Int64"@[0] == 'I' && "Int64"@[1] == 'n' && "Int64"@[4] == '4',
        "Int128"@.len() == 6 && "Int128"@[0] == 'I' && "Int128"@[1] == 'n' && "Int128"@[5] == '8',
        "Int256"@.len() == 6 && "Int256"@[0] == 'I' && "Int256"@[1] == 'n' && "Int256"@[5] == '6',
        "UInt"@.len() == 4 && "UInt"@[0] == 'U' && "UInt"@[1] == 'I' && "UInt"@[3] == 't',
        "UInt8"@.len() == 5 && "UInt8"@[0] == 'U' && "UInt8"@[1] == 'I' && "UInt8"@[4] == '8',
        "UInt16"@.len() == 6 && "UInt16"@[0] == 'U' && "UInt16"@[1] == 'I' && "UInt16"@[5] == '6',
        "UInt32"@.len() == 6 && "UInt32"@[0] == 'U' && "UInt32"@[1] == 'I' && "UInt32"@[5] == '2',
        "UInt64"@.len() == 6 && "UInt64"@[0] == 'U' && "UInt64"@[1] == 'I' && "UInt64"@[5] == '4',
        "UInt128"@.len() == 7
            && "UInt128"@[0] == 'U'
            && "UInt128"@[1] == 'I'
            && "UInt128"@[6] == '8',
        "UInt256"@.len() == 7
            && "UInt256"@[0] == 'U'
            && "UInt256"@[1] == 'I'
            && "UInt256"@[6] == '6',
        "Word8"@.len() == 5 && "Word8"@[0] == 'W' && "Word8"@[1] == 'o' && "Word8"@[4] == '8',
        "Word16"@.len() == 6 && "Word16"@[0] == 'W' && "Word16"@[1] == 'o' && "Word16"@[5] == '6',
        "Word32"@.len() == 6 && "Word32"@[0] == 'W' && "Word32"@[1] == 'o' && "Word32"@[5] == '2',
        "Word64"@.len() == 6 && "Word64"@[0] == 'W' && "Word64"@[1] == 'o' && "Word64"@[5] == '4',
        "Word128"@.len() == 7
            && "Word128"@[0] == 'W'
            && "Word128"@[1] == 'o'
            && "Word128"@[6] == '8',
        "Word256"@.len() == 7
            && "Word256"@[0] == 'W'
            && "Word256"@[1] == 'o'
            && "Word256"@[6] == '6',
        "Fix64"@.len() == 5 && "Fix64"@[0] == 'F' && "Fix64"@[1] == 'i' && "Fix64"@[4] == '4',
        "UFix64"@.len() == 6 && "UFix64"@[0] == 'U' && "UFix64"@[1] == 'F' && "UFix64"@[5] == '4',
        "Array"@.len() == 5 && "Array"@[0] == 'A' && "Array"@[1] == 'r' && "Array"@[4] == 'y',
        "Dictionary"@.len() == 10
            && "Dictionary"@[0] == 'D'
            && "Dictionary"@[1] == 'i'
            && "Dictionary"@[9] == 'y',
        "Struct"@.len() == 6 && "Struct"@[0] == 'S' && "Struct"@[1] == 't' && "Struct"@[5] == 't',
        "Resource"@.len() == 8
            && "Resource"@[0] == 'R'
            && "Resource"@[1] == 'e'
            && "Resource"@[7] == 'e',
        "Event"@.len() == 5 && "Event"@[0] == 'E' && "Event"@[1] == 'v' && "Event"@[4] == 't',
        "Contract"@.len() == 8
            && "Contract"@[0] == 'C'
            && "Contract"@[1] == 'o'
            && "Contract"@[7] == 't',
        "Enum"@.len() == 4 && "Enum"@[0] == 'E' && "Enum"@[1] == 'n' && "Enum"@[3] == 'm',
        "Path"@.len() == 4 && "Path"@[0] == 'P' && "Path"@[1] == 'a' && "Path"@[3] == 'h',
        "Type"@.len() == 4 && "Type"@[0] == 'T' && "Type"@[1] == 'y' && "Type"@[3] == 'e',
        "InclusiveRange"@.len() == 14
            && "InclusiveRange"@[0] == 'I'
            && "InclusiveRange"@[1] == 'n'
            && "InclusiveRange"@[13] == 'e',
        "Capability"@.len() == 10
            && "Capability"@[0] == 'C'
            && "Capability"@[1] == 'a'
            && "Capability"@[9] == 'y',
        "Function"@.len() == 8
            && "Function"@[0] == 'F'
            && "Function"@[1] == 'u'
            && "Function"@[7] == 'n',
{
    reveal_strlit("Void");
    reveal_strlit("Optional");
    reveal_strlit("Bool");
    reveal_strlit("String");
    reveal_strlit("Address");
    reveal_strlit("Int");
    reveal_strlit("Int8");
    reveal_strlit("Int16");
    reveal_strlit("Int32");
    reveal_strlit("Int64");
    reveal_strlit("Int128");
    reveal_strlit("Int256");
    reveal_strlit("UInt");
    reveal_strlit("UInt8");
    reveal_strlit("UInt16");
    reveal_strlit("UInt32");
    reveal_strlit("UInt64");
    reveal_strlit("UInt128");
    reveal_strlit("UInt256");
    reveal_strlit("Word8");
    reveal_strlit("Word16");
    reveal_strlit("Word32");
    reveal_strlit("Word64");
    reveal_strlit("Word128");
    reveal_strlit("Word256");
    reveal_strlit("Fix64");
    reveal_strlit("UFix64");
    reveal_strlit("Array");
    reveal_strlit("Dictionary");
    reveal_strlit("Struct");
    reveal_strlit("Resource");
    reveal_strlit("Event");
    reveal_strlit("Contract");
    reveal_strlit("Enum");
    reveal_strlit("Path");
    reveal_strlit("Type");
    reveal_strlit("InclusiveRange");
    reveal_strlit("Capability");
    reveal_strlit("Function");
}

/// A kind is the one that its discriminator names: no two kinds share a
/// discriminator.
pub proof fn lemma_named_text(k: Kind)
    ensures
        Kind::named(k.text()) == Some(k),
{
    lemma_kind_texts();
}

} // verus!
