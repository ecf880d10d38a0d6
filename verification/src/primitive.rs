//! The primitive types and the identifiers that name them.

use crate::hir::PrimitiveTy;
use vstd::prelude::*;
use vstd::string::StringExecFns;

verus! {

/// The primitive type that the identifier `name` stands for: `bool`,
/// `char`, `str` (also written `string`), `type`, `any`, `void`, the
/// integers `i8` to `i128` and `u8` to `u128`, `isize`, `usize`, `f32`
/// and `f64`.
pub open spec fn primitive_named(name: Seq<char>) -> Option<PrimitiveTy> {
    if name == "i8"@ {
        Some(PrimitiveTy::IInt(8))
    } else if name == "i16"@ {
        Some(PrimitiveTy::IInt(16))
    } else if name == "i32"@ {
        Some(PrimitiveTy::IInt(32))
    } else if name == "i64"@ {
        Some(PrimitiveTy::IInt(64))
    } else if name == "i128"@ {
        Some(PrimitiveTy::IInt(128))
    } else if name == "isize"@ {
        Some(PrimitiveTy::IInt(u32::MAX))
    } else if name == "u8"@ {
        Some(PrimitiveTy::UInt(8))
    } else if name == "u16"@ {
        Some(PrimitiveTy::UInt(16))
    } else if name == "u32"@ {
        Some(PrimitiveTy::UInt(32))
    } else if name == "u64"@ {
        Some(PrimitiveTy::UInt(64))
    } else if name == "u128"@ {
        Some(PrimitiveTy::UInt(128))
    } else if name == "usize"@ {
        Some(PrimitiveTy::UInt(u32::MAX))
    } else if name == "f32"@ {
        Some(PrimitiveTy::Float(32))
    } else if name == "f64"@ {
        Some(PrimitiveTy::Float(64))
    } else if name == "bool"@ {
        Some(PrimitiveTy::Bool)
    } else if name == "str"@ || name == "string"@ {
        Some(PrimitiveTy::String)
    } else if name == "char"@ {
        Some(PrimitiveTy::Char)
    } else if name == "type"@ {
        Some(PrimitiveTy::Type)
    } else if name == "any"@ {
        Some(PrimitiveTy::Any)
    } else if name == "void"@ {
        Some(PrimitiveTy::Void)
    } else {
        None
    }
}

/// Whether `text` reads `word`.
fn reads(text: &String, word: &str) -> (same: bool)
    ensures
        same == (text@ == word@),
{
    *text == String::from_str(word)
}

impl PrimitiveTy {
    /// The primitive type that the identifier `name` stands for, if it
    /// names one.
    pub fn parse(name: &str) -> (ty: Option<PrimitiveTy>)
        ensures
            ty == primitive_named(name@),
    {
        let text: String = String::from_str(name);
        if reads(&text, "i8") {
            Some(PrimitiveTy::IInt(8))
        } else if reads(&text, "i16") {
            Some(PrimitiveTy::IInt(16))
        } else if reads(&text, "i32") {
            Some(PrimitiveTy::IInt(32))
        } else if reads(&text, "i64") {
            Some(PrimitiveTy::IInt(64))
        } else if reads(&text, "i128") {
            Some(PrimitiveTy::IInt(128))
        } else if reads(&text, "isize") {
            Some(PrimitiveTy::IInt(u32::MAX))
        } else if reads(&text, "u8") {
            Some(PrimitiveTy::UInt(8))
        } else if reads(&text, "u16") {
            Some(PrimitiveTy::UInt(16))
        } else if reads(&text, "u32") {
            Some(PrimitiveTy::UInt(32))
        } else if reads(&text, "u64") {
            Some(PrimitiveTy::UInt(64))
        } else if reads(&text, "u128") {
            Some(PrimitiveTy::UInt(128))
        } else if reads(&text, "usize") {
            Some(PrimitiveTy::UInt(u32::MAX))
        } else if reads(&text, "f32") {
            Some(PrimitiveTy::Float(32))
        } else if reads(&text, "f64") {
            Some(PrimitiveTy::Float(64))
        } else if reads(&text, "bool") {
            Some(PrimitiveTy::Bool)
        } else if reads(&text, "str") || reads(&text, "string") {
            Some(PrimitiveTy::String)
        } else if reads(&text, "char") {
            Some(PrimitiveTy::Char)
        } else if reads(&text, "type") {
            Some(PrimitiveTy::Type)
        } else if reads(&text, "any") {
            Some(PrimitiveTy::Any)
        } else if reads(&text, "void") {
            Some(PrimitiveTy::Void)
        } else {
            None
        }
    }
}

} // verus!
