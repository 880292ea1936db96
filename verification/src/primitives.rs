use vstd::prelude::*;
use crate::text::{chars_of, chars_eq};

verus! {

/// Type of primitive that is supported out-of-the-box.
#[derive(Clone, Copy, Debug, PartialEq, Eq, Structural, Hash)]
pub enum Primitive {
    Bool,
    F32,
    F64,
    I8,
    I16,
    I32,
    I64,
    U8,
    U16,
    U32,
    U64,
}

/// The Rust spelling of a primitive.
pub open spec fn primitive_name(p: Primitive) -> Seq<char> {
    match p {
        Primitive::Bool => "bool"@,
        Primitive::F32 => "f32"@,
        Primitive::F64 => "f64"@,
        Primitive::I8 => "i8"@,
        Primitive::I16 => "i16"@,
        Primitive::I32 => "i32"@,
        Primitive::I64 => "i64"@,
        Primitive::U8 => "u8"@,
        Primitive::U16 => "u16"@,
        Primitive::U32 => "u32"@,
        Primitive::U64 => "u64"@,
    }
}

/// The primitive whose Rust spelling is `s`, if any.
pub open spec fn primitive_from_name(s: Seq<char>) -> Option<Primitive> {
    if s == "bool"@ {
        Some(Primitive::Bool)
    } else if s == "f32"@ {
        Some(Primitive::F32)
    } else if s == "f64"@ {
        Some(Primitive::F64)
    } else if s == "i8"@ {
        Some(Primitive::I8)
    } else if s == "i16"@ {
        Some(Primitive::I16)
    } else if s == "i32"@ {
        Some(Primitive::I32)
    } else if s == "i64"@ {
        Some(Primitive::I64)
    } else if s == "u8"@ {
        Some(Primitive::U8)
    } else if s == "u16"@ {
        Some(Primitive::U16)
    } else if s == "u32"@ {
        Some(Primitive::U32)
    } else if s == "u64"@ {
        Some(Primitive::U64)
    } else {
        None
    }
}

/// The message with which an unknown primitive name is refused.
pub open spec fn unknown_primitive_message(s: Seq<char>) -> Seq<char> {
    "Unknown primitive type: \""@ + s + "\""@
}

/// The name of the JavaScript typed array that holds values of `p`, if any.
pub open spec fn js_array_name_of(p: Primitive) -> Option<Seq<char>> {
    match p {
        Primitive::U8 => Some("Uint8Array"@),
        Primitive::U16 => Some("Uint16Array"@),
        Primitive::U32 => Some("Uint32Array"@),
        Primitive::I8 => Some("Int8Array"@),
        Primitive::I16 => Some("Int16Array"@),
        Primitive::I32 => Some("Int32Array"@),
        Primitive::F32 => Some("Float32Array"@),
        Primitive::F64 => Some("Float64Array"@),
        _ => None,
    }
}

/// The primitive spelled by the characters `v`, or the message with which
/// the name is refused.
pub fn primitive_from_chars(v: &[char]) -> (res: Result<Primitive, String>)
    ensures
        match primitive_from_name(v@) {
            Some(p) => res == Ok::<Primitive, String>(p),
            None => res matches Err(e) && e@ == unknown_primitive_message(v@),
        },
{
    if chars_eq(v, "bool") {
        Ok(Primitive::Bool)
    } else if chars_eq(v, "f32") {
        Ok(Primitive::F32)
    } else if chars_eq(v, "f64") {
        Ok(Primitive::F64)
    } else if chars_eq(v, "i8") {
        Ok(Primitive::I8)
    } else if chars_eq(v, "i16") {
        Ok(Primitive::I16)
    } else if chars_eq(v, "i32") {
        Ok(Primitive::I32)
    } else if chars_eq(v, "i64") {
        Ok(Primitive::I64)
    } else if chars_eq(v, "u8") {
        Ok(Primitive::U8)
    } else if chars_eq(v, "u16") {
        Ok(Primitive::U16)
    } else if chars_eq(v, "u32") {
        Ok(Primitive::U32)
    } else if chars_eq(v, "u64") {
        Ok(Primitive::U64)
    } else {
        let mut msg = "Unknown primitive type: \"".to_owned();
        let name = crate::text::string_of(v);
        msg.append(name.as_str());
        msg.append("\"");
        Err(msg)
    }
}

impl Primitive {
    /// Parses the Rust spelling of a primitive.
    pub fn from_str(string: &str) -> (res: Result<Primitive, String>)
        ensures
            match primitive_from_name(string@) {
                Some(p) => res == Ok::<Primitive, String>(p),
                None => res matches Err(e) && e@ == unknown_primitive_message(string@),
            },
    {
        let v = chars_of(string);
        primitive_from_chars(&v)
    }

    /// The JavaScript typed array that holds values of the primitive, if
    /// there is one.
    pub fn js_array_name(&self) -> (res: Option<String>)
        ensures
            match js_array_name_of(*self) {
                Some(n) => res matches Some(s) && s@ == n,
                None => res is None,
            },
    {
        let name = match self {
            Primitive::U8 => Some("Uint8Array"),
            Primitive::U16 => Some("Uint16Array"),
            Primitive::U32 => Some("Uint32Array"),
            Primitive::I8 => Some("Int8Array"),
            Primitive::I16 => Some("Int16Array"),
            Primitive::I32 => Some("Int32Array"),
            Primitive::F32 => Some("Float32Array"),
            Primitive::F64 => Some("Float64Array"),
            _ => None,
        };
        match name {
            Some(n) => Some(n.to_owned()),
            None => None,
        }
    }

    /// The Rust spelling of the primitive.
    pub fn name(&self) -> (res: String)
        ensures
            res@ == primitive_name(*self),
    {
        let s = match self {
            Primitive::Bool => "bool",
            Primitive::F32 => "f32",
            Primitive::F64 => "f64",
            Primitive::I8 => "i8",
            Primitive::I16 => "i16",
            Primitive::I32 => "i32",
            Primitive::I64 => "i64",
            Primitive::U8 => "u8",
            Primitive::U16 => "u16",
            Primitive::U32 => "u32",
            Primitive::U64 => "u64",
        };
        s.to_owned()
    }
}

/// A primitive's name reads back as that primitive.
pub proof fn lemma_primitive_name_round_trip(p: Primitive)
    ensures
        primitive_from_name(primitive_name(p)) == Some(p),
{
    reveal_strlit("bool");
    reveal_strlit("f32");
    reveal_strlit("f64");
    reveal_strlit("i8");
    reveal_strlit("i16");
    reveal_strlit("i32");
    reveal_strlit("i64");
    reveal_strlit("u8");
    reveal_strlit("u16");
    reveal_strlit("u32");
    reveal_strlit("u64");
    match p {
        Primitive::Bool => {

        },
        Primitive::F32 => {
            assert("f32"@.len() != "bool"@.len());
        },
        Primitive::F64 => {
            assert("f64"@.len() != "bool"@.len());
            assert("f64"@[1] != "f32"@[1]);
        },
        Primitive::I8 => {
            assert("i8"@.len() != "bool"@.len());
            assert("i8"@.len() != "f32"@.len());
            assert("i8"@.len() != "f64"@.len());
        },
        Primitive::I16 => {
            assert("i16"@.len() != "bool"@.len());
            assert("i16"@[0] != "f32"@[0]);
            assert("i16"@[0] != "f64"@[0]);
            assert("i16"@.len() != "i8"@.len());
        },
        Primitive::I32 => {
            assert("i32"@.len() != "bool"@.len());
            assert("i32"@[0] != "f32"@[0]);
            assert("i32"@[0] != "f64"@[0]);
            assert("i32"@.len() != "i8"@.len());
            assert("i32"@[1] != "i16"@[1]);
        },
        Primitive::I64 => {
            assert("i64"@.len() != "bool"@.len());
            assert("i64"@[0] != "f32"@[0]);
            assert("i64"@[0] != "f64"@[0]);
            assert("i64"@.len() != "i8"@.len());
            assert("i64"@[1] != "i16"@[1]);
            assert("i64"@[1] != "i32"@[1]);
        },
        Primitive::U8 => {
            assert("u8"@.len() != "bool"@.len());
            assert("u8"@.len() != "f32"@.len());
            assert("u8"@.len() != "f64"@.len());
            assert("u8"@[0] != "i8"@[0]);
            assert("u8"@.len() != "i16"@.len());
            assert("u8"@.len() != "i32"@.len());
            assert("u8"@.len() != "i64"@.len());
        },
        Primitive::U16 => {
            assert("u16"@.len() != "bool"@.len());
            assert("u16"@[0] != "f32"@[0]);
            assert("u16"@[0] != "f64"@[0]);
            assert("u16"@.len() != "i8"@.len());
            assert("u16"@[0] != "i16"@[0]);
            assert("u16"@[0] != "i32"@[0]);
            assert("u16"@[0] != "i64"@[0]);
            assert("u16"@.len() != "u8"@.len());
        },
        Primitive::U32 => {
            assert("u32"@.len() != "bool"@.len());
            assert("u32"@[0] != "f32"@[0]);
            assert("u32"@[0] != "f64"@[0]);
            assert("u32"@.len() != "i8"@.len());
            assert("u32"@[0] != "i16"@[0]);
            assert("u32"@[0] != "i32"@[0]);
            assert("u32"@[0] != "i64"@[0]);
            assert("u32"@.len() != "u8"@.len());
            assert("u32"@[1] != "u16"@[1]);
        },
        Primitive::U64 => {
            assert("u64"@.len() != "bool"@.len());
            assert("u64"@[0] != "f32"@[0]);
            assert("u64"@[0] != "f64"@[0]);
            assert("u64"@.len() != "i8"@.len());
            assert("u64"@[0] != "i16"@[0]);
            assert("u64"@[0] != "i32"@[0]);
            assert("u64"@[0] != "i64"@[0]);
            assert("u64"@.len() != "u8"@.len());
            assert("u64"@[1] != "u16"@[1]);
            assert("u64"@[1] != "u32"@[1]);
        },
    }
}

} // verus!
