//! The scalar type system that path parameters and inline extractor fields
//! may reference, and the parsing of its type tokens.

use vstd::prelude::*;

use crate::text::str_eq;

verus! {

/// A reference to a known scalar type of the target type system.
#[derive(Clone, Copy, Debug, PartialEq, Eq, Structural)]
pub enum TypeRef {
    Str,
    Boolean,
    Int8,
    Int16,
    Int32,
    Int64,
    UInt8,
    UInt16,
    UInt32,
    UInt64,
}

/// The canonical token that denotes a scalar type inside a path template,
/// as in `{val:int32}`.
pub open spec fn type_token(t: TypeRef) -> Seq<char> {
    match t {
        TypeRef::Str => "String"@,
        TypeRef::Boolean => "bool"@,
        TypeRef::Int8 => "int8"@,
        TypeRef::Int16 => "int16"@,
        TypeRef::Int32 => "int32"@,
        TypeRef::Int64 => "int64"@,
        TypeRef::UInt8 => "uint8"@,
        TypeRef::UInt16 => "uint16"@,
        TypeRef::UInt32 => "uint32"@,
        TypeRef::UInt64 => "uint64"@,
    }
}

/// Resolves a type token to the scalar type it names, or `None` when the
/// token is unknown.
pub open spec fn lookup_type(tok: Seq<char>) -> Option<TypeRef> {
    if tok == "String"@ {
        Some(TypeRef::Str)
    } else if tok == "bool"@ {
        Some(TypeRef::Boolean)
    } else if tok == "int8"@ {
        Some(TypeRef::Int8)
    } else if tok == "int16"@ {
        Some(TypeRef::Int16)
    } else if tok == "int32"@ {
        Some(TypeRef::Int32)
    } else if tok == "int64"@ {
        Some(TypeRef::Int64)
    } else if tok == "uint8"@ {
        Some(TypeRef::UInt8)
    } else if tok == "uint16"@ {
        Some(TypeRef::UInt16)
    } else if tok == "uint32"@ {
        Some(TypeRef::UInt32)
    } else if tok == "uint64"@ {
        Some(TypeRef::UInt64)
    } else {
        None
    }
}

/// Each scalar type is named by its own token: resolving the canonical token
/// of a type gives back exactly that type.
pub proof fn lemma_type_token_round_trip(t: TypeRef)
    ensures
        lookup_type(type_token(t)) == Some(t),
{
    reveal_strlit("String");
    reveal_strlit("bool");
    reveal_strlit("int8");
    reveal_strlit("int16");
    reveal_strlit("int32");
    reveal_strlit("int64");
    reveal_strlit("uint8");
    reveal_strlit("uint16");
    reveal_strlit("uint32");
    reveal_strlit("uint64");
    assert("String"@.len() == 6);
    assert("bool"@.len() == 4);
    assert("int8"@.len() == 4);
    assert("int16"@.len() == 5);
    assert("int32"@.len() == 5);
    assert("int64"@.len() == 5);
    assert("uint8"@.len() == 5);
    assert("uint16"@.len() == 6);
    assert("uint32"@.len() == 6);
    assert("uint64"@.len() == 6);
    assert("bool"@[0] == 'b');
    assert("int8"@[0] == 'i');
    assert("int16"@[0] == 'i');
    assert("int32"@[0] == 'i');
    assert("int64"@[0] == 'i');
    assert("uint8"@[0] == 'u');
    assert("String"@[0] == 'S');
    assert("uint16"@[0] == 'u');
    assert("uint32"@[0] == 'u');
    assert("uint64"@[0] == 'u');
    assert("int16"@[3] == '1');
    assert("int32"@[3] == '3');
    assert("int64"@[3] == '6');
    assert("uint16"@[4] == '1');
    assert("uint32"@[4] == '3');
    assert("uint64"@[4] == '6');
    match t {
        TypeRef::Str => {
            assert(lookup_type(type_token(t)) == Some(t));
        },
        TypeRef::Boolean => {
            assert(lookup_type(type_token(t)) == Some(t));
        },
        TypeRef::Int8 => {
            assert(lookup_type(type_token(t)) == Some(t));
        },
        TypeRef::Int16 => {
            assert(lookup_type(type_token(t)) == Some(t));
        },
        TypeRef::Int32 => {
            assert(lookup_type(type_token(t)) == Some(t));
        },
        TypeRef::Int64 => {
            assert(lookup_type(type_token(t)) == Some(t));
        },
        TypeRef::UInt8 => {
            assert(lookup_type(type_token(t)) == Some(t));
        },
        TypeRef::UInt16 => {
            assert(lookup_type(type_token(t)) == Some(t));
        },
        TypeRef::UInt32 => {
            assert(lookup_type(type_token(t)) == Some(t));
        },
        TypeRef::UInt64 => {
            assert(lookup_type(type_token(t)) == Some(t));
        },
    }
}

/// No canonical token contains a character that is special inside a path
/// template parameter.
pub proof fn lemma_token_chars(t: TypeRef)
    ensures
        forall|j: int|
            0 <= j < type_token(t).len() ==> type_token(t)[j] != '{' && type_token(t)[j] != ':'
                && type_token(t)[j] != '}',
{
    reveal_strlit("String");
    reveal_strlit("bool");
    reveal_strlit("int8");
    reveal_strlit("int16");
    reveal_strlit("int32");
    reveal_strlit("int64");
    reveal_strlit("uint8");
    reveal_strlit("uint16");
    reveal_strlit("uint32");
    reveal_strlit("uint64");
}

/// A token that resolves to a scalar type is that type's canonical token.
pub proof fn lemma_lookup_token(tok: Seq<char>, t: TypeRef)
    requires
        lookup_type(tok) == Some(t),
    ensures
        type_token(t) == tok,
{
}

/// Parses a type token, resolving it in the known scalar type system.
pub fn parse_type_token(tok: &str) -> (r: Option<TypeRef>)
    ensures
        r == lookup_type(tok@),
{
    if str_eq(tok, "String") {
        Some(TypeRef::Str)
    } else if str_eq(tok, "bool") {
        Some(TypeRef::Boolean)
    } else if str_eq(tok, "int8") {
        Some(TypeRef::Int8)
    } else if str_eq(tok, "int16") {
        Some(TypeRef::Int16)
    } else if str_eq(tok, "int32") {
        Some(TypeRef::Int32)
    } else if str_eq(tok, "int64") {
        Some(TypeRef::Int64)
    } else if str_eq(tok, "uint8") {
        Some(TypeRef::UInt8)
    } else if str_eq(tok, "uint16") {
        Some(TypeRef::UInt16)
    } else if str_eq(tok, "uint32") {
        Some(TypeRef::UInt32)
    } else if str_eq(tok, "uint64") {
        Some(TypeRef::UInt64)
    } else {
        None
    }
}

/// The canonical token of a scalar type, as an executable string.
pub fn token_string(t: TypeRef) -> (r: &'static str)
    ensures
        r@ == type_token(t),
{
    match t {
        TypeRef::Str => "String",
        TypeRef::Boolean => "bool",
        TypeRef::Int8 => "int8",
        TypeRef::Int16 => "int16",
        TypeRef::Int32 => "int32",
        TypeRef::Int64 => "int64",
        TypeRef::UInt8 => "uint8",
        TypeRef::UInt16 => "uint16",
        TypeRef::UInt32 => "uint32",
        TypeRef::UInt64 => "uint64",
    }
}

} // verus!
