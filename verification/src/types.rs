//! Semantic types: the result of resolving a syntactic `TypeRef`. A semantic
//! type carries handles, not names, except for the display name kept beside a
//! struct handle. The reserved primitive names are recognized here, before
//! any scope is consulted, so no user-defined name can shadow a primitive.

use vstd::prelude::*;

use crate::ast::TypeRef;
use crate::names::{GlobalStr, StructId, TraitId};
use crate::names::{NAME_BOOL, NAME_CHAR, NAME_F16, NAME_F32, NAME_F64, NAME_I16, NAME_I32,
    NAME_I64, NAME_I8, NAME_ISIZE, NAME_NEVER, NAME_STR, NAME_U16, NAME_U32, NAME_U64, NAME_U8,
    NAME_USIZE, NAME_VOID};

verus! {

/// A resolved type. Every variant but `PrimitiveNever` carries how many
/// references wrap it.
#[derive(Debug)]
pub enum Type {
    PrimitiveNever,
    PrimitiveVoid(u8),
    PrimitiveBool(u8),
    PrimitiveChar(u8),
    PrimitiveStr(u8),
    PrimitiveI8(u8),
    PrimitiveI16(u8),
    PrimitiveI32(u8),
    PrimitiveI64(u8),
    PrimitiveISize(u8),
    PrimitiveU8(u8),
    PrimitiveU16(u8),
    PrimitiveU32(u8),
    PrimitiveU64(u8),
    PrimitiveUSize(u8),
    PrimitiveF16(u8),
    PrimitiveF32(u8),
    PrimitiveF64(u8),
    /// A resolved struct: handle into the typed struct table.
    Struct { struct_id: StructId, name: GlobalStr, num_references: u8 },
    /// A type parameter that is in scope and carries no bounds.
    Generic(GlobalStr, u8),
    /// A type parameter promoted to its trait bounds.
    Trait { trait_refs: Vec<TraitId>, num_references: u8, real_name: GlobalStr },
    UnsizedArray { typ: Box<Type>, num_references: u8 },
    SizedArray { typ: Box<Type>, num_references: u8, number_elements: usize },
}

/// The primitive type a reserved name denotes, under `refs` references. The
/// never type is only a primitive bare: a reference to `!` is not a type.
pub open spec fn spec_primitive_of_name(n: GlobalStr, refs: u8) -> Option<Type> {
    if n == NAME_STR {
        Some(Type::PrimitiveStr(refs))
    } else if n == NAME_BOOL {
        Some(Type::PrimitiveBool(refs))
    } else if n == NAME_CHAR {
        Some(Type::PrimitiveChar(refs))
    } else if n == NAME_VOID {
        Some(Type::PrimitiveVoid(refs))
    } else if n == NAME_I8 {
        Some(Type::PrimitiveI8(refs))
    } else if n == NAME_I16 {
        Some(Type::PrimitiveI16(refs))
    } else if n == NAME_I32 {
        Some(Type::PrimitiveI32(refs))
    } else if n == NAME_I64 {
        Some(Type::PrimitiveI64(refs))
    } else if n == NAME_ISIZE {
        Some(Type::PrimitiveISize(refs))
    } else if n == NAME_U8 {
        Some(Type::PrimitiveU8(refs))
    } else if n == NAME_U16 {
        Some(Type::PrimitiveU16(refs))
    } else if n == NAME_U32 {
        Some(Type::PrimitiveU32(refs))
    } else if n == NAME_U64 {
        Some(Type::PrimitiveU64(refs))
    } else if n == NAME_USIZE {
        Some(Type::PrimitiveUSize(refs))
    } else if n == NAME_F16 {
        Some(Type::PrimitiveF16(refs))
    } else if n == NAME_F32 {
        Some(Type::PrimitiveF32(refs))
    } else if n == NAME_F64 {
        Some(Type::PrimitiveF64(refs))
    } else if n == NAME_NEVER {
        if refs == 0 {
            Some(Type::PrimitiveNever)
        } else {
            None
        }
    } else {
        None
    }
}

/// The primitive type a `TypeRef` denotes, if it denotes one: `void` and `!`
/// nodes directly, and a single unqualified segment bearing a reserved name.
pub open spec fn spec_resolve_primitive(t: TypeRef) -> Option<Type> {
    match t {
        TypeRef::Void(_, refs) => Some(Type::PrimitiveVoid(refs)),
        TypeRef::Never(_) => Some(Type::PrimitiveNever),
        TypeRef::Reference { num_references, type_path, .. } => {
            if type_path.entries@.len() == 1 && type_path.entries@[0].generic_args@.len() == 0 {
                spec_primitive_of_name(type_path.entries@[0].name, num_references)
            } else {
                None
            }
        },
        _ => None,
    }
}

/// The primitive type a reserved name denotes, under `refs` references.
pub fn primitive_of_name(n: GlobalStr, refs: u8) -> (r: Option<Type>)
    ensures
        r == spec_primitive_of_name(n, refs),
{
    if n == NAME_STR {
        Some(Type::PrimitiveStr(refs))
    } else if n == NAME_BOOL {
        Some(Type::PrimitiveBool(refs))
    } else if n == NAME_CHAR {
        Some(Type::PrimitiveChar(refs))
    } else if n == NAME_VOID {
        Some(Type::PrimitiveVoid(refs))
    } else if n == NAME_I8 {
        Some(Type::PrimitiveI8(refs))
    } else if n == NAME_I16 {
        Some(Type::PrimitiveI16(refs))
    } else if n == NAME_I32 {
        Some(Type::PrimitiveI32(refs))
    } else if n == NAME_I64 {
        Some(Type::PrimitiveI64(refs))
    } else if n == NAME_ISIZE {
        Some(Type::PrimitiveISize(refs))
    } else if n == NAME_U8 {
        Some(Type::PrimitiveU8(refs))
    } else if n == NAME_U16 {
        Some(Type::PrimitiveU16(refs))
    } else if n == NAME_U32 {
        Some(Type::PrimitiveU32(refs))
    } else if n == NAME_U64 {
        Some(Type::PrimitiveU64(refs))
    } else if n == NAME_USIZE {
        Some(Type::PrimitiveUSize(refs))
    } else if n == NAME_F16 {
        Some(Type::PrimitiveF16(refs))
    } else if n == NAME_F32 {
        Some(Type::PrimitiveF32(refs))
    } else if n == NAME_F64 {
        Some(Type::PrimitiveF64(refs))
    } else if n == NAME_NEVER {
        if refs == 0 {
            Some(Type::PrimitiveNever)
        } else {
            None
        }
    } else {
        None
    }
}

/// Recognizes the primitive a `TypeRef` denotes, if any. Both resolvers call
/// this first, so primitives always win over user-defined names.
pub fn resolve_primitive_type(t: &TypeRef) -> (r: Option<Type>)
    ensures
        r == spec_resolve_primitive(*t),
{
    match t {
        TypeRef::Void(_, refs) => Some(Type::PrimitiveVoid(*refs)),
        TypeRef::Never(_) => Some(Type::PrimitiveNever),
        TypeRef::Reference { num_references, type_path, .. } => {
            if type_path.entries.len() == 1 {
                let seg = &type_path.entries[0];
                if seg.generic_args.len() == 0 {
                    primitive_of_name(seg.name, *num_references)
                } else {
                    None
                }
            } else {
                None
            }
        },
        _ => None,
    }
}

} // verus!
