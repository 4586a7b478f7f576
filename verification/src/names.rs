//! Interned identifiers, dense item handles, and source locations.
//!
//! Identifiers are process-wide interned strings; inside the core they are
//! nothing but their intern id, with cheap equality, hashing and a stable
//! order. The id `NAME_ZERO` is a distinguished placeholder used only while a
//! slot is under construction. The eighteen reserved type names receive the
//! fixed ids `NAME_STR ..= NAME_NEVER`, so that the resolvers can recognize a
//! primitive by id alone; the interner that assigns ids to source text lives
//! with the driver, seeded with these reserved names.

use vstd::prelude::*;

verus! {

/// An interned identifier: its intern id.
pub type GlobalStr = u64;

/// Handle of a module in the dense module table.
pub type ModuleId = usize;

/// Handle of a struct in the dense struct table.
pub type StructId = usize;

/// Handle of a trait in the dense trait table.
pub type TraitId = usize;

/// Handle of a function in the dense function table.
pub type FunctionId = usize;

/// Handle of a static in the dense static table.
pub type StaticId = usize;

/// Placeholder identifier used only during construction.
pub const NAME_ZERO: GlobalStr = 0;

/// Reserved type name `str`.
pub const NAME_STR: GlobalStr = 1;

/// Reserved type name `bool`.
pub const NAME_BOOL: GlobalStr = 2;

/// Reserved type name `char`.
pub const NAME_CHAR: GlobalStr = 3;

/// Reserved type name `void`.
pub const NAME_VOID: GlobalStr = 4;

/// Reserved type name `i8`.
pub const NAME_I8: GlobalStr = 5;

/// Reserved type name `i16`.
pub const NAME_I16: GlobalStr = 6;

/// Reserved type name `i32`.
pub const NAME_I32: GlobalStr = 7;

/// Reserved type name `i64`.
pub const NAME_I64: GlobalStr = 8;

/// Reserved type name `isize`.
pub const NAME_ISIZE: GlobalStr = 9;

/// Reserved type name `u8`.
pub const NAME_U8: GlobalStr = 10;

/// Reserved type name `u16`.
pub const NAME_U16: GlobalStr = 11;

/// Reserved type name `u32`.
pub const NAME_U32: GlobalStr = 12;

/// Reserved type name `u64`.
pub const NAME_U64: GlobalStr = 13;

/// Reserved type name `usize`.
pub const NAME_USIZE: GlobalStr = 14;

/// Reserved type name `f16`.
pub const NAME_F16: GlobalStr = 15;

/// Reserved type name `f32`.
pub const NAME_F32: GlobalStr = 16;

/// Reserved type name `f64`.
pub const NAME_F64: GlobalStr = 17;

/// Reserved type name `!`.
pub const NAME_NEVER: GlobalStr = 18;

/// First id the interner may hand out for ordinary source identifiers.
pub const NAME_FIRST_FREE: GlobalStr = 19;

/// True of the ids that stand for reserved type names.
pub open spec fn is_reserved_name(n: GlobalStr) -> bool {
    NAME_STR <= n <= NAME_NEVER
}

/// A source position: file identity (an interned file name), line and column.
#[derive(Clone, Copy, Debug, PartialEq, Eq, Hash, Structural)]
pub struct Location {
    pub file: u64,
    pub line: u32,
    pub column: u32,
}

/// The sentinel location meaning "slot reserved but not yet populated".
pub open spec fn dummy_location() -> Location {
    Location { file: 0, line: 0, column: 0 }
}

impl Location {
    /// Builds the sentinel location.
    pub fn dummy() -> (l: Location)
        ensures
            l == dummy_location(),
    {
        Location { file: 0, line: 0, column: 0 }
    }

    /// True of the sentinel location.
    pub open spec fn is_dummy(self) -> bool {
        self == dummy_location()
    }
}

} // verus!
