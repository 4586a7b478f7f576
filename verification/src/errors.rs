//! The errors the core reports: program-forming errors from module assembly
//! and typechecking errors from name, import and type resolution. Parsing
//! errors live with the token model.

use vstd::prelude::*;

use crate::context::ModuleScopeValue;
use crate::names::{GlobalStr, Location};

verus! {

/// What kind of item a scope value refers to.
pub open spec fn scope_kind_of(v: ModuleScopeValue) -> ScopeKind {
    match v {
        ModuleScopeValue::Trait(_) => ScopeKind::Trait,
        ModuleScopeValue::Struct(_) => ScopeKind::Type,
        ModuleScopeValue::Static(_) => ScopeKind::Static,
        ModuleScopeValue::Module(_) => ScopeKind::Module,
        ModuleScopeValue::Function(_) => ScopeKind::Function,
        ModuleScopeValue::ExternalFunction(_) => ScopeKind::Function,
    }
}

impl From<ModuleScopeValue> for ScopeKind {
    /// The kind of item a scope value refers to, for diagnostics.
    fn from(value: ModuleScopeValue) -> (r: Self) {
        match value {
            ModuleScopeValue::Trait(_) => ScopeKind::Trait,
            ModuleScopeValue::Struct(_) => ScopeKind::Type,
            ModuleScopeValue::Static(_) => ScopeKind::Static,
            ModuleScopeValue::Module(_) => ScopeKind::Module,
            ModuleScopeValue::Function(_) | ModuleScopeValue::ExternalFunction(_) => {
                ScopeKind::Function
            },
        }
    }
}

impl vstd::std_specs::convert::FromSpecImpl<ModuleScopeValue> for ScopeKind {
    open spec fn obeys_from_spec() -> bool {
        true
    }

    open spec fn from_spec(t: ModuleScopeValue) -> ScopeKind {
        scope_kind_of(t)
    }
}

/// Rejections raised while assembling a module from top-level statements.
#[derive(Debug, Clone, Copy, PartialEq, Eq, Structural)]
pub enum ProgramFormingError {
    AnonymousFunctionAtGlobalLevel(Location),
    IdentAlreadyDefined(Location, GlobalStr),
    IdentNotDefined(Location, GlobalStr),
    GlobalValueNoType(Location),
    GlobalValueNoLiteral(Location),
    NoCodeOutsideOfFunctions(Location),
}

/// What kind of item a scope value is, for diagnostics.
#[derive(Debug, Clone, Copy, PartialEq, Eq, Structural)]
pub enum ScopeKind {
    Trait,
    Type,
    Function,
    Static,
    Module,
}

/// Rejections raised while resolving names, imports and types.
#[derive(Debug, Clone, Copy, PartialEq, Eq, Structural)]
pub enum TypecheckingError {
    ExportNotFound { location: Location, name: GlobalStr },
    UnboundIdent { location: Location, name: GlobalStr },
    CyclicDependency { location: Location },
    MismatchingScopeType { location: Location, expected: ScopeKind, found: ScopeKind },
    RecursiveTypeDetected { location: Location },
    UnexpectedGenerics { location: Location },
    /// Trait-object types are parsed but not resolved yet; they are rejected
    /// explicitly rather than accepted silently.
    UnsupportedDynReference { location: Location },
}

} // verus!
