//! The untyped world that the parser phase populates and resolution reads:
//! per-module scopes, exports and imports, and the dense per-kind item
//! tables, all cross-referenced by handles.

use vstd::prelude::*;

use crate::ast::{Annotations, FunctionContract, Generic, LiteralValue, Statement, TypeRef};
use crate::names::{FunctionId, GlobalStr, Location, ModuleId, StaticId, StructId, TraitId};
use crate::strmap::SMap;

verus! {

/// A tagged reference to any named top-level item, across all modules.
#[derive(Debug, Clone, Copy, PartialEq, Eq, Structural)]
pub enum ModuleScopeValue {
    Module(ModuleId),
    Struct(StructId),
    Trait(TraitId),
    Function(FunctionId),
    ExternalFunction(FunctionId),
    Static(StaticId),
}

/// An import entry: where it was written, the module imported from, and the
/// path walked inside that module.
pub type ImportEntry = (Location, ModuleId, Vec<GlobalStr>);

/// A module as the parser phase leaves it.
#[derive(Debug)]
pub struct UntypedModule {
    /// What each name defined in the module refers to.
    pub scope: SMap<ModuleScopeValue>,
    /// Exposed name to defined name.
    pub exports: SMap<GlobalStr>,
    /// Imported name to import entry.
    pub imports: SMap<ImportEntry>,
    /// The module's file, interned.
    pub path: u64,
    /// The root the module was found under, interned.
    pub root: u64,
}

/// A struct as resolution finds it: fields still syntactic, impl members
/// already baked to function handles.
#[derive(Debug)]
pub struct UntypedStruct {
    pub name: GlobalStr,
    pub elements: Vec<(GlobalStr, TypeRef)>,
    pub location: Location,
    pub global_impl: SMap<FunctionId>,
    pub annotations: Annotations,
    pub module_id: ModuleId,
    pub generics: Vec<Generic>,
}

/// A trait as the parser phase leaves it.
#[derive(Debug)]
pub struct UntypedTrait {
    pub name: GlobalStr,
    pub location: Location,
    pub module_id: ModuleId,
    pub annotations: Annotations,
}

/// The whole untyped world: modules plus one dense table per item kind.
#[derive(Debug)]
pub struct ModuleContext {
    pub modules: Vec<UntypedModule>,
    pub structs: Vec<UntypedStruct>,
    pub traits: Vec<UntypedTrait>,
    pub functions: Vec<(FunctionContract, Statement)>,
    pub external_functions: Vec<FunctionContract>,
    pub statics: Vec<(TypeRef, LiteralValue, ModuleId, Location, Annotations)>,
}

impl ModuleContext {
    /// An empty world.
    pub fn new() -> (r: Self)
        ensures
            r.modules@.len() == 0,
            r.structs@.len() == 0,
            r.traits@.len() == 0,
            r.functions@.len() == 0,
            r.external_functions@.len() == 0,
            r.statics@.len() == 0,
    {
        ModuleContext {
            modules: Vec::new(),
            structs: Vec::new(),
            traits: Vec::new(),
            functions: Vec::new(),
            external_functions: Vec::new(),
            statics: Vec::new(),
        }
    }

    /// The handle a scope value carries points into its table.
    pub open spec fn valid_value(self, v: ModuleScopeValue) -> bool {
        match v {
            ModuleScopeValue::Module(id) => id < self.modules@.len(),
            ModuleScopeValue::Struct(id) => id < self.structs@.len(),
            ModuleScopeValue::Trait(id) => id < self.traits@.len(),
            ModuleScopeValue::Function(id) => id < self.functions@.len(),
            ModuleScopeValue::ExternalFunction(id) => id < self.external_functions@.len(),
            ModuleScopeValue::Static(id) => id < self.statics@.len(),
        }
    }

    /// A module's tables are well formed and point into this world.
    pub open spec fn module_wf(self, m: UntypedModule) -> bool {
        &&& m.scope.wf()
        &&& m.exports.wf()
        &&& m.imports.wf()
        &&& forall|k: u64| m.scope@.contains_key(k) ==> self.valid_value(#[trigger] m.scope@[k])
        &&& forall|k: u64|
            m.imports@.contains_key(k) ==> (#[trigger] m.imports@[k]).1 < self.modules@.len()
    }

    /// A struct entry's tables are well formed and point into this world.
    pub open spec fn struct_wf(self, s: UntypedStruct) -> bool {
        &&& s.global_impl.wf()
        &&& s.module_id < self.modules@.len()
        &&& forall|k: u64|
            s.global_impl@.contains_key(k) ==> (#[trigger] s.global_impl@[k])
                < self.functions@.len()
    }

    /// The whole world is well formed: every module and struct entry is.
    pub open spec fn wf(self) -> bool {
        &&& forall|i: int|
            0 <= i < self.modules@.len() ==> self.module_wf(#[trigger] self.modules@[i])
        &&& forall|i: int|
            0 <= i < self.structs@.len() ==> self.struct_wf(#[trigger] self.structs@[i])
    }
}

} // verus!
