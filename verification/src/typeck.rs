//! The typed world and the resolution phase that populates it.
//!
//! `TypecheckingContext::new` pre-allocates every typed table at the exact
//! length of its untyped counterpart, so handles carry over unchanged.
//! Struct slots are an explicit three-state machine — vacant, in progress,
//! resolved — and meeting an in-progress slot while resolving a field with
//! no references is exactly what a recursive value type is.

use vstd::pervasive::VecAdditionalExecFns;
use vstd::prelude::*;

use crate::ast::{Annotations, TypeRef};
use crate::context::{ModuleContext, ModuleScopeValue};
use crate::errors::{ScopeKind, TypecheckingError};
use crate::names::{dummy_location, FunctionId, GlobalStr, Location, ModuleId, StructId, TraitId, NAME_ZERO};
use crate::resolve::{home_simple_lookup, resolve_import, simple_import_outcome};
use crate::strmap::SMap;
use crate::types::{resolve_primitive_type, spec_resolve_primitive, Type};

verus! {

/// A function contract with every type resolved.
#[derive(Debug)]
pub struct TypecheckedFunctionContract {
    pub name: Option<GlobalStr>,
    pub arguments: Vec<(GlobalStr, Type)>,
    pub return_type: Type,
    pub annotations: Annotations,
    pub location: Location,
    pub module_id: ModuleId,
}

/// A typechecked expression; bodies are typechecked by a later phase, so
/// this core only ever stores empty bodies.
#[derive(Debug)]
pub enum TypecheckedExpression {
    Nop,
}

/// A literal lowered into the typed world.
#[derive(Debug, Clone, Copy, PartialEq, Eq, Structural)]
pub enum TypedLiteral {
    Void,
    UInt(u64),
    SInt(i64),
    Bool(bool),
    Str(GlobalStr),
}

/// A trait with every member signature resolved.
#[derive(Debug)]
pub struct TypedTrait {
    pub name: GlobalStr,
    pub functions: Vec<(GlobalStr, Vec<(GlobalStr, Type)>, Type, Annotations, Location)>,
    pub location: Location,
    pub module_id: ModuleId,
    pub id: TraitId,
    pub annotations: Annotations,
}

/// A struct with every field type resolved.
#[derive(Debug)]
pub struct TypedStruct {
    pub name: GlobalStr,
    pub elements: Vec<(GlobalStr, Type)>,
    pub location: Location,
    pub global_impl: SMap<FunctionId>,
    pub trait_impl: SMap<Vec<FunctionId>>,
    pub annotations: Annotations,
    pub module_id: ModuleId,
    pub id: StructId,
    pub generics: Vec<(GlobalStr, Vec<TraitId>)>,
}

/// One slot of the typed struct table: not started, being resolved on the
/// current walk, or done.
#[derive(Debug)]
pub enum StructSlot {
    Vacant,
    InProgress,
    Resolved(TypedStruct),
}

/// A module in the typed world; imports are already resolved into `scope`.
#[derive(Debug)]
pub struct TypecheckedModule {
    pub scope: SMap<ModuleScopeValue>,
    pub exports: SMap<GlobalStr>,
    pub path: u64,
    pub root: u64,
}

/// Language items recognized by the compiler, filled by a later phase.
#[derive(Debug)]
pub struct LangItems {
    pub entries: SMap<ModuleScopeValue>,
}

/// The typed world: one dense table per item kind, parallel to the untyped
/// world's tables.
#[derive(Debug)]
pub struct TypecheckingContext {
    pub modules: Vec<TypecheckedModule>,
    pub functions: Vec<(TypecheckedFunctionContract, Vec<TypecheckedExpression>)>,
    pub external_functions: Vec<(TypecheckedFunctionContract, Option<Vec<TypecheckedExpression>>)>,
    pub statics: Vec<(Type, TypedLiteral, ModuleId, Location, Annotations)>,
    pub structs: Vec<StructSlot>,
    pub traits: Vec<TypedTrait>,
    pub lang_items: LangItems,
}

/// How many slots of a struct table are still vacant.
pub open spec fn vacant_count(slots: Seq<StructSlot>) -> nat
    decreases slots.len(),
{
    if slots.len() == 0 {
        0
    } else {
        vacant_count(slots.drop_last()) + (if slots.last() is Vacant {
            1nat
        } else {
            0nat
        })
    }
}

/// A freshly resolved slot agrees with its untyped entry: same name, module
/// and handle, the entry's real location (a resolved slot never keeps the
/// construction sentinel), the untyped impl table unchanged, and one typed
/// generic per untyped one, in order, under its name.
pub open spec fn typed_matches(ctx: ModuleContext, j: int, ts: TypedStruct) -> bool {
    &&& ts.name == ctx.structs@[j].name
    &&& ts.module_id == ctx.structs@[j].module_id
    &&& ts.id == j
    &&& ts.location == ctx.structs@[j].location
    &&& ts.global_impl@ == ctx.structs@[j].global_impl@
    &&& ts.generics@.len() == ctx.structs@[j].generics@.len()
    &&& forall|g: int|
        0 <= g < ts.generics@.len() ==> (#[trigger] ts.generics@[g]).0
            == ctx.structs@[j].generics@[g].name
}

/// Resolution only ever advances a slot: it leaves it alone, or takes a
/// vacant one to resolved, agreeing with the untyped entry.
pub open spec fn slots_advance(
    ctx: ModuleContext,
    old_s: Seq<StructSlot>,
    new_s: Seq<StructSlot>,
) -> bool {
    &&& new_s.len() == old_s.len()
    &&& forall|j: int|
        0 <= j < old_s.len() ==> (#[trigger] new_s[j] == old_s[j] || (old_s[j] is Vacant
            && (new_s[j] matches StructSlot::Resolved(ts) && typed_matches(ctx, j, ts))))
}

/// No slot is in progress, and every resolved one agrees with its untyped
/// entry; this holds between walks.
pub open spec fn slots_ok(ctx: ModuleContext, slots: Seq<StructSlot>) -> bool {
    forall|j: int|
        0 <= j < slots.len() ==> ((#[trigger] slots[j]) is Vacant || (slots[j]
            matches StructSlot::Resolved(ts) && typed_matches(ctx, j, ts)))
}

proof fn lemma_vacant_count_update(slots: Seq<StructSlot>, i: int, v: StructSlot)
    requires
        0 <= i < slots.len(),
    ensures
        vacant_count(slots.update(i, v)) == vacant_count(slots) - (if slots[i] is Vacant {
            1int
        } else {
            0
        }) + (if v is Vacant {
            1int
        } else {
            0
        }),
    decreases slots.len(),
{
    let upd = slots.update(i, v);
    if i == slots.len() - 1 {
        assert(upd.drop_last() =~= slots.drop_last());
        assert(upd.last() == v);
    } else {
        assert(upd.drop_last() =~= slots.drop_last().update(i, v));
        assert(upd.last() == slots.last());
        lemma_vacant_count_update(slots.drop_last(), i, v);
    }
}

impl TypecheckingContext {
    /// Every typed table has exactly the length of its untyped counterpart.
    pub open spec fn mirrors(self, ctx: ModuleContext) -> bool {
        &&& self.modules@.len() == ctx.modules@.len()
        &&& self.structs@.len() == ctx.structs@.len()
        &&& self.traits@.len() == ctx.traits@.len()
        &&& self.functions@.len() == ctx.functions@.len()
        &&& self.external_functions@.len() == ctx.external_functions@.len()
        &&& self.statics@.len() == ctx.statics@.len()
    }

    /// The handle a scope value carries points into this typed world.
    pub open spec fn valid_value(self, v: ModuleScopeValue) -> bool {
        match v {
            ModuleScopeValue::Module(id) => id < self.modules@.len(),
            ModuleScopeValue::Struct(id) => id < self.structs@.len(),
            ModuleScopeValue::Trait(id) => id < self.traits@.len(),
            ModuleScopeValue::Function(id) => id < self.functions@.len(),
            ModuleScopeValue::ExternalFunction(id) => id < self.external_functions@.len(),
            ModuleScopeValue::Static(id) => id < self.statics@.len(),
        }
    }

    /// Modules and resolved structs are well formed and point into this
    /// world.
    pub open spec fn wf(self) -> bool {
        &&& forall|i: int|
            0 <= i < self.modules@.len() ==> {
                let m = #[trigger] self.modules@[i];
                &&& m.scope.wf()
                &&& m.exports.wf()
                &&& forall|k: u64|
                    m.scope@.contains_key(k) ==> self.valid_value(#[trigger] m.scope@[k])
            }
        &&& forall|i: int|
            0 <= i < self.structs@.len() ==> ((#[trigger] self.structs@[i])
                matches StructSlot::Resolved(ts) ==> ts.global_impl.wf() && (forall|k: u64|
                ts.global_impl@.contains_key(k) ==> (#[trigger] ts.global_impl@[k])
                    < self.functions@.len()))
    }

    /// Builds the typed world for an untyped one: every table pre-allocated
    /// at its untyped length, every struct slot vacant, and every module
    /// seeded with its untyped scope and exports.
    pub fn new(context: &ModuleContext) -> (r: Self)
        requires
            context.wf(),
        ensures
            r.mirrors(*context),
            r.wf(),
            slots_ok(*context, r.structs@),
            forall|i: int| 0 <= i < r.structs@.len() ==> (#[trigger] r.structs@[i]) is Vacant,
            forall|i: int|
                0 <= i < r.functions@.len() ==> {
                    let f = #[trigger] r.functions@[i];
                    &&& f.0.name is None
                    &&& f.0.location == dummy_location()
                    &&& f.0.module_id == 0
                    &&& f.1@.len() == 0
                },
            forall|i: int|
                0 <= i < r.external_functions@.len() ==> {
                    let f = #[trigger] r.external_functions@[i];
                    &&& f.0.name is None
                    &&& f.0.location == dummy_location()
                    &&& f.0.module_id == 0
                    &&& f.1 is None
                },
            forall|i: int|
                0 <= i < r.statics@.len() ==> {
                    let s = #[trigger] r.statics@[i];
                    &&& s.0 is PrimitiveNever
                    &&& s.1 == TypedLiteral::Void
                    &&& s.2 == 0
                    &&& s.3 == dummy_location()
                },
            forall|i: int|
                0 <= i < r.traits@.len() ==> {
                    let t = #[trigger] r.traits@[i];
                    &&& t.name == NAME_ZERO
                    &&& t.location == dummy_location()
                    &&& t.module_id == 0
                    &&& t.functions@.len() == 0
                },
            forall|i: int|
                0 <= i < r.modules@.len() ==> {
                    let m = #[trigger] r.modules@[i];
                    &&& m.scope@ == context.modules@[i].scope@
                    &&& m.exports@ == context.modules@[i].exports@
                    &&& m.path == context.modules@[i].path
                    &&& m.root == context.modules@[i].root
                },
    {
        let num_structs = context.structs.len();
        let num_statics = context.statics.len();
        let num_functions = context.functions.len();
        let num_external_functions = context.external_functions.len();
        let num_traits = context.traits.len();

        let mut structs: Vec<StructSlot> = Vec::new();
        let mut i: usize = 0;
        while i < num_structs
            invariant
                i <= num_structs,
                structs@.len() == i,
                forall|j: int| 0 <= j < i ==> (#[trigger] structs@[j]) is Vacant,
            decreases num_structs - i,
        {
            structs.push(StructSlot::Vacant);
            i += 1;
        }

        let mut statics: Vec<(Type, TypedLiteral, ModuleId, Location, Annotations)> = Vec::new();
        let mut i: usize = 0;
        while i < num_statics
            invariant
                i <= num_statics,
                statics@.len() == i,
                forall|j: int|
                    0 <= j < i ==> {
                        let s = #[trigger] statics@[j];
                        &&& s.0 is PrimitiveNever
                        &&& s.1 == TypedLiteral::Void
                        &&& s.2 == 0
                        &&& s.3 == dummy_location()
                    },
            decreases num_statics - i,
        {
            statics.push(
                (Type::PrimitiveNever, TypedLiteral::Void, 0, Location::dummy(), Annotations::new()),
            );
            i += 1;
        }

        let mut functions: Vec<(TypecheckedFunctionContract, Vec<TypecheckedExpression>)> =
            Vec::new();
        let mut i: usize = 0;
        while i < num_functions
            invariant
                i <= num_functions,
                functions@.len() == i,
                forall|j: int|
                    0 <= j < i ==> {
                        let f = #[trigger] functions@[j];
                        &&& f.0.name is None
                        &&& f.0.location == dummy_location()
                        &&& f.0.module_id == 0
                        &&& f.1@.len() == 0
                    },
            decreases num_functions - i,
        {
            functions.push(
                (
                    TypecheckedFunctionContract {
                        name: None,
                        arguments: Vec::new(),
                        return_type: Type::PrimitiveNever,
                        annotations: Annotations::new(),
                        location: Location::dummy(),
                        module_id: 0,
                    },
                    Vec::new(),
                ),
            );
            i += 1;
        }

        let mut external_functions: Vec<
            (TypecheckedFunctionContract, Option<Vec<TypecheckedExpression>>),
        > = Vec::new();
        let mut i: usize = 0;
        while i < num_external_functions
            invariant
                i <= num_external_functions,
                external_functions@.len() == i,
                forall|j: int|
                    0 <= j < i ==> {
                        let f = #[trigger] external_functions@[j];
                        &&& f.0.name is None
                        &&& f.0.location == dummy_location()
                        &&& f.0.module_id == 0
                        &&& f.1 is None
                    },
            decreases num_external_functions - i,
        {
            external_functions.push(
                (
                    TypecheckedFunctionContract {
                        name: None,
                        arguments: Vec::new(),
                        return_type: Type::PrimitiveNever,
                        annotations: Annotations::new(),
                        location: Location::dummy(),
                        module_id: 0,
                    },
                    None,
                ),
            );
            i += 1;
        }

        let mut traits: Vec<TypedTrait> = Vec::new();
        let mut i: usize = 0;
        while i < num_traits
            invariant
                i <= num_traits,
                traits@.len() == i,
                forall|j: int|
                    0 <= j < i ==> {
                        let t = #[trigger] traits@[j];
                        &&& t.name == NAME_ZERO
                        &&& t.location == dummy_location()
                        &&& t.module_id == 0
                        &&& t.functions@.len() == 0
                    },
            decreases num_traits - i,
        {
            traits.push(
                TypedTrait {
                    name: NAME_ZERO,
                    functions: Vec::new(),
                    location: Location::dummy(),
                    module_id: 0,
                    id: 0,
                    annotations: Annotations::new(),
                },
            );
            i += 1;
        }

        let num_modules = context.modules.len();
        let mut modules: Vec<TypecheckedModule> = Vec::new();
        let mut i: usize = 0;
        while i < num_modules
            invariant
                context.wf(),
                i <= num_modules,
                num_modules == context.modules@.len(),
                modules@.len() == i,
                forall|j: int|
                    0 <= j < i ==> {
                        let m = #[trigger] modules@[j];
                        &&& m.scope@ == context.modules@[j].scope@
                        &&& m.scope.wf()
                        &&& m.exports.wf()
                        &&& m.exports@ == context.modules@[j].exports@
                        &&& m.path == context.modules@[j].path
                        &&& m.root == context.modules@[j].root
                        &&& forall|k: u64|
                            m.scope@.contains_key(k) ==> context.valid_value(
                                #[trigger] m.scope@[k],
                            )
                    },
            decreases num_modules - i,
        {
            proof {
                assert(context.module_wf(context.modules@[i as int]));
            }
            let src = &context.modules[i];
            let m = TypecheckedModule {
                scope: src.scope.duplicate(),
                exports: src.exports.duplicate(),
                path: src.path,
                root: src.root,
            };
            modules.push(m);
            i += 1;
        }

        let r = TypecheckingContext {
            modules,
            functions,
            external_functions,
            statics,
            structs,
            traits,
            lang_items: LangItems { entries: SMap::new() },
        };
        proof {
            assert forall|i: int| 0 <= i < r.modules@.len() implies {
                let m = #[trigger] r.modules@[i];
                &&& m.scope.wf()
                &&& m.exports.wf()
                &&& forall|k: u64|
                    m.scope@.contains_key(k) ==> r.valid_value(#[trigger] m.scope@[k])
            } by {
                let m = r.modules@[i];
                assert forall|k: u64| m.scope@.contains_key(k) implies r.valid_value(
                    #[trigger] m.scope@[k],
                ) by {
                    assert(context.valid_value(m.scope@[k]));
                }
            }
        }
        r
    }

    /// Resolves every import of every module into the typed scopes. Each
    /// import is attempted independently; failures are collected and the
    /// rest of the world is untouched.
    pub fn resolve_imports(&mut self, context: &ModuleContext) -> (errors: Vec<
        TypecheckingError,
    >)
        requires
            context.wf(),
            old(self).wf(),
            old(self).mirrors(*context),
        ensures
            final(self).wf(),
            final(self).mirrors(*context),
            final(self).structs@ == old(self).structs@,
            final(self).functions@.len() == old(self).functions@.len(),
            forall|i: int|
                0 <= i < final(self).modules@.len() ==> {
                    let m = #[trigger] final(self).modules@[i];
                    &&& m.exports@ == old(self).modules@[i].exports@
                    &&& m.path == old(self).modules@[i].path
                    &&& m.root == old(self).modules@[i].root
                },
            forall|i: int, k: u64|
                0 <= i < final(self).modules@.len()
                    && (#[trigger] final(self).modules@[i].scope@.contains_key(k))
                    ==> old(self).modules@[i].scope@.contains_key(k)
                    || context.modules@[i].imports@.contains_key(k),
            forall|i: int, k: u64|
                0 <= i < final(self).modules@.len()
                    && (#[trigger] old(self).modules@[i].scope@.contains_key(k))
                    ==> final(self).modules@[i].scope@.contains_key(k),
            forall|i: int, k: u64|
                0 <= i < final(self).modules@.len()
                    && old(self).modules@[i].scope@.contains_key(k)
                    && !context.modules@[i].imports@.contains_key(k)
                    ==> (#[trigger] final(self).modules@[i].scope@[k])
                    == old(self).modules@[i].scope@[k],
            forall|i: int, k: u64|
                0 <= i < final(self).modules@.len() && (
                #[trigger] context.modules@[i].imports@.contains_key(k)) ==> (
                simple_import_outcome(*context, context.modules@[i].imports@[k]) matches Some(res)
                    ==> (match res {
                    Ok(v) => final(self).modules@[i].scope@.contains_key(k)
                        && final(self).modules@[i].scope@[k] == v,
                    Err(err) => errors@.contains(err),
                })),
    {
        let mut errors: Vec<TypecheckingError> = Vec::new();
        let n = self.modules.len();
        proof {
            assert forall|i: int| 0 <= i < n implies {
                let m = #[trigger] self.modules@[i];
                &&& m.scope.wf()
                &&& m.exports.wf()
                &&& forall|k: u64|
                    m.scope@.contains_key(k) ==> context.valid_value(#[trigger] m.scope@[k])
            } by {
                let m = self.modules@[i];
                assert forall|k: u64| m.scope@.contains_key(k) implies context.valid_value(
                    #[trigger] m.scope@[k],
                ) by {
                    assert(self.valid_value(m.scope@[k]));
                }
            }
        }
        let mut id: usize = 0;
        while id < n
            invariant
                context.wf(),
                self.mirrors(*context),
                n == self.modules@.len(),
                id <= n,
                self.structs@ == old(self).structs@,
                self.functions@.len() == old(self).functions@.len(),
                self.external_functions@.len() == old(self).external_functions@.len(),
                self.traits@.len() == old(self).traits@.len(),
                self.statics@.len() == old(self).statics@.len(),
                self.functions@ == old(self).functions@,
                forall|i: int|
                    0 <= i < n ==> {
                        let m = #[trigger] self.modules@[i];
                        &&& m.scope.wf()
                        &&& m.exports.wf()
                        &&& forall|k: u64|
                            m.scope@.contains_key(k) ==> context.valid_value(
                                #[trigger] m.scope@[k],
                            )
                    },
                forall|i: int|
                    0 <= i < n ==> {
                        let m = #[trigger] self.modules@[i];
                        &&& m.exports@ == old(self).modules@[i].exports@
                        &&& m.path == old(self).modules@[i].path
                        &&& m.root == old(self).modules@[i].root
                    },
                forall|i: int, k: u64|
                    0 <= i < n && (#[trigger] self.modules@[i].scope@.contains_key(k))
                        ==> old(self).modules@[i].scope@.contains_key(k)
                        || context.modules@[i].imports@.contains_key(k),
                forall|i: int, k: u64|
                    0 <= i < n && (#[trigger] old(self).modules@[i].scope@.contains_key(k))
                        ==> self.modules@[i].scope@.contains_key(k),
                forall|i: int, k: u64|
                    0 <= i < n && old(self).modules@[i].scope@.contains_key(k)
                        && !context.modules@[i].imports@.contains_key(k) ==> (
                    #[trigger] self.modules@[i].scope@[k]) == old(self).modules@[i].scope@[k],
                forall|i: int, k: u64|
                    0 <= i < id && (#[trigger] context.modules@[i].imports@.contains_key(k)) ==> (
                    simple_import_outcome(*context, context.modules@[i].imports@[k])
                        matches Some(res) ==> (match res {
                        Ok(v) => self.modules@[i].scope@.contains_key(k) && self.modules@[i].scope@[k]
                            == v,
                        Err(err) => errors@.contains(err),
                    })),
            decreases n - id,
        {
            let ghost mods0 = self.modules@;
            let mut m = TypecheckedModule {
                scope: SMap::new(),
                exports: SMap::new(),
                path: 0,
                root: 0,
            };
            self.modules.set_and_swap(id, &mut m);
            proof {
                assert(context.module_wf(context.modules@[id as int]));
            }
            let imports = &context.modules[id].imports;
            let ni = imports.len();
            let mut j: usize = 0;
            while j < ni
                invariant
                    context.wf(),
                    id < context.modules@.len(),
                    ni == context.modules@[id as int].imports.entries@.len(),
                    j <= ni,
                    imports == &context.modules@[id as int].imports,
                    m.scope.wf(),
                    m.exports.wf(),
                    m.exports@ == mods0[id as int].exports@,
                    m.path == mods0[id as int].path,
                    m.root == mods0[id as int].root,
                    forall|k: u64|
                        #[trigger] m.scope@.contains_key(k) ==> mods0[id as int].scope@.contains_key(
                            k,
                        ) || context.modules@[id as int].imports@.contains_key(k),
                    forall|k: u64|
                        #[trigger] mods0[id as int].scope@.contains_key(k) ==> m.scope@.contains_key(
                            k,
                        ),
                    forall|k: u64|
                        mods0[id as int].scope@.contains_key(k) && !context.modules@[id as int].imports@.contains_key(
                            k,
                        ) ==> (#[trigger] m.scope@[k]) == mods0[id as int].scope@[k],
                    forall|jj: int|
                        0 <= jj < j ==> ({
                            let ent = #[trigger] imports.entries@[jj];
                            simple_import_outcome(*context, ent.1) matches Some(res) ==> (match res {
                                Ok(v) => m.scope@.contains_key(ent.0) && m.scope@[ent.0] == v,
                                Err(err) => errors@.contains(err),
                            })
                        }),

                    forall|i: int, k: u64|
                        0 <= i < id && (#[trigger] context.modules@[i].imports@.contains_key(k))
                            ==> (simple_import_outcome(*context, context.modules@[i].imports@[k])
                            matches Some(res) ==> (match res {
                            Ok(v) => self.modules@[i].scope@.contains_key(k)
                                && self.modules@[i].scope@[k] == v,
                            Err(err) => errors@.contains(err),
                        })),
                    forall|k: u64|
                        m.scope@.contains_key(k) ==> context.valid_value(#[trigger] m.scope@[k]),
                decreases ni - j,
            {
                let entry = imports.entry_at(j);
                let name = entry.0;
                proof {
                    imports.lemma_entry_in_view(j as int);
                    assert(context.module_wf(context.modules@[id as int]));
                    assert(context.modules@[id as int].imports@.contains_key(name));
                }
                let mut visited: Vec<(ModuleId, GlobalStr)> = Vec::new();
                proof {
                    assert(crate::resolve::visited_set(visited@) =~= Set::<(int, u64)>::empty());
                }
                let ghost errs0 = errors@;
                let ghost scope0 = m.scope@;
                match resolve_import(
                    context,
                    entry.1.1,
                    entry.1.2.as_slice(),
                    &entry.1.0,
                    &mut visited,
                ) {
                    Err(e) => {
                        errors.push(e);
                        proof {
                            assert(errors@ =~= errs0.push(e));
                            assert forall|x: TypecheckingError| errs0.contains(x) implies errors@.contains(
                                x,
                            ) by {
                                let ix = choose|ix: int| 0 <= ix < errs0.len() && errs0[ix] == x;
                                assert(errors@[ix] == x);
                            }
                            assert(errors@.contains(e)) by {
                                assert(errors@[errs0.len() as int] == e);
                            }
                        }
                    },
                    Ok(k) => {
                        m.scope.insert(name, k);
                    },
                }
                j += 1;
            }
            proof {
                assert forall|k: u64|
                    #[trigger] context.modules@[id as int].imports@.contains_key(k) implies (
                simple_import_outcome(*context, context.modules@[id as int].imports@[k])
                    matches Some(res) ==> (match res {
                    Ok(v) => m.scope@.contains_key(k) && m.scope@[k] == v,
                    Err(err) => errors@.contains(err),
                })) by {
                    crate::strmap::lemma_map_of_contains(
                        context.modules@[id as int].imports.entries@,
                        k,
                    );
                    let jj = choose|jj: int|
                        0 <= jj < context.modules@[id as int].imports.entries@.len() && (
                        #[trigger] context.modules@[id as int].imports.entries@[jj]).0 == k;
                    crate::strmap::lemma_map_of_index(
                        context.modules@[id as int].imports.entries@,
                        jj,
                    );
                }
            }
            self.modules.set_and_swap(id, &mut m);
            proof {
                assert(self.modules@ =~= mods0.update(id as int, self.modules@[id as int]));
            }
            id += 1;
        }
        proof {
            assert forall|i: int| 0 <= i < self.modules@.len() implies {
                let m = #[trigger] self.modules@[i];
                &&& m.scope.wf()
                &&& m.exports.wf()
                &&& forall|k: u64|
                    m.scope@.contains_key(k) ==> self.valid_value(#[trigger] m.scope@[k])
            } by {
                let m = self.modules@[i];
                assert forall|k: u64| m.scope@.contains_key(k) implies self.valid_value(
                    #[trigger] m.scope@[k],
                ) by {
                    assert(context.valid_value(m.scope@[k]));
                }
            }
            assert forall|i: int|
                0 <= i < self.structs@.len() implies ((#[trigger] self.structs@[i])
                matches StructSlot::Resolved(ts) ==> ts.global_impl.wf() && (forall|k: u64|
                ts.global_impl@.contains_key(k) ==> (#[trigger] ts.global_impl@[k])
                    < self.functions@.len())) by {
                assert(self.structs@[i] == old(self).structs@[i]);
            }
        }
        errors
    }
}

/// The name a dotted path's segments carry, in order.
pub open spec fn path_names(p: crate::ast::Path) -> Seq<GlobalStr> {
    p.entries@.map_values(|s: crate::ast::PathSegment| s.name)
}

/// What the typed walk yields, exactly: imports are already folded into the
/// scopes, so each step consults exports and scope, a module value restarts
/// the walk on the remaining segments, and a struct value admits one more
/// segment naming an impl member.
pub open spec fn typed_walk(
    ctx: TypecheckingContext,
    module: ModuleId,
    path: Seq<GlobalStr>,
    location: Location,
    visited: Set<(int, u64)>,
) -> Result<ModuleScopeValue, TypecheckingError>
    decreases path.len(),
{
    if path.len() == 0 {
        Ok(ModuleScopeValue::Module(module))
    } else if visited.contains((module as int, path[0])) {
        Err(TypecheckingError::CyclicDependency { location })
    } else {
        let m = ctx.modules@[module as int];
        let first = path[0];
        if !m.exports@.contains_key(first) && visited != Set::<(int, u64)>::empty() {
            Err(TypecheckingError::ExportNotFound { location, name: first })
        } else {
            let ident = if m.exports@.contains_key(first) {
                m.exports@[first]
            } else {
                first
            };
            if m.scope@.contains_key(ident) {
                let v = m.scope@[ident];
                if path.len() < 2 {
                    Ok(v)
                } else {
                    match v {
                        ModuleScopeValue::Struct(id) => match ctx.structs@[id as int] {
                            StructSlot::Resolved(ts) => {
                                if ts.global_impl@.contains_key(path[1]) {
                                    if path.len() < 3 {
                                        Ok(ModuleScopeValue::Function(ts.global_impl@[path[1]]))
                                    } else {
                                        Err(
                                            TypecheckingError::ExportNotFound {
                                                location,
                                                name: path[2],
                                            },
                                        )
                                    }
                                } else {
                                    Err(
                                        TypecheckingError::ExportNotFound {
                                            location: ts.location,
                                            name: path[1],
                                        },
                                    )
                                }
                            },
                            _ => Err(
                                TypecheckingError::ExportNotFound { location, name: path[1] },
                            ),
                        },
                        ModuleScopeValue::Module(id) => typed_walk(
                            ctx,
                            id,
                            path.skip(1),
                            location,
                            visited.insert((module as int, first)),
                        ),
                        _ => Err(TypecheckingError::ExportNotFound { location, name: path[1] }),
                    }
                }
            } else {
                Err(TypecheckingError::ExportNotFound { location, name: first })
            }
        }
    }
}

/// Same walk as the untyped resolver, against the typed module table:
/// imports are already folded into the scopes, so only exports, scopes and
/// remaining segments are walked, and the path shrinks at every recursion.
pub fn typed_resolve_import(
    context: &TypecheckingContext,
    module: ModuleId,
    import: &[GlobalStr],
    location: &Location,
    already_included: &mut Vec<(ModuleId, GlobalStr)>,
) -> (r: Result<ModuleScopeValue, TypecheckingError>)
    requires
        context.wf(),
        module < context.modules@.len(),
    ensures
        r matches Ok(v) ==> context.valid_value(v),
        import@.len() == 0 ==> r == Ok::<ModuleScopeValue, TypecheckingError>(
            ModuleScopeValue::Module(module),
        ),
        import@.len() > 0 && crate::resolve::visited_set(old(already_included)@).contains(
            (module as int, import@[0]),
        ) ==> r == Err::<ModuleScopeValue, TypecheckingError>(
            TypecheckingError::CyclicDependency { location: *location },
        ),
        import@.len() > 0 && !crate::resolve::visited_set(old(already_included)@).contains(
            (module as int, import@[0]),
        ) && old(already_included)@.len() >= 1
            && !context.modules@[module as int].exports@.contains_key(import@[0]) ==> r == Err::<
            ModuleScopeValue,
            TypecheckingError,
        >(TypecheckingError::ExportNotFound { location: *location, name: import@[0] }),
        import@.len() == 1 && old(already_included)@.len() == 0 && !crate::resolve::visited_set(
            old(already_included)@,
        ).contains((module as int, import@[0]))
            && !context.modules@[module as int].exports@.contains_key(import@[0])
            && context.modules@[module as int].scope@.contains_key(import@[0]) ==> r == Ok::<
            ModuleScopeValue,
            TypecheckingError,
        >(context.modules@[module as int].scope@[import@[0]]),
        r == typed_walk(
            *context,
            module,
            import@,
            *location,
            crate::resolve::visited_set(old(already_included)@),
        ),
    decreases import@.len(),
{
    let ghost v0 = already_included@;
    if import.len() == 0 {
        return Ok(ModuleScopeValue::Module(module));
    }
    let first = import[0];
    if crate::resolve::visited_contains_pair(already_included, module, first) {
        return Err(TypecheckingError::CyclicDependency { location: *location });
    }
    already_included.push((module, first));
    proof {
        assert(context.wf());
        crate::resolve::lemma_visited_set_empty(v0);
        crate::resolve::lemma_visited_push(v0, (module, first));
    }
    let m = &context.modules[module];
    let ident: GlobalStr = match m.exports.get(first) {
        Some(i) => *i,
        None => {
            if already_included.len() < 2 {
                first
            } else {
                return Err(
                    TypecheckingError::ExportNotFound { location: *location, name: first },
                );
            }
        },
    };
    if let Some(value) = m.scope.get(ident) {
        let value = *value;
        if import.len() < 2 {
            return Ok(value);
        }
        match value {
            ModuleScopeValue::Struct(id) => {
                match &context.structs[id] {
                    StructSlot::Resolved(ts) => {
                        match ts.global_impl.get(import[1]) {
                            Some(function_id) => {
                                if import.len() < 3 {
                                    return Ok(ModuleScopeValue::Function(*function_id));
                                }
                                return Err(
                                    TypecheckingError::ExportNotFound {
                                        location: *location,
                                        name: import[2],
                                    },
                                );
                            },
                            None => {
                                return Err(
                                    TypecheckingError::ExportNotFound {
                                        location: ts.location,
                                        name: import[1],
                                    },
                                );
                            },
                        }
                    },
                    _ => {
                        return Err(
                            TypecheckingError::ExportNotFound {
                                location: *location,
                                name: import[1],
                            },
                        );
                    },
                }
            },
            ModuleScopeValue::Module(id) => {
                proof {
                    assert(import@.subrange(1, import@.len() as int) =~= import@.skip(1));
                }
                return typed_resolve_import(
                    context,
                    id,
                    &import[1..import.len()],
                    location,
                    already_included,
                );
            },
            _ => {
                return Err(
                    TypecheckingError::ExportNotFound { location: *location, name: import[1] },
                );
            },
        }
    }
    Err(TypecheckingError::ExportNotFound { location: *location, name: first })
}


/// A prefix of a prefix is a prefix.
proof fn lemma_prefix_trans<T>(a: Seq<T>, b: Seq<T>, c: Seq<T>)
    requires
        a.is_prefix_of(b),
        b.is_prefix_of(c),
    ensures
        a.is_prefix_of(c),
{
    assert forall|i: int| 0 <= i < a.len() implies a[i] == c[i] by {
        assert(a[i] == b.subrange(0, a.len() as int)[i]);
        assert(b[i] == c.subrange(0, b.len() as int)[i]);
    }
    assert(a =~= c.subrange(0, a.len() as int));
}

/// The name of a type written as one plain unqualified segment, if it is.
pub open spec fn single_plain_name(t: TypeRef) -> Option<GlobalStr> {
    match t {
        TypeRef::Reference { type_path, .. } => {
            if type_path.entries@.len() == 1 && type_path.entries@[0].generic_args@.len() == 0 {
                Some(type_path.entries@[0].name)
            } else {
                None
            }
        },
        _ => None,
    }
}

/// The outcome of resolving a plain single-segment named type during struct
/// resolution, when the home module settles the name without an import
/// chase: the type, or the error that is recorded; the flag says whether
/// the named struct gets resolved inline on the way (a vacant slot met with
/// no references).
pub open spec fn simple_nominal_outcome(
    ctx: ModuleContext,
    slots: Seq<StructSlot>,
    module: ModuleId,
    n: GlobalStr,
    nr: u8,
    l: Location,
) -> Option<(Result<Type, TypecheckingError>, bool)> {
    match home_simple_lookup(ctx, module, n, l) {
        Option::None => None,
        Option::Some(res) => Some(
            match res {
                Err(_) => (
                    Err(TypecheckingError::UnboundIdent { location: l, name: n }),
                    false,
                ),
                Ok(v) => match v {
                    ModuleScopeValue::Struct(sid) => match slots[sid as int] {
                        StructSlot::Resolved(ts) => (
                            Ok(Type::Struct { struct_id: sid, name: ts.name, num_references: nr }),
                            false,
                        ),
                        StructSlot::InProgress => {
                            if nr >= 1 {
                                (
                                    Ok(
                                        Type::Struct {
                                            struct_id: sid,
                                            name: ctx.structs@[sid as int].name,
                                            num_references: nr,
                                        },
                                    ),
                                    false,
                                )
                            } else {
                                (
                                    Err(TypecheckingError::RecursiveTypeDetected { location: l }),
                                    false,
                                )
                            }
                        },
                        StructSlot::Vacant => (
                            Ok(
                                Type::Struct {
                                    struct_id: sid,
                                    name: ctx.structs@[sid as int].name,
                                    num_references: nr,
                                },
                            ),
                            nr == 0,
                        ),
                    },
                    _ => (
                        Err(
                            TypecheckingError::MismatchingScopeType {
                                location: l,
                                expected: ScopeKind::Type,
                                found: crate::errors::scope_kind_of(v),
                            },
                        ),
                        false,
                    ),
                },
            },
        ),
    }
}

/// The outcome of resolving a syntactic type during struct resolution, for
/// the shapes an import chase does not decide: primitives, trait objects,
/// type parameters, plain named types the home module settles, and arrays
/// of all of these. `None` where a chase or a qualified path decides.
pub open spec fn simple_type_outcome(
    ctx: ModuleContext,
    slots: Seq<StructSlot>,
    typ: TypeRef,
    generics: Seq<(GlobalStr, Vec<TraitId>)>,
    module: ModuleId,
) -> Option<(Result<Type, TypecheckingError>, bool)>
    decreases typ,
{
    if spec_resolve_primitive(typ) is Some {
        Some((Ok(spec_resolve_primitive(typ)->0), false))
    } else {
        match typ {
            TypeRef::DynReference { loc, .. } => Some(
                (Err(TypecheckingError::UnsupportedDynReference { location: loc }), false),
            ),
            TypeRef::Reference { num_references, type_path, loc } => {
                if exists|s: int|
                    0 <= s < type_path.entries@.len() && (
                    #[trigger] type_path.entries@[s]).generic_args@.len() > 0 {
                    Some((Err(TypecheckingError::UnexpectedGenerics { location: loc }), false))
                } else if type_path.entries@.len() == 1 {
                    let n = type_path.entries@[0].name;
                    if exists|jg: int|
                        0 <= jg < generics.len() && (#[trigger] generics[jg]).0 == n {
                        Some((Ok(Type::Generic(n, num_references)), false))
                    } else {
                        simple_nominal_outcome(ctx, slots, module, n, num_references, loc)
                    }
                } else {
                    None
                }
            },
            TypeRef::UnsizedArray { num_references, child, .. } => {
                match simple_type_outcome(ctx, slots, *child, generics, module) {
                    Option::None => None,
                    Option::Some(out) => Some(
                        match out.0 {
                            Ok(t) => (
                                Ok(
                                    Type::UnsizedArray {
                                        typ: Box::new(t),
                                        num_references,
                                    },
                                ),
                                out.1,
                            ),
                            Err(e) => (Err(e), out.1),
                        },
                    ),
                }
            },
            TypeRef::SizedArray { num_references, child, number_elements, .. } => {
                match simple_type_outcome(ctx, slots, *child, generics, module) {
                    Option::None => None,
                    Option::Some(out) => Some(
                        match out.0 {
                            Ok(t) => (
                                Ok(
                                    Type::SizedArray {
                                        typ: Box::new(t),
                                        num_references,
                                        number_elements,
                                    },
                                ),
                                out.1,
                            ),
                            Err(e) => (Err(e), out.1),
                        },
                    ),
                }
            },
            _ => None,
        }
    }
}

/// Folding `simple_type_outcome` over a struct's fields, with no type
/// parameters in scope: the typed elements in order (a failing field is
/// dropped) and the errors in order. `None` as soon as one field needs an
/// import chase or resolves another struct inline.
pub open spec fn simple_fields_outcome(
    ctx: ModuleContext,
    slots: Seq<StructSlot>,
    fields: Seq<(GlobalStr, TypeRef)>,
    module: ModuleId,
) -> Option<(Seq<(GlobalStr, Type)>, Seq<TypecheckingError>)>
    decreases fields.len(),
{
    if fields.len() == 0 {
        Some((Seq::empty(), Seq::empty()))
    } else {
        match simple_fields_outcome(ctx, slots, fields.drop_last(), module) {
            Option::None => None,
            Option::Some(acc) => {
                match simple_type_outcome(
                    ctx,
                    slots,
                    fields.last().1,
                    Seq::empty(),
                    module,
                ) {
                    Option::None => None,
                    Option::Some(out) => {
                        if out.1 {
                            None
                        } else {
                            Some(
                                match out.0 {
                                    Ok(t) => (acc.0.push((fields.last().0, t)), acc.1),
                                    Err(e) => (acc.0, acc.1.push(e)),
                                },
                            )
                        }
                    },
                }
            },
        }
    }
}

/// How deeply array constructors nest in a syntactic type; the type
/// resolvers only ever recurse through array elements.
pub open spec fn type_ref_height(t: TypeRef) -> nat
    decreases t,
{
    match t {
        TypeRef::UnsizedArray { child, .. } => 1 + type_ref_height(*child),
        TypeRef::SizedArray { child, .. } => 1 + type_ref_height(*child),
        _ => 0,
    }
}

/// Advancing twice advances once.
proof fn lemma_advance_trans(
    ctx: ModuleContext,
    a: Seq<StructSlot>,
    b: Seq<StructSlot>,
    c: Seq<StructSlot>,
)
    requires
        slots_advance(ctx, a, b),
        slots_advance(ctx, b, c),
    ensures
        slots_advance(ctx, a, c),
{
    assert forall|j: int|
        0 <= j < a.len() implies (#[trigger] c[j] == a[j] || (a[j] is Vacant && (c[j]
        matches StructSlot::Resolved(ts) && typed_matches(ctx, j, ts)))) by {
        assert(b[j] == a[j] || (a[j] is Vacant && (b[j] matches StructSlot::Resolved(ts)
            && typed_matches(ctx, j, ts))));
        assert(c[j] == b[j] || (b[j] is Vacant && (c[j] matches StructSlot::Resolved(ts)
            && typed_matches(ctx, j, ts))));
    }
}

/// Advancing a table with no in-progress slot and agreeing resolved slots
/// leaves it so.
proof fn lemma_advance_preserves_ok(ctx: ModuleContext, a: Seq<StructSlot>, b: Seq<StructSlot>)
    requires
        slots_ok(ctx, a),
        slots_advance(ctx, a, b),
    ensures
        slots_ok(ctx, b),
{
    assert forall|j: int|
        0 <= j < b.len() implies ((#[trigger] b[j]) is Vacant || (b[j]
        matches StructSlot::Resolved(ts) && typed_matches(ctx, j, ts))) by {
        assert(a[j] is Vacant || (a[j] matches StructSlot::Resolved(ts) && typed_matches(
            ctx,
            j,
            ts,
        )));
        assert(b[j] == a[j] || (a[j] is Vacant && (b[j] matches StructSlot::Resolved(ts)
            && typed_matches(ctx, j, ts))));
    }
}

/// Promotes a bare type parameter to its trait bounds, when the matching
/// generic carries any; every other type passes through.
fn promote_generic(t: Type, generics: &Vec<(GlobalStr, Vec<TraitId>)>) -> (r: Type)
    ensures
        generics@.len() == 0 ==> r == t,
{
    match t {
        Type::Generic(real_name, num_references) => {
            let n = generics.len();
            let mut i: usize = 0;
            while i < n
                invariant
                    n == generics@.len(),
                    i <= n,
                decreases n - i,
            {
                if generics[i].0 == real_name {
                    if generics[i].1.len() > 0 {
                        let nb = generics[i].1.len();
                        let mut trait_refs: Vec<TraitId> = Vec::new();
                        let mut b: usize = 0;
                        while b < nb
                            invariant
                                i < generics@.len(),
                                nb == generics@[i as int].1@.len(),
                                b <= nb,
                            decreases nb - b,
                        {
                            trait_refs.push(generics[i].1[b]);
                            b += 1;
                        }
                        return Type::Trait { trait_refs, num_references, real_name };
                    }
                    return Type::Generic(real_name, num_references);
                }
                i += 1;
            }
            Type::Generic(real_name, num_references)
        },
        other => other,
    }
}

/// What resolving a syntactic type against the typed world yields, exactly:
/// primitives first, then type parameters in scope, then a nominal walk that
/// must land on a struct, with arrays rebuilt around their element type.
pub open spec fn resolve_type_spec(
    ctx: TypecheckingContext,
    module_id: ModuleId,
    typ: TypeRef,
    generics: Seq<GlobalStr>,
) -> Result<Type, TypecheckingError>
    decreases typ,
{
    if spec_resolve_primitive(typ) is Some {
        Ok(spec_resolve_primitive(typ)->0)
    } else {
        match typ {
            TypeRef::DynReference { loc, .. } => Err(
                TypecheckingError::UnsupportedDynReference { location: loc },
            ),
            TypeRef::Reference { num_references, type_path, loc } => {
                if type_path.entries@.len() == 1 && type_path.entries@[0].generic_args@.len() == 0
                    && generics.contains(type_path.entries@[0].name) {
                    Ok(Type::Generic(type_path.entries@[0].name, num_references))
                } else if exists|s: int|
                    0 <= s < type_path.entries@.len() && (
                    #[trigger] type_path.entries@[s]).generic_args@.len() > 0 {
                    Err(TypecheckingError::UnexpectedGenerics { location: loc })
                } else {
                    match typed_walk(
                        ctx,
                        module_id,
                        path_names(type_path),
                        loc,
                        Set::empty(),
                    ) {
                        Err(e) => Err(e),
                        Ok(v) => match v {
                            ModuleScopeValue::Struct(id) => Ok(
                                Type::Struct {
                                    struct_id: id,
                                    name: (match ctx.structs@[id as int] {
                                        StructSlot::Resolved(ts) => ts.name,
                                        _ => NAME_ZERO,
                                    }),
                                    num_references,
                                },
                            ),
                            _ => Err(
                                TypecheckingError::MismatchingScopeType {
                                    location: loc,
                                    expected: ScopeKind::Type,
                                    found: crate::errors::scope_kind_of(v),
                                },
                            ),
                        },
                    }
                }
            },
            TypeRef::Void(l, k) => Ok(Type::PrimitiveVoid(k)),
            TypeRef::Never(_) => Ok(Type::PrimitiveNever),
            TypeRef::UnsizedArray { num_references, child, .. } => {
                match resolve_type_spec(ctx, module_id, *child, generics) {
                    Ok(t) => Ok(Type::UnsizedArray { typ: Box::new(t), num_references }),
                    Err(e) => Err(e),
                }
            },
            TypeRef::SizedArray { num_references, child, number_elements, .. } => {
                match resolve_type_spec(ctx, module_id, *child, generics) {
                    Ok(t) => Ok(
                        Type::SizedArray { typ: Box::new(t), num_references, number_elements },
                    ),
                    Err(e) => Err(e),
                }
            },
        }
    }
}

impl TypecheckingContext {
    /// Resolves the struct behind `id`, if that has not happened yet:
    /// resolves its generics' bounds and every field, and commits the typed
    /// struct into its slot. Yields `true` exactly when the slot was already
    /// being resolved further up the same walk — the recursive-value-type
    /// signal — and `false` otherwise.
    #[verifier::loop_isolation(false)]
    pub fn resolve_struct(
        &mut self,
        context: &ModuleContext,
        id: StructId,
        module_id: ModuleId,
        errors: &mut Vec<TypecheckingError>,
    ) -> (r: bool)
        requires
            context.wf(),
            old(self).structs@.len() == context.structs@.len(),
            id < old(self).structs@.len(),
            module_id == context.structs@[id as int].module_id,
        ensures
            final(self).structs@.len() == old(self).structs@.len(),
            slots_advance(*context, old(self).structs@, final(self).structs@),
            vacant_count(final(self).structs@) <= vacant_count(old(self).structs@),
            final(self).modules@ == old(self).modules@,
            final(self).functions@ == old(self).functions@,
            final(self).external_functions@ == old(self).external_functions@,
            final(self).statics@ == old(self).statics@,
            final(self).traits@ == old(self).traits@,
            old(self).structs@[id as int] is Resolved ==> final(self).structs@ == old(
                self,
            ).structs@ && r == false && final(errors)@ == old(errors)@,
            old(self).structs@[id as int] is InProgress ==> final(self).structs@ == old(
                self,
            ).structs@ && r == true && final(errors)@ == old(errors)@,
            old(self).structs@[id as int] is Vacant ==> final(self).structs@[id as int]
                is Resolved && r == false,
            old(errors)@.is_prefix_of(final(errors)@),
            (old(self).structs@[id as int] is Vacant && context.structs@[id as int].generics@.len()
                == 0) ==> (simple_fields_outcome(
                *context,
                old(self).structs@.update(id as int, StructSlot::InProgress),
                context.structs@[id as int].elements@,
                module_id,
            ) matches Some(fo) ==> (final(self).structs@[id as int]
                matches StructSlot::Resolved(ts) && ts.elements@ == fo.0 && final(errors)@ == old(
                errors,
            )@ + fo.1)),
        decreases vacant_count(old(self).structs@), 0nat, 0nat,
    {
        match &self.structs[id] {
            StructSlot::Resolved(_) => {
                return false;
            },
            StructSlot::InProgress => {
                return true;
            },
            StructSlot::Vacant => {},
        }
        proof {
            assert(context.struct_wf(context.structs@[id as int]));
        }
        self.structs.set(id, StructSlot::InProgress);
        let ghost marked = self.structs@;
        proof {
            lemma_vacant_count_update(old(self).structs@, id as int, StructSlot::InProgress);
        }

        let mut generics: Vec<(GlobalStr, Vec<TraitId>)> = Vec::new();
        let n_gen = context.structs[id].generics.len();
        let mut g: usize = 0;
        while g < n_gen
            invariant
                context.wf(),
                id < context.structs@.len(),
                module_id == context.structs@[id as int].module_id,
                module_id < context.modules@.len(),
                n_gen == context.structs@[id as int].generics@.len(),
                g <= n_gen,
                n_gen == 0 ==> errors@ == old(errors)@,
                generics@.len() == g,
                forall|k: int|
                    0 <= k < g ==> (#[trigger] generics@[k]).0
                        == context.structs@[id as int].generics@[k].name,
                old(errors)@.is_prefix_of(errors@),
                self.structs@ == marked,
                self.modules@ == old(self).modules@,
                self.functions@ == old(self).functions@,
                self.external_functions@ == old(self).external_functions@,
                self.statics@ == old(self).statics@,
                self.traits@ == old(self).traits@,
            decreases n_gen - g,
        {
            let generic = &context.structs[id].generics[g];
            let mut bounds: Vec<TraitId> = Vec::new();
            let nb = generic.bounds.len();
            let mut b: usize = 0;
            while b < nb
                invariant
                    context.wf(),
                    module_id < context.modules@.len(),
                    nb == generic.bounds@.len(),
                    b <= nb,
                    old(errors)@.is_prefix_of(errors@),
                decreases nb - b,
            {
                let bound = &generic.bounds[b].0;
                let bloc = &generic.bounds[b].1;
                let ns = bound.entries.len();
                let mut names: Vec<GlobalStr> = Vec::new();
                let mut s: usize = 0;
                while s < ns
                    invariant
                        ns == bound.entries@.len(),
                        s <= ns,
                        names@.len() == s,
                    decreases ns - s,
                {
                    names.push(bound.entries[s].name);
                    s += 1;
                }
                let last_name = if names.len() > 0 {
                    names[names.len() - 1]
                } else {
                    NAME_ZERO
                };
                let mut visited: Vec<(ModuleId, GlobalStr)> = Vec::new();
                match resolve_import(context, module_id, names.as_slice(), bloc, &mut visited) {
                    Err(e) => {
                        errors.push(e);
                    },
                    Ok(ModuleScopeValue::Trait(trait_id)) => {
                        bounds.push(trait_id);
                    },
                    Ok(_) => {
                        errors.push(
                            TypecheckingError::UnboundIdent { location: *bloc, name: last_name },
                        );
                    },
                }
                b += 1;
            }
            generics.push((generic.name, bounds));
            g += 1;
        }

        let mut elements: Vec<(GlobalStr, Type)> = Vec::new();
        let nf = context.structs[id].elements.len();
        let mut f: usize = 0;
        proof {
            assert(context.structs@[id as int].elements@.take(0) =~= Seq::<(
                GlobalStr,
                TypeRef,
            )>::empty());
            assert(old(errors)@ + Seq::<TypecheckingError>::empty() =~= old(errors)@);
        }
        while f < nf
            invariant
                context.wf(),
                id < context.structs@.len(),
                self.structs@.len() == context.structs@.len(),
                module_id == context.structs@[id as int].module_id,
                module_id < context.modules@.len(),
                nf == context.structs@[id as int].elements@.len(),
                f <= nf,
                old(errors)@.is_prefix_of(errors@),
                marked == old(self).structs@.update(id as int, StructSlot::InProgress),
                old(self).structs@[id as int] is Vacant,
                vacant_count(marked) == vacant_count(old(self).structs@) - 1,
                slots_advance(*context, marked, self.structs@),
                vacant_count(self.structs@) <= vacant_count(marked),
                self.structs@.len() == marked.len(),
                context.structs@[id as int].generics@.len() == 0 ==> (simple_fields_outcome(
                    *context,
                    marked,
                    context.structs@[id as int].elements@.take(f as int),
                    module_id,
                ) matches Some(fo) ==> (self.structs@ == marked && elements@ == fo.0 && errors@
                    == old(errors)@ + fo.1)),
                self.modules@ == old(self).modules@,
                self.functions@ == old(self).functions@,
                self.external_functions@ == old(self).external_functions@,
                self.statics@ == old(self).statics@,
                self.traits@ == old(self).traits@,
            decreases nf - f,
        {
            let fname = context.structs[id].elements[f].0;
            let ghost pre = self.structs@;
            let resolved = self.type_resolution_resolve_type(
                context,
                &context.structs[id].elements[f].1,
                &generics,
                module_id,
                errors,
            );
            proof {
                lemma_advance_trans(*context, marked, pre, self.structs@);
            }
            let ghost elements_pre = elements@;
            match resolved {
                Some(t) => {
                    let t = promote_generic(t, &generics);
                    elements.push((fname, t));
                },
                None => {},
            }
            proof {
                let fields_all = context.structs@[id as int].elements@;
                assert(fields_all.take(f + 1).drop_last() =~= fields_all.take(f as int));
                assert(fields_all.take(f + 1).last() == fields_all[f as int]);
                if context.structs@[id as int].generics@.len() == 0 && simple_fields_outcome(
                    *context,
                    marked,
                    fields_all.take(f + 1),
                    module_id,
                ) is Some {
                    assert(generics@.len() == 0);
                    let out = simple_type_outcome(
                        *context,
                        marked,
                        fields_all[f as int].1,
                        Seq::empty(),
                        module_id,
                    );
                    assert(generics@ =~= Seq::<(GlobalStr, Vec<TraitId>)>::empty());
                    assert(out matches Some(o) && !o.1);
                }
            }
            f += 1;
        }

        proof {
            assert(context.structs@[id as int].elements@.take(nf as int)
                =~= context.structs@[id as int].elements@);
        }
        let typed_struct = TypedStruct {
            name: context.structs[id].name,
            elements,
            location: context.structs[id].location,
            global_impl: context.structs[id].global_impl.duplicate(),
            trait_impl: SMap::new(),
            annotations: context.structs[id].annotations.clone(),
            module_id,
            id,
            generics,
        };
        let ghost before_commit = self.structs@;
        self.structs.set(id, StructSlot::Resolved(typed_struct));
        proof {
            lemma_vacant_count_update(before_commit, id as int, self.structs@[id as int]);
            assert(before_commit[id as int] == marked[id as int]) by {
                assert(slots_advance(*context, marked, before_commit));
                assert(marked[id as int] is InProgress);
            }
            assert forall|j: int|
                0 <= j < old(self).structs@.len() implies (#[trigger] self.structs@[j] == old(
                self,
            ).structs@[j] || (old(self).structs@[j] is Vacant && (self.structs@[j]
                matches StructSlot::Resolved(ts) && typed_matches(*context, j, ts)))) by {
                if j != id {
                    assert(before_commit[j] == marked[j] || (marked[j] is Vacant && (
                    before_commit[j] matches StructSlot::Resolved(ts) && typed_matches(
                        *context,
                        j,
                        ts,
                    ))));
                    assert(marked[j] == old(self).structs@[j]);
                    assert(self.structs@[j] == before_commit[j]);
                }
            }
        }
        false
    }

    /// Resolves one syntactic type during struct resolution. Primitives win
    /// before any scope is consulted; a named struct that is still being
    /// resolved higher up the walk is legal behind at least one reference
    /// and a recursive value type otherwise. A failed field yields `None`
    /// with its error recorded, and the walk goes on.
    #[verifier::loop_isolation(false)]
    pub fn type_resolution_resolve_type(
        &mut self,
        context: &ModuleContext,
        typ: &TypeRef,
        generics: &Vec<(GlobalStr, Vec<TraitId>)>,
        module: ModuleId,
        errors: &mut Vec<TypecheckingError>,
    ) -> (r: Option<Type>)
        requires
            context.wf(),
            old(self).structs@.len() == context.structs@.len(),
            module < context.modules@.len(),
        ensures
            final(self).structs@.len() == old(self).structs@.len(),
            slots_advance(*context, old(self).structs@, final(self).structs@),
            vacant_count(final(self).structs@) <= vacant_count(old(self).structs@),
            final(self).modules@ == old(self).modules@,
            final(self).functions@ == old(self).functions@,
            final(self).external_functions@ == old(self).external_functions@,
            final(self).statics@ == old(self).statics@,
            final(self).traits@ == old(self).traits@,
            spec_resolve_primitive(*typ) is Some ==> r == spec_resolve_primitive(*typ),
            old(errors)@.is_prefix_of(final(errors)@),
            typ matches TypeRef::DynReference { loc: l, .. } ==> r is None && final(errors)@
                == old(errors)@.push(
                TypecheckingError::UnsupportedDynReference { location: *l },
            ),
            typ matches TypeRef::Reference { num_references: nr, type_path: tp, loc: l } ==> ((
            spec_resolve_primitive(*typ) is None && (single_plain_name(*typ) matches Some(n)
                && (exists|j: int|
                0 <= j < generics@.len() && (#[trigger] generics@[j]).0 == n))) ==> r == Some(
                Type::Generic(tp.entries@[0].name, *nr),
            )),
            simple_type_outcome(*context, old(self).structs@, *typ, generics@, module)
                matches Some(out) ==> ({
                &&& (match out.0 {
                    Ok(t) => r == Some(t),
                    Err(_) => r is None,
                })
                &&& (!out.1 ==> final(self).structs@ == old(self).structs@ && final(errors)@ == (
                match out.0 {
                    Ok(_) => old(errors)@,
                    Err(e) => old(errors)@.push(e),
                }))
            }),
        decreases vacant_count(old(self).structs@), 1nat, type_ref_height(*typ),
    {
        let prim = resolve_primitive_type(typ);
        if let Some(t) = prim {
            return Some(t);
        }
        match typ {
            TypeRef::DynReference { loc, .. } => {
                errors.push(TypecheckingError::UnsupportedDynReference { location: *loc });
                None
            },
            TypeRef::Reference { num_references, type_path, loc } => {
                let ns = type_path.entries.len();
                let mut s: usize = 0;
                while s < ns
                    invariant
                        ns == type_path.entries@.len(),
                        s <= ns,
                        spec_resolve_primitive(*typ) is None,
                        errors@ == old(errors)@,
                        forall|j: int|
                            0 <= j < s ==> (#[trigger] type_path.entries@[j]).generic_args@.len()
                                == 0,
                    decreases ns - s,
                {
                    if type_path.entries[s].generic_args.len() > 0 {
                        errors.push(
                            TypecheckingError::UnexpectedGenerics { location: *loc },
                        );
                        return None;
                    }
                    s += 1;
                }
                if type_path.entries.len() == 1 {
                    let seg = &type_path.entries[0];
                    if seg.generic_args.len() == 0 {
                        let ng = generics.len();
                        let mut gi: usize = 0;
                        while gi < ng
                            invariant
                                ng == generics@.len(),
                                gi <= ng,
                                spec_resolve_primitive(*typ) is None,
                                forall|j: int|
                                    0 <= j < gi ==> (#[trigger] generics@[j]).0 != seg.name,
                            decreases ng - gi,
                        {
                            if generics[gi].0 == seg.name {
                                return Some(Type::Generic(seg.name, *num_references));
                            }
                            gi += 1;
                        }
                    }
                }
                let mut names: Vec<GlobalStr> = Vec::new();
                let mut s: usize = 0;
                while s < ns
                    invariant
                        ns == type_path.entries@.len(),
                        s <= ns,
                        names@.len() == s,
                        forall|k: int|
                            0 <= k < s ==> names@[k] == (#[trigger] type_path.entries@[k]).name,
                    decreases ns - s,
                {
                    names.push(type_path.entries[s].name);
                    s += 1;
                }
                let last_name = if names.len() > 0 {
                    names[names.len() - 1]
                } else {
                    NAME_ZERO
                };
                let mut visited: Vec<(ModuleId, GlobalStr)> = Vec::new();
                proof {
                    assert(crate::resolve::visited_set(visited@) =~= Set::<(int, u64)>::empty());
                }
                let value = match resolve_import(
                    context,
                    module,
                    names.as_slice(),
                    loc,
                    &mut visited,
                ) {
                    Err(_) => {
                        errors.push(
                            TypecheckingError::UnboundIdent { location: *loc, name: last_name },
                        );
                        return None;
                    },
                    Ok(v) => v,
                };
                let id = match value {
                    ModuleScopeValue::Struct(id) => id,
                    other => {
                        errors.push(
                            TypecheckingError::MismatchingScopeType {
                                location: *loc,
                                expected: ScopeKind::Type,
                                found: ScopeKind::from(other),
                            },
                        );
                        return None;
                    },
                };
                match &self.structs[id] {
                    StructSlot::Resolved(ts) => {
                        return Some(
                            Type::Struct {
                                struct_id: id,
                                name: ts.name,
                                num_references: *num_references,
                            },
                        );
                    },
                    _ => {},
                }
                if *num_references >= 1 {
                    return Some(
                        Type::Struct {
                            struct_id: id,
                            name: context.structs[id].name,
                            num_references: *num_references,
                        },
                    );
                }
                match &self.structs[id] {
                    StructSlot::InProgress => {
                        errors.push(
                            TypecheckingError::RecursiveTypeDetected { location: *loc },
                        );
                        return None;
                    },
                    _ => {},
                }
                let struct_module = context.structs[id].module_id;
                let recursive = self.resolve_struct(context, id, struct_module, errors);
                if recursive {
                    errors.push(TypecheckingError::RecursiveTypeDetected { location: *loc });
                    return None;
                }
                match &self.structs[id] {
                    StructSlot::Resolved(ts) => Some(
                        Type::Struct {
                            struct_id: id,
                            name: ts.name,
                            num_references: *num_references,
                        },
                    ),
                    _ => {
                        proof {
                            assert(false);
                        }
                        None
                    },
                }
            },
            TypeRef::Void(..) => {
                proof {
                    assert(false);
                }
                None
            },
            TypeRef::Never(_) => {
                proof {
                    assert(false);
                }
                None
            },
            TypeRef::UnsizedArray { num_references, child, loc: _ } => {
                match self.type_resolution_resolve_type(context, &**child, generics, module, errors) {
                    Some(t) => Some(
                        Type::UnsizedArray { typ: Box::new(t), num_references: *num_references },
                    ),
                    None => None,
                }
            },
            TypeRef::SizedArray { num_references, child, number_elements, loc: _ } => {
                match self.type_resolution_resolve_type(context, &**child, generics, module, errors) {
                    Some(t) => Some(
                        Type::SizedArray {
                            typ: Box::new(t),
                            num_references: *num_references,
                            number_elements: *number_elements,
                        },
                    ),
                    None => None,
                }
            },
        }
    }

    /// Resolves every struct of the world, in handle order; afterwards every
    /// slot is resolved, and each typed struct agrees with its untyped entry
    /// on name, module and handle.
    pub fn resolve_structs(&mut self, context: &ModuleContext, errors: &mut Vec<
        TypecheckingError,
    >)
        requires
            context.wf(),
            old(self).structs@.len() == context.structs@.len(),
            slots_ok(*context, old(self).structs@),
        ensures
            final(self).structs@.len() == old(self).structs@.len(),
            slots_advance(*context, old(self).structs@, final(self).structs@),
            final(self).modules@ == old(self).modules@,
            final(self).functions@ == old(self).functions@,
            final(self).external_functions@ == old(self).external_functions@,
            final(self).statics@ == old(self).statics@,
            final(self).traits@ == old(self).traits@,
            forall|j: int|
                0 <= j < final(self).structs@.len() ==> ((#[trigger] final(self).structs@[j])
                    matches StructSlot::Resolved(ts) && typed_matches(*context, j, ts)),
            old(errors)@.is_prefix_of(final(errors)@),
    {
        let n = self.structs.len();
        let mut id: usize = 0;
        while id < n
            invariant
                context.wf(),
                n == self.structs@.len(),
                self.structs@.len() == context.structs@.len(),
                id <= n,
                old(errors)@.is_prefix_of(errors@),
                slots_ok(*context, self.structs@),
                slots_advance(*context, old(self).structs@, self.structs@),
                forall|j: int| 0 <= j < id ==> (#[trigger] self.structs@[j]) is Resolved,
                self.modules@ == old(self).modules@,
                self.functions@ == old(self).functions@,
                self.external_functions@ == old(self).external_functions@,
                self.statics@ == old(self).statics@,
                self.traits@ == old(self).traits@,
            decreases n - id,
        {
            proof {
                assert(context.struct_wf(context.structs@[id as int]));
            }
            let struct_module = context.structs[id].module_id;
            let ghost pre = self.structs@;
            let ghost errs_pre = errors@;
            let _ = self.resolve_struct(context, id, struct_module, errors);
            proof {
                lemma_prefix_trans(old(errors)@, errs_pre, errors@);
                lemma_advance_trans(*context, old(self).structs@, pre, self.structs@);
                lemma_advance_preserves_ok(*context, pre, self.structs@);
                assert(pre[id as int] is Vacant || pre[id as int] is Resolved);
                assert(self.structs@[id as int] is Resolved);
            }
            id += 1;
        }
        proof {
            assert forall|j: int|
                0 <= j < self.structs@.len() implies ((#[trigger] self.structs@[j])
                matches StructSlot::Resolved(ts) && typed_matches(*context, j, ts)) by {
                assert(self.structs@[j] is Resolved);
                assert(self.structs@[j] is Vacant || (self.structs@[j]
                    matches StructSlot::Resolved(ts) && typed_matches(*context, j, ts)));
            }
        }
    }

    /// Resolves a syntactic type against the typed world: primitives first,
    /// then type parameters in scope, then a nominal walk that must land on
    /// a struct.
    #[verifier::loop_isolation(false)]
    pub fn resolve_type(
        &self,
        module_id: ModuleId,
        typ: &TypeRef,
        generics: &[GlobalStr],
    ) -> (r: Result<Type, TypecheckingError>)
        requires
            self.wf(),
            module_id < self.modules@.len(),
        ensures
            spec_resolve_primitive(*typ) is Some ==> r == Ok::<Type, TypecheckingError>(
                spec_resolve_primitive(*typ)->0,
            ),
            typ matches TypeRef::DynReference { loc: l, .. } ==> r == Err::<
                Type,
                TypecheckingError,
            >(TypecheckingError::UnsupportedDynReference { location: *l }),
            typ matches TypeRef::Reference { num_references: nr, type_path: tp, loc: l } ==> ((
            spec_resolve_primitive(*typ) is None && (single_plain_name(*typ) matches Some(n)
                && generics@.contains(n))) ==> r == Ok::<Type, TypecheckingError>(
                Type::Generic(tp.entries@[0].name, *nr),
            )),
            r == resolve_type_spec(*self, module_id, *typ, generics@),
        decreases type_ref_height(*typ),
    {
        let prim = resolve_primitive_type(typ);
        if let Some(t) = prim {
            return Ok(t);
        }
        match typ {
            TypeRef::DynReference { loc, .. } => Err(
                TypecheckingError::UnsupportedDynReference { location: *loc },
            ),
            TypeRef::Reference { num_references, type_path, loc } => {
                if type_path.entries.len() == 1 {
                    let seg = &type_path.entries[0];
                    if seg.generic_args.len() == 0 {
                        let ng = generics.len();
                        let mut gi: usize = 0;
                        while gi < ng
                            invariant
                                ng == generics@.len(),
                                gi <= ng,
                                spec_resolve_primitive(*typ) is None,
                                forall|j: int| 0 <= j < gi ==> #[trigger] generics@[j] != seg.name,
                            decreases ng - gi,
                        {
                            if generics[gi] == seg.name {
                                return Ok(Type::Generic(seg.name, *num_references));
                            }
                            gi += 1;
                        }
                    }
                }
                let ns = type_path.entries.len();
                let mut s: usize = 0;
                while s < ns
                    invariant
                        ns == type_path.entries@.len(),
                        s <= ns,
                        spec_resolve_primitive(*typ) is None,
                        forall|j: int|
                            0 <= j < s ==> (#[trigger] type_path.entries@[j]).generic_args@.len()
                                == 0,
                    decreases ns - s,
                {
                    if type_path.entries[s].generic_args.len() > 0 {
                        return Err(TypecheckingError::UnexpectedGenerics { location: *loc });
                    }
                    s += 1;
                }
                let mut names: Vec<GlobalStr> = Vec::new();
                let mut s: usize = 0;
                while s < ns
                    invariant
                        ns == type_path.entries@.len(),
                        s <= ns,
                        names@.len() == s,
                        forall|k: int|
                            0 <= k < s ==> names@[k] == (#[trigger] type_path.entries@[k]).name,
                    decreases ns - s,
                {
                    names.push(type_path.entries[s].name);
                    s += 1;
                }
                let mut visited: Vec<(ModuleId, GlobalStr)> = Vec::new();
                proof {
                    assert(names@ =~= path_names(*type_path));
                    assert(crate::resolve::visited_set(visited@) =~= Set::<(int, u64)>::empty());
                }
                match typed_resolve_import(self, module_id, names.as_slice(), loc, &mut visited) {
                    Err(e) => Err(e),
                    Ok(ModuleScopeValue::Struct(id)) => {
                        let name = match &self.structs[id] {
                            StructSlot::Resolved(ts) => ts.name,
                            _ => NAME_ZERO,
                        };
                        Ok(
                            Type::Struct {
                                struct_id: id,
                                name,
                                num_references: *num_references,
                            },
                        )
                    },
                    Ok(v) => Err(
                        TypecheckingError::MismatchingScopeType {
                            location: *loc,
                            expected: ScopeKind::Type,
                            found: ScopeKind::from(v),
                        },
                    ),
                }
            },
            TypeRef::Void(..) => {
                proof {
                    assert(false);
                }
                vstd::pervasive::unreached()
            },
            TypeRef::Never(_) => {
                proof {
                    assert(false);
                }
                vstd::pervasive::unreached()
            },
            TypeRef::UnsizedArray { num_references, child, loc: _ } => {
                match self.resolve_type(module_id, &**child, generics) {
                    Ok(t) => Ok(
                        Type::UnsizedArray { typ: Box::new(t), num_references: *num_references },
                    ),
                    Err(e) => Err(e),
                }
            },
            TypeRef::SizedArray { num_references, child, number_elements, loc: _ } => {
                match self.resolve_type(module_id, &**child, generics) {
                    Ok(t) => Ok(
                        Type::SizedArray {
                            typ: Box::new(t),
                            num_references: *num_references,
                            number_elements: *number_elements,
                        },
                    ),
                    Err(e) => Err(e),
                }
            },
        }
    }
}

} // verus!
