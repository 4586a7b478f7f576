//! Module assembly: folding the parser's top-level statements into a
//! module's tables. Functions, structs, statics, external functions and
//! exports share one flat namespace per module; impl members are baked into
//! the module's function registry as they arrive.

use vstd::prelude::*;

use crate::ast::{Expression, FunctionContract, LiteralValue, Statement, Struct, TypeRef};
use crate::errors::ProgramFormingError;
use crate::names::{FunctionId, GlobalStr, Location, ModuleId};
use crate::strmap::SMap;

verus! {

/// The mathematical shape of an assembled struct: its tables as maps.
pub ghost struct StructV {
    pub loc: Location,
    pub name: GlobalStr,
    pub fields: Seq<(GlobalStr, TypeRef)>,
    pub global_impl: Map<u64, FunctionId>,
    pub trait_impls: Seq<(GlobalStr, Map<u64, FunctionId>)>,
}

impl View for Struct {
    type V = StructV;

    open spec fn view(&self) -> StructV {
        StructV {
            loc: self.loc,
            name: self.name,
            fields: self.fields@,
            global_impl: self.global_impl@,
            trait_impls: self.trait_impls@.map_values(
                |p: (GlobalStr, SMap<FunctionId>)| (p.0, p.1@),
            ),
        }
    }
}

/// The mathematical shape of a module: its tables as maps and sequences.
pub ghost struct ModuleV {
    pub structs: Map<u64, StructV>,
    pub functions: Map<u64, FunctionId>,
    pub external_functions: Map<u64, FunctionContract>,
    pub static_values: Map<u64, (TypeRef, LiteralValue)>,
    pub function_registry: Seq<(FunctionContract, Statement)>,
    pub imports: Map<u64, (Location, ModuleId, Seq<GlobalStr>)>,
    pub exports: Map<u64, GlobalStr>,
}

/// A module under assembly.
#[derive(Debug)]
pub struct Module {
    pub structs: SMap<Struct>,
    pub functions: SMap<FunctionId>,
    pub external_functions: SMap<FunctionContract>,
    pub static_values: SMap<(TypeRef, LiteralValue)>,
    pub function_registry: Vec<(FunctionContract, Statement)>,
    pub imports: SMap<(Location, ModuleId, Vec<GlobalStr>)>,
    pub exports: SMap<GlobalStr>,
}

impl View for Module {
    type V = ModuleV;

    open spec fn view(&self) -> ModuleV {
        ModuleV {
            structs: self.structs@.map_values(|s: Struct| s@),
            functions: self.functions@,
            external_functions: self.external_functions@,
            static_values: self.static_values@,
            function_registry: self.function_registry@,
            imports: self.imports@.map_values(
                |v: (Location, ModuleId, Vec<GlobalStr>)| (v.0, v.1, v.2@),
            ),
            exports: self.exports@,
        }
    }
}

/// A name is defined when any of the five item tables binds it; exports do
/// not count, they only expose.
pub open spec fn module_defines(m: ModuleV, k: GlobalStr) -> bool {
    ||| m.imports.contains_key(k)
    ||| m.functions.contains_key(k)
    ||| m.structs.contains_key(k)
    ||| m.static_values.contains_key(k)
    ||| m.external_functions.contains_key(k)
}

/// One impl member list of a parsed struct.
pub type ImplItems = Vec<(GlobalStr, FunctionContract, Box<Statement>)>;

/// The registry entries that baking an impl member list appends, in order.
pub open spec fn baked_registry(items: Seq<(GlobalStr, FunctionContract, Box<Statement>)>) -> Seq<
    (FunctionContract, Statement),
> {
    items.map_values(|it: (GlobalStr, FunctionContract, Box<Statement>)| (it.1, *it.2))
}

/// The name-to-handle table that baking an impl member list yields, when its
/// first member lands at registry position `base`.
pub open spec fn baked_map(
    items: Seq<(GlobalStr, FunctionContract, Box<Statement>)>,
    base: int,
) -> Map<u64, FunctionId>
    decreases items.len(),
{
    if items.len() == 0 {
        Map::empty()
    } else {
        baked_map(items.drop_last(), base).insert(
            items.last().0,
            (base + items.len() - 1) as FunctionId,
        )
    }
}

/// The registry entries that baking every trait impl appends, in order.
pub open spec fn impls_registry(impls: Seq<(GlobalStr, ImplItems)>) -> Seq<
    (FunctionContract, Statement),
>
    decreases impls.len(),
{
    if impls.len() == 0 {
        Seq::empty()
    } else {
        impls_registry(impls.drop_last()) + baked_registry(impls.last().1@)
    }
}

/// The per-trait tables that baking every trait impl yields, when the first
/// member of the first impl lands at registry position `base`.
pub open spec fn impls_maps(impls: Seq<(GlobalStr, ImplItems)>, base: int) -> Seq<
    (GlobalStr, Map<u64, FunctionId>),
>
    decreases impls.len(),
{
    if impls.len() == 0 {
        Seq::empty()
    } else {
        impls_maps(impls.drop_last(), base).push(
            (
                impls.last().0,
                baked_map(impls.last().1@, base + impls_registry(impls.drop_last()).len()),
            ),
        )
    }
}

/// What one top-level statement does to a module: the module afterwards, and
/// the rejection, if the statement is rejected (a rejected statement leaves
/// the module as it was).
pub open spec fn assemble_step(m: ModuleV, s: Statement) -> (ModuleV, Option<
    ProgramFormingError,
>) {
    match s {
        Statement::Function(contract, body) => match contract.name {
            Option::None => (
                m,
                Some(ProgramFormingError::AnonymousFunctionAtGlobalLevel(contract.location)),
            ),
            Option::Some(name) => {
                if module_defines(m, name) {
                    (m, Some(ProgramFormingError::IdentAlreadyDefined(contract.location, name)))
                } else {
                    (
                        ModuleV {
                            functions: m.functions.insert(
                                name,
                                m.function_registry.len() as FunctionId,
                            ),
                            function_registry: m.function_registry.push((contract, *body)),
                            ..m
                        },
                        None,
                    )
                }
            },
        },
        Statement::Struct { name, elements, location, global_impl, impls, annotations: _, generics: _ } => {
            if module_defines(m, name) {
                (m, Some(ProgramFormingError::IdentAlreadyDefined(location, name)))
            } else {
                let base = m.function_registry.len() as int;
                let sv = StructV {
                    loc: location,
                    name,
                    fields: elements@,
                    global_impl: baked_map(global_impl@, base),
                    trait_impls: impls_maps(impls@, base + global_impl@.len()),
                };
                (
                    ModuleV {
                        structs: m.structs.insert(name, sv),
                        function_registry: m.function_registry + baked_registry(global_impl@)
                            + impls_registry(impls@),
                        ..m
                    },
                    None,
                )
            }
        },
        Statement::Var(name, expr, typ_opt, location) => match typ_opt {
            Option::None => (m, Some(ProgramFormingError::GlobalValueNoType(expr.loc_spec()))),
            Option::Some(typ) => {
                if module_defines(m, name) {
                    (m, Some(ProgramFormingError::IdentAlreadyDefined(location, name)))
                } else {
                    match expr {
                        Expression::Literal(val, _) => (
                            ModuleV { static_values: m.static_values.insert(name, (typ, val)), ..m },
                            None,
                        ),
                        _ => (
                            m,
                            Some(ProgramFormingError::GlobalValueNoLiteral(expr.loc_spec())),
                        ),
                    }
                }
            },
        },
        Statement::ExternalFunction(contract) => match contract.name {
            Option::Some(name) => {
                if module_defines(m, name) {
                    (m, Some(ProgramFormingError::IdentAlreadyDefined(contract.location, name)))
                } else {
                    (
                        ModuleV {
                            external_functions: m.external_functions.insert(name, contract),
                            ..m
                        },
                        None,
                    )
                }
            },
            Option::None => (
                m,
                Some(ProgramFormingError::AnonymousFunctionAtGlobalLevel(contract.location)),
            ),
        },
        Statement::Export(key, exported_key, loc) => {
            if !module_defines(m, key) {
                (m, Some(ProgramFormingError::IdentNotDefined(loc, key)))
            } else {
                (ModuleV { exports: m.exports.insert(exported_key, key), ..m }, None)
            }
        },
        Statement::Block(_, _) => (
            m,
            Some(ProgramFormingError::NoCodeOutsideOfFunctions(s.loc_spec())),
        ),
    }
}

/// Folding a whole batch of statements: each is attempted on the state the
/// previous ones left, and the rejections are collected in order.
pub open spec fn assemble_all(m: ModuleV, stmts: Seq<Statement>) -> (ModuleV, Seq<
    ProgramFormingError,
>)
    decreases stmts.len(),
{
    if stmts.len() == 0 {
        (m, Seq::empty())
    } else {
        let step = assemble_step(m, stmts[0]);
        let rest = assemble_all(step.0, stmts.skip(1));
        (
            rest.0,
            (match step.1 {
                Option::Some(e) => seq![e],
                Option::None => Seq::empty(),
            }) + rest.1,
        )
    }
}

impl Module {
    /// Every table binds each name at most once.
    pub open spec fn wf(&self) -> bool {
        &&& self.structs.wf()
        &&& self.functions.wf()
        &&& self.external_functions.wf()
        &&& self.static_values.wf()
        &&& self.imports.wf()
        &&& self.exports.wf()
    }

    /// A fresh module with a preconfigured imports table.
    pub fn new(imports: SMap<(Location, ModuleId, Vec<GlobalStr>)>) -> (r: Self)
        requires
            imports.wf(),
        ensures
            r.wf(),
            r@.structs == Map::<u64, StructV>::empty(),
            r@.functions == Map::<u64, FunctionId>::empty(),
            r@.external_functions == Map::<u64, FunctionContract>::empty(),
            r@.static_values == Map::<u64, (TypeRef, LiteralValue)>::empty(),
            r@.function_registry == Seq::<(FunctionContract, Statement)>::empty(),
            r.imports@ == imports@,
            r@.exports == Map::<u64, GlobalStr>::empty(),
    {
        let r = Module {
            structs: SMap::new(),
            functions: SMap::new(),
            external_functions: SMap::new(),
            static_values: SMap::new(),
            function_registry: Vec::new(),
            imports,
            exports: SMap::new(),
        };
        proof {
            assert(r@.structs =~= Map::<u64, StructV>::empty());
            assert(r@.imports =~= r.imports@.map_values(
                |v: (Location, ModuleId, Vec<GlobalStr>)| (v.0, v.1, v.2@),
            ));
        }
        r
    }

    /// Appends a parsed function to the registry and hands back its handle.
    pub fn push_fn(&mut self, contract: FunctionContract, statement: Statement) -> (r: FunctionId)
        ensures
            final(self).function_registry@ == old(self).function_registry@.push(
                (contract, statement),
            ),
            r == old(self).function_registry@.len(),
            final(self).structs == old(self).structs,
            final(self).functions == old(self).functions,
            final(self).external_functions == old(self).external_functions,
            final(self).static_values == old(self).static_values,
            final(self).imports == old(self).imports,
            final(self).exports == old(self).exports,
    {
        let id = self.function_registry.len();
        self.function_registry.push((contract, statement));
        id
    }

    /// The registry entry behind a handle, if the handle is in range.
    pub fn get_fn(&self, id: FunctionId) -> (r: Option<&(FunctionContract, Statement)>)
        ensures
            match r {
                Some(f) => id < self.function_registry@.len() && *f
                    == self.function_registry@[id as int],
                None => id >= self.function_registry@.len(),
            },
    {
        if id < self.function_registry.len() {
            Some(&self.function_registry[id])
        } else {
            None
        }
    }

    /// Whether any item table already binds `key`.
    pub fn is_defined(&self, key: GlobalStr) -> (r: bool)
        requires
            self.wf(),
        ensures
            r == module_defines(self@, key),
    {
        self.imports.contains_key(key) || self.functions.contains_key(key)
            || self.structs.contains_key(key) || self.static_values.contains_key(key)
            || self.external_functions.contains_key(key)
    }

    /// Pushes one top-level statement into the module: exactly the step that
    /// `assemble_step` describes, with a rejected statement leaving the
    /// module unchanged.
    pub fn push_statement(&mut self, statement: Statement) -> (r: Result<
        (),
        ProgramFormingError,
    >)
        requires
            old(self).wf(),
        ensures
            final(self).wf(),
            ({
                let step = assemble_step(old(self)@, statement);
                &&& final(self)@ == step.0
                &&& r == (match step.1 {
                    Option::None => Result::<(), ProgramFormingError>::Ok(()),
                    Option::Some(e) => Result::<(), ProgramFormingError>::Err(e),
                })
            }),
    {
        let ghost m0 = self@;
        match statement {
            Statement::Function(contract, body) => {
                let name = match contract.name {
                    Some(name) => name,
                    None => {
                        return Err(
                            ProgramFormingError::AnonymousFunctionAtGlobalLevel(contract.location),
                        );
                    },
                };
                if self.is_defined(name) {
                    return Err(
                        ProgramFormingError::IdentAlreadyDefined(contract.location, name),
                    );
                }
                let fn_id = self.push_fn(contract, *body);
                self.functions.insert(name, fn_id);
                proof {
                    assert(self@.structs =~= m0.structs);
                    assert(self@.imports =~= m0.imports);
                }
                Ok(())
            },
            Statement::Struct { name, elements, location, global_impl, impls, annotations, generics } => {
                if self.is_defined(name) {
                    return Err(ProgramFormingError::IdentAlreadyDefined(location, name));
                }
                let ghost gi0 = global_impl@;
                let ghost impls0 = impls@;
                let ghost base = self.function_registry@.len() as int;
                let mut struct_global_impl: SMap<FunctionId> = SMap::new();
                let mut items = global_impl;
                let ghost mut done: int = 0;
                proof {
                    assert(gi0.take(0) =~= Seq::<(GlobalStr, FunctionContract, Box<Statement>)>::empty());
                    assert(baked_registry(gi0.take(0)) =~= Seq::<(FunctionContract, Statement)>::empty());
                    assert(self.function_registry@ =~= old(self).function_registry@ + baked_registry(gi0.take(0)));
                }
                while items.len() > 0
                    invariant
                        self.wf(),
                        0 <= done <= gi0.len(),
                        items@ == gi0.skip(done),
                        struct_global_impl.wf(),
                        struct_global_impl@ == baked_map(gi0.take(done), base),
                        base == old(self).function_registry@.len(),
                        self.function_registry@ == old(self).function_registry@ + baked_registry(
                            gi0.take(done as int),
                        ),
                        self.structs == old(self).structs,
                        self.functions == old(self).functions,
                        self.external_functions == old(self).external_functions,
                        self.static_values == old(self).static_values,
                        self.imports == old(self).imports,
                        self.exports == old(self).exports,
                    decreases items@.len(),
                {
                    let (function_name, fc, fbody) = items.remove(0);
                    let id = self.push_fn(fc, *fbody);
                    struct_global_impl.insert(function_name, id);
                    proof {
                        let d = done;
                        assert(gi0.skip(d)[0] == gi0[d]);
                        assert(items@ =~= gi0.skip(d + 1));
                        assert(gi0.take(d + 1).drop_last() =~= gi0.take(d));
                        assert(gi0.take(d + 1).last() == gi0[d]);
                        assert(baked_registry(gi0.take(d + 1)) =~= baked_registry(gi0.take(d)).push(
                            (gi0[d].1, *gi0[d].2),
                        ));
                        assert(self.function_registry@ =~= old(self).function_registry@
                            + baked_registry(gi0.take(d + 1)));
                        done = done + 1;
                    }
                }
                proof {
                    assert(gi0.take(gi0.len() as int) =~= gi0);
                }
                let mut struct_impls: Vec<(GlobalStr, SMap<FunctionId>)> = Vec::new();
                let mut impl_items = impls;
                let ghost mut idone: int = 0;
                proof {
                    assert(impls0.take(0) =~= Seq::<(GlobalStr, ImplItems)>::empty());
                    assert(impls_registry(impls0.take(0)) =~= Seq::<(FunctionContract, Statement)>::empty());
                    assert(impls_maps(impls0.take(0), base + gi0.len()) =~= Seq::<(GlobalStr, Map<u64, FunctionId>)>::empty());
                    assert(self.function_registry@ =~= old(self).function_registry@
                        + baked_registry(gi0) + impls_registry(impls0.take(0)));
                }
                while impl_items.len() > 0
                    invariant
                        self.wf(),
                        0 <= idone <= impls0.len(),
                        impl_items@ == impls0.skip(idone),
                        base == old(self).function_registry@.len(),
                        forall|j: int|
                            0 <= j < struct_impls@.len() ==> (#[trigger] struct_impls@[j]).1.wf(),
                        struct_impls@.map_values(
                            |p: (GlobalStr, SMap<FunctionId>)| (p.0, p.1@),
                        ) == impls_maps(impls0.take(idone), base + gi0.len()),
                        self.function_registry@ == old(self).function_registry@ + baked_registry(
                            gi0,
                        ) + impls_registry(impls0.take(idone)),
                        self.structs == old(self).structs,
                        self.functions == old(self).functions,
                        self.external_functions == old(self).external_functions,
                        self.static_values == old(self).static_values,
                        self.imports == old(self).imports,
                        self.exports == old(self).exports,
                    decreases impl_items@.len(),
                {
                    let (trait_name, members) = impl_items.remove(0);
                    let ghost mem0 = members@;
                    let ghost ibase = self.function_registry@.len() as int;
                    let mut cur_impl: SMap<FunctionId> = SMap::new();
                    let mut mitems = members;
                    let ghost mut mdone: int = 0;
                    let ghost reg_before = self.function_registry@;
                    proof {
                        assert(mem0.take(0) =~= Seq::<(GlobalStr, FunctionContract, Box<Statement>)>::empty());
                        assert(baked_registry(mem0.take(0)) =~= Seq::<(FunctionContract, Statement)>::empty());
                        assert(self.function_registry@ =~= reg_before + baked_registry(mem0.take(0)));
                    }
                    while mitems.len() > 0
                        invariant
                            self.wf(),
                            0 <= mdone <= mem0.len(),
                            mitems@ == mem0.skip(mdone),
                            cur_impl.wf(),
                            cur_impl@ == baked_map(mem0.take(mdone), ibase),
                            ibase == reg_before.len(),
                            self.function_registry@ == reg_before + baked_registry(
                                mem0.take(mdone),
                            ),
                            self.structs == old(self).structs,
                            self.functions == old(self).functions,
                            self.external_functions == old(self).external_functions,
                            self.static_values == old(self).static_values,
                            self.imports == old(self).imports,
                            self.exports == old(self).exports,
                        decreases mitems@.len(),
                    {
                        let (function_name, fc, fbody) = mitems.remove(0);
                        let id = self.push_fn(fc, *fbody);
                        cur_impl.insert(function_name, id);
                        proof {
                            let d = mdone;
                            assert(mem0.skip(d)[0] == mem0[d]);
                            assert(mitems@ =~= mem0.skip(d + 1));
                            assert(mem0.take(d + 1).drop_last() =~= mem0.take(d));
                            assert(mem0.take(d + 1).last() == mem0[d]);
                            assert(baked_registry(mem0.take(d + 1)) =~= baked_registry(
                                mem0.take(d),
                            ).push((mem0[d].1, *mem0[d].2)));
                            assert(self.function_registry@ =~= reg_before + baked_registry(
                                mem0.take(d + 1),
                            ));
                            mdone = mdone + 1;
                        }
                    }
                    struct_impls.push((trait_name, cur_impl));
                    proof {
                        let d = idone;
                        assert(mem0.take(mem0.len() as int) =~= mem0);
                        assert(impls0.skip(d)[0] == impls0[d]);
                        assert(impl_items@ =~= impls0.skip(d + 1));
                        assert(impls0.take(d + 1).drop_last() =~= impls0.take(d));
                        assert(impls0.take(d + 1).last() == impls0[d]);
                        assert(mem0 == impls0[d].1@);
                        assert(impls_registry(impls0.take(d + 1)) =~= impls_registry(
                            impls0.take(d),
                        ) + baked_registry(mem0));
                        assert(self.function_registry@ =~= old(self).function_registry@
                            + baked_registry(gi0) + impls_registry(impls0.take(d + 1)));
                        assert(ibase == base + gi0.len() + impls_registry(impls0.take(d)).len());
                        assert(struct_impls@.map_values(
                            |p: (GlobalStr, SMap<FunctionId>)| (p.0, p.1@),
                        ) =~= impls_maps(impls0.take(d + 1), base + gi0.len()));
                        idone = idone + 1;
                    }
                }
                proof {
                    assert(impls0.take(impls0.len() as int) =~= impls0);
                }
                let typ = Struct {
                    loc: location,
                    name,
                    fields: elements,
                    global_impl: struct_global_impl,
                    trait_impls: struct_impls,
                    annotations,
                    generics,
                };
                self.structs.insert(name, typ);
                proof {
                    let step = assemble_step(m0, statement);
                    assert(self@.structs =~= step.0.structs);
                    assert(self@.imports =~= step.0.imports);
                }
                Ok(())
            },
            Statement::Var(name, expr, typ_opt, location) => {
                let typ = match typ_opt {
                    Some(typ) => typ,
                    None => {
                        return Err(ProgramFormingError::GlobalValueNoType(*expr.loc()));
                    },
                };
                if self.is_defined(name) {
                    return Err(ProgramFormingError::IdentAlreadyDefined(location, name));
                }
                match expr {
                    Expression::Literal(val, _) => {
                        self.static_values.insert(name, (typ, val));
                        proof {
                            assert(self@.structs =~= m0.structs);
                            assert(self@.imports =~= m0.imports);
                        }
                        Ok(())
                    },
                    _ => Err(ProgramFormingError::GlobalValueNoLiteral(*expr.loc())),
                }
            },
            Statement::ExternalFunction(contract) => {
                let name = match contract.name {
                    Some(name) => name,
                    None => {
                        return Err(
                            ProgramFormingError::AnonymousFunctionAtGlobalLevel(contract.location),
                        );
                    },
                };
                if self.is_defined(name) {
                    return Err(
                        ProgramFormingError::IdentAlreadyDefined(contract.location, name),
                    );
                }
                self.external_functions.insert(name, contract);
                proof {
                    assert(self@.structs =~= m0.structs);
                    assert(self@.imports =~= m0.imports);
                }
                Ok(())
            },
            Statement::Export(key, exported_key, loc) => {
                if !self.is_defined(key) {
                    return Err(ProgramFormingError::IdentNotDefined(loc, key));
                }
                self.exports.insert(exported_key, key);
                proof {
                    assert(self@.structs =~= m0.structs);
                    assert(self@.imports =~= m0.imports);
                }
                Ok(())
            },
            Statement::Block(_, loc) => Err(
                ProgramFormingError::NoCodeOutsideOfFunctions(loc),
            ),
        }
    }

    /// Pushes a whole batch: every statement is attempted, the rejections
    /// are collected in order, and the batch fails when any was rejected.
    pub fn push_all(&mut self, statements: Vec<Statement>) -> (r: Result<
        (),
        Vec<ProgramFormingError>,
    >)
        requires
            old(self).wf(),
        ensures
            final(self).wf(),
            ({
                let batch = assemble_all(old(self)@, statements@);
                &&& final(self)@ == batch.0
                &&& match r {
                    Result::Ok(u) => batch.1.len() == 0,
                    Result::Err(errs) => errs@ == batch.1 && batch.1.len() > 0,
                }
            }),
    {
        let ghost stmts0 = statements@;
        let ghost m0 = self@;
        let mut errors: Vec<ProgramFormingError> = Vec::new();
        let mut stmts = statements;
        let ghost mut done: int = 0;
        proof {
            assert(stmts0.skip(0) =~= stmts0);
        }
        while stmts.len() > 0
            invariant
                self.wf(),
                0 <= done <= stmts0.len(),
                stmts@ == stmts0.skip(done),
                assemble_all(m0, stmts0) == ({
                    let rest = assemble_all(self@, stmts0.skip(done));
                    (rest.0, errors@ + rest.1)
                }),
            decreases stmts@.len(),
        {
            let ghost errors_before = errors@;
            let ghost m_before = self@;
            let ghost d = done;
            let s = stmts.remove(0);
            let res = self.push_statement(s);
            match res {
                Ok(_) => {},
                Err(e) => {
                    errors.push(e);
                },
            }
            proof {
                assert(stmts0.skip(d)[0] == stmts0[d]);
                assert(s == stmts0[d]);
                assert(stmts@ =~= stmts0.skip(d + 1));
                let step = assemble_step(m_before, s);
                let rest_new = assemble_all(self@, stmts0.skip(d + 1));
                assert(stmts0.skip(d).skip(1) =~= stmts0.skip(d + 1));
                match step.1 {
                    Option::Some(e) => {
                        assert(errors@ =~= errors_before.push(e));
                        assert(errors_before + (seq![e] + rest_new.1) =~= errors@ + rest_new.1);
                    },
                    Option::None => {
                        assert(errors@ == errors_before);
                        assert(errors_before + (Seq::<ProgramFormingError>::empty() + rest_new.1)
                            =~= errors@ + rest_new.1);
                    },
                }
                done = done + 1;
            }
        }
        proof {
            let d = done;
            assert(stmts0.skip(d).len() == 0);
            assert(assemble_all(self@, stmts0.skip(d)).1 =~= Seq::<ProgramFormingError>::empty());
            assert(errors@ + Seq::<ProgramFormingError>::empty() =~= errors@);
        }
        if errors.len() > 0 {
            Err(errors)
        } else {
            Ok(())
        }
    }
}

/// Binding a name that any item table already binds is rejected with
/// `IdentAlreadyDefined`, and the module is left exactly as it was, so no
/// later phase can observe either claimant: the flat per-module namespace is
/// kept for functions, structs, statics and external functions alike.
pub proof fn lemma_duplicate_name_rejected(m: ModuleV, s: Statement)
    requires
        match s {
            Statement::Function(contract, _) => contract.name is Some && module_defines(
                m,
                contract.name->0,
            ),
            Statement::Struct { name, .. } => module_defines(m, name),
            Statement::Var(name, _, typ_opt, _) => typ_opt is Some && module_defines(m, name),
            Statement::ExternalFunction(contract) => contract.name is Some && module_defines(
                m,
                contract.name->0,
            ),
            _ => false,
        },
    ensures
        assemble_step(m, s).0 == m,
        assemble_step(m, s).1 matches Some(e) && e is IdentAlreadyDefined,
{
}

} // verus!
