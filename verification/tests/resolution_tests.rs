use mira_core::ast::{Annotations, Generic, Path, PathSegment, TypeRef};
use mira_core::context::{ModuleContext, ModuleScopeValue, UntypedModule, UntypedStruct, UntypedTrait};
use mira_core::errors::{ScopeKind, TypecheckingError};
use mira_core::names::{Location, NAME_I32};
use mira_core::resolve::resolve_import;
use mira_core::strmap::SMap;
use mira_core::typeck::{typed_resolve_import, StructSlot, TypecheckingContext};
use mira_core::types::Type;

fn loc(line: u32) -> Location {
    Location { file: 3, line, column: 1 }
}

fn named(refs: u8, name: u64, line: u32) -> TypeRef {
    TypeRef::Reference { num_references: refs, type_path: Path::single(name), loc: loc(line) }
}

fn plain_module(scope_entries: &[(u64, ModuleScopeValue)]) -> UntypedModule {
    let mut scope = SMap::new();
    for &(k, v) in scope_entries {
        scope.insert(k, v);
    }
    UntypedModule { scope, exports: SMap::new(), imports: SMap::new(), path: 3, root: 3 }
}

fn plain_struct(name: u64, module_id: usize, elements: Vec<(u64, TypeRef)>) -> UntypedStruct {
    UntypedStruct {
        name,
        elements,
        location: loc(0),
        global_impl: SMap::new(),
        annotations: Annotations::new(),
        module_id,
        generics: Vec::new(),
    }
}

const S: u64 = 100;
const A: u64 = 101;
const B: u64 = 102;
const FX: u64 = 110;
const FY: u64 = 111;

#[test]
fn minimal_struct_recursive_field() {
    // struct S { x: i32; y: S } -- exactly one recursive-type error at y
    let mut ctx = ModuleContext::new();
    ctx.modules.push(plain_module(&[(S, ModuleScopeValue::Struct(0))]));
    ctx.structs.push(plain_struct(
        S,
        0,
        vec![(FX, named(0, NAME_I32, 1)), (FY, named(0, S, 2))],
    ));
    let mut tcx = TypecheckingContext::new(&ctx);
    let mut errors = Vec::new();
    tcx.resolve_structs(&ctx, &mut errors);
    assert_eq!(
        errors,
        vec![TypecheckingError::RecursiveTypeDetected { location: loc(2) }]
    );
    match &tcx.structs[0] {
        StructSlot::Resolved(ts) => {
            assert_eq!(ts.name, S);
            assert_eq!(ts.elements.len(), 1);
            assert_eq!(ts.elements[0].0, FX);
            assert!(matches!(ts.elements[0].1, Type::PrimitiveI32(0)));
        },
        _ => panic!("struct not resolved"),
    }
}

#[test]
fn reference_cycle_is_legal() {
    // struct S { next: &S } -- no errors, field points back with one reference
    let mut ctx = ModuleContext::new();
    ctx.modules.push(plain_module(&[(S, ModuleScopeValue::Struct(0))]));
    ctx.structs.push(plain_struct(S, 0, vec![(FX, named(1, S, 1))]));
    let mut tcx = TypecheckingContext::new(&ctx);
    let mut errors = Vec::new();
    tcx.resolve_structs(&ctx, &mut errors);
    assert!(errors.is_empty());
    match &tcx.structs[0] {
        StructSlot::Resolved(ts) => {
            assert_eq!(ts.elements.len(), 1);
            match &ts.elements[0].1 {
                Type::Struct { struct_id, name, num_references } => {
                    assert_eq!(*struct_id, 0);
                    assert_eq!(*name, S);
                    assert_eq!(*num_references, 1);
                },
                other => panic!("unexpected field type: {other:?}"),
            }
        },
        _ => panic!("struct not resolved"),
    }
}

#[test]
fn recursion_rule_four_shapes() {
    // struct A { a: A } is rejected
    let run = |elements_a: Vec<(u64, TypeRef)>, elements_b: Option<Vec<(u64, TypeRef)>>| {
        let mut ctx = ModuleContext::new();
        let mut entries = vec![(A, ModuleScopeValue::Struct(0))];
        if elements_b.is_some() {
            entries.push((B, ModuleScopeValue::Struct(1)));
        }
        ctx.modules.push(plain_module(&entries));
        ctx.structs.push(plain_struct(A, 0, elements_a));
        if let Some(eb) = elements_b {
            ctx.structs.push(plain_struct(B, 0, eb));
        }
        let mut tcx = TypecheckingContext::new(&ctx);
        let mut errors = Vec::new();
        tcx.resolve_structs(&ctx, &mut errors);
        errors
    };
    // struct A { a: A } -- rejected
    let e1 = run(vec![(FX, named(0, A, 1))], None);
    assert_eq!(e1, vec![TypecheckingError::RecursiveTypeDetected { location: loc(1) }]);
    // struct A { a: &A } -- accepted
    let e2 = run(vec![(FX, named(1, A, 1))], None);
    assert!(e2.is_empty());
    // struct A { a: B } struct B { a: &A } -- accepted
    let e3 = run(vec![(FX, named(0, B, 1))], Some(vec![(FY, named(1, A, 2))]));
    assert!(e3.is_empty());
    // struct A { a: B } struct B { a: A } -- rejected
    let e4 = run(vec![(FX, named(0, B, 1))], Some(vec![(FY, named(0, A, 2))]));
    assert_eq!(e4, vec![TypecheckingError::RecursiveTypeDetected { location: loc(2) }]);
}

#[test]
fn sized_array_of_primitive() {
    // struct Row { cells: [i32; 4] }
    let mut ctx = ModuleContext::new();
    ctx.modules.push(plain_module(&[(S, ModuleScopeValue::Struct(0))]));
    let arr = TypeRef::SizedArray {
        num_references: 0,
        child: Box::new(named(0, NAME_I32, 1)),
        number_elements: 4,
        loc: loc(1),
    };
    ctx.structs.push(plain_struct(S, 0, vec![(FX, arr)]));
    let mut tcx = TypecheckingContext::new(&ctx);
    let mut errors = Vec::new();
    tcx.resolve_structs(&ctx, &mut errors);
    assert!(errors.is_empty());
    match &tcx.structs[0] {
        StructSlot::Resolved(ts) => match &ts.elements[0].1 {
            Type::SizedArray { typ, num_references, number_elements } => {
                assert!(matches!(**typ, Type::PrimitiveI32(0)));
                assert_eq!(*num_references, 0);
                assert_eq!(*number_elements, 4);
            },
            other => panic!("unexpected field type: {other:?}"),
        },
        _ => panic!("struct not resolved"),
    }
}

#[test]
fn primitive_name_wins_over_struct() {
    // a user struct named i32 is ignored where a type i32 is written
    let mut ctx = ModuleContext::new();
    ctx.modules.push(plain_module(&[
        (NAME_I32, ModuleScopeValue::Struct(0)),
        (S, ModuleScopeValue::Struct(1)),
    ]));
    ctx.structs.push(plain_struct(NAME_I32, 0, Vec::new()));
    ctx.structs.push(plain_struct(S, 0, vec![(FX, named(0, NAME_I32, 1))]));
    let mut tcx = TypecheckingContext::new(&ctx);
    let mut errors = Vec::new();
    tcx.resolve_structs(&ctx, &mut errors);
    assert!(errors.is_empty());
    match &tcx.structs[1] {
        StructSlot::Resolved(ts) => {
            assert!(matches!(ts.elements[0].1, Type::PrimitiveI32(0)));
        },
        _ => panic!("struct not resolved"),
    }
}

#[test]
fn handles_carry_over() {
    // typed tables mirror the untyped ones, entry for entry
    let mut ctx = ModuleContext::new();
    ctx.modules.push(plain_module(&[
        (A, ModuleScopeValue::Struct(0)),
        (B, ModuleScopeValue::Struct(1)),
    ]));
    ctx.structs.push(plain_struct(A, 0, Vec::new()));
    ctx.structs.push(plain_struct(B, 0, vec![(FX, named(1, A, 1))]));
    let mut tcx = TypecheckingContext::new(&ctx);
    assert_eq!(tcx.modules.len(), ctx.modules.len());
    assert_eq!(tcx.structs.len(), ctx.structs.len());
    let mut errors = Vec::new();
    tcx.resolve_structs(&ctx, &mut errors);
    assert!(errors.is_empty());
    for (i, slot) in tcx.structs.iter().enumerate() {
        match slot {
            StructSlot::Resolved(ts) => {
                assert_eq!(ts.name, ctx.structs[i].name);
                assert_eq!(ts.module_id, ctx.structs[i].module_id);
                assert_eq!(ts.id, i);
            },
            _ => panic!("slot {i} not resolved"),
        }
    }
}

#[test]
fn import_chain_reaches_the_struct() {
    // module A exports Foo; B imports it from A; C imports it from B
    let foo: u64 = 120;
    let mut ctx = ModuleContext::new();
    let mut ma = plain_module(&[(foo, ModuleScopeValue::Struct(0))]);
    ma.exports.insert(foo, foo);
    let mut mb = plain_module(&[]);
    mb.exports.insert(foo, foo);
    mb.imports.insert(foo, (loc(1), 0, vec![foo]));
    let mut mc = plain_module(&[]);
    mc.imports.insert(foo, (loc(2), 1, vec![foo]));
    ctx.modules.push(ma);
    ctx.modules.push(mb);
    ctx.modules.push(mc);
    ctx.structs.push(plain_struct(foo, 0, Vec::new()));
    let mut visited = Vec::new();
    let r = resolve_import(&ctx, 2, &[foo], &loc(9), &mut visited);
    assert_eq!(r, Ok(ModuleScopeValue::Struct(0)));
    // and resolve_imports folds it into the typed scope of C
    let mut tcx = TypecheckingContext::new(&ctx);
    let errors = tcx.resolve_imports(&ctx);
    assert!(errors.is_empty());
    let mut v2 = Vec::new();
    let r2 = typed_resolve_import(&tcx, 2, &[foo], &loc(9), &mut v2);
    assert_eq!(r2, Ok(ModuleScopeValue::Struct(0)));
}

#[test]
fn import_cycle_detected_once() {
    // A imports x from B, B imports x from A
    let x: u64 = 130;
    let mut ctx = ModuleContext::new();
    let mut ma = plain_module(&[]);
    ma.exports.insert(x, x);
    ma.imports.insert(x, (loc(1), 1, vec![x]));
    let mut mb = plain_module(&[]);
    mb.exports.insert(x, x);
    mb.imports.insert(x, (loc(2), 0, vec![x]));
    ctx.modules.push(ma);
    ctx.modules.push(mb);
    let mut visited = Vec::new();
    let r = resolve_import(&ctx, 0, &[x], &loc(9), &mut visited);
    assert!(matches!(r, Err(TypecheckingError::CyclicDependency { .. })));
    // a whole import-resolution pass reports it exactly twice: once per
    // module whose import chain loops
    let mut tcx = TypecheckingContext::new(&ctx);
    let errors = tcx.resolve_imports(&ctx);
    assert_eq!(errors.len(), 2);
    assert!(errors
        .iter()
        .all(|e| matches!(e, TypecheckingError::CyclicDependency { .. })));
}

#[test]
fn export_gating_across_modules() {
    // crossing a module boundary needs an export; at home, scope suffices
    let name: u64 = 140;
    let mut ctx = ModuleContext::new();
    let ma = plain_module(&[(name, ModuleScopeValue::Static(0))]);
    let mut mb = plain_module(&[]);
    mb.imports.insert(name, (loc(1), 0, vec![name]));
    ctx.modules.push(ma);
    ctx.modules.push(mb);
    ctx.statics.push((
        TypeRef::Void(loc(0), 0),
        mira_core::ast::LiteralValue::UInt(1),
        0,
        loc(0),
        Annotations::new(),
    ));
    // at home: found in scope without an export
    let mut v1 = Vec::new();
    assert_eq!(
        resolve_import(&ctx, 0, &[name], &loc(9), &mut v1),
        Ok(ModuleScopeValue::Static(0))
    );
    // from outside: rejected, nothing exported
    let mut v2 = Vec::new();
    assert_eq!(
        resolve_import(&ctx, 1, &[name], &loc(9), &mut v2),
        Err(TypecheckingError::ExportNotFound { location: loc(1), name })
    );
}

#[test]
fn struct_member_path_resolves_to_function() {
    // S.f walks into the struct's impl table
    let f: u64 = 150;
    let mut ctx = ModuleContext::new();
    ctx.modules.push(plain_module(&[(S, ModuleScopeValue::Struct(0))]));
    let mut st = plain_struct(S, 0, Vec::new());
    st.global_impl.insert(f, 5);
    ctx.structs.push(st);
    let mut visited = Vec::new();
    let r = resolve_import(&ctx, 0, &[S, f], &loc(9), &mut visited);
    assert_eq!(r, Ok(ModuleScopeValue::Function(5)));
}

#[test]
fn empty_path_names_the_module() {
    let ctx = {
        let mut c = ModuleContext::new();
        c.modules.push(plain_module(&[]));
        c
    };
    let mut visited = Vec::new();
    assert_eq!(
        resolve_import(&ctx, 0, &[], &loc(9), &mut visited),
        Ok(ModuleScopeValue::Module(0))
    );
}

#[test]
fn resolve_type_on_the_typed_world() {
    let mut ctx = ModuleContext::new();
    ctx.modules.push(plain_module(&[(S, ModuleScopeValue::Struct(0))]));
    ctx.structs.push(plain_struct(S, 0, Vec::new()));
    let mut tcx = TypecheckingContext::new(&ctx);
    let errors = tcx.resolve_imports(&ctx);
    assert!(errors.is_empty());
    let mut errs2 = Vec::new();
    tcx.resolve_structs(&ctx, &mut errs2);
    assert!(errs2.is_empty());
    // a primitive resolves without touching any scope
    let r = tcx.resolve_type(0, &named(0, NAME_I32, 1), &[]);
    assert!(matches!(r, Ok(Type::PrimitiveI32(0))));
    // a struct name resolves to its handle
    match tcx.resolve_type(0, &named(2, S, 1), &[]) {
        Ok(Type::Struct { struct_id, name, num_references }) => {
            assert_eq!(struct_id, 0);
            assert_eq!(name, S);
            assert_eq!(num_references, 2);
        },
        other => panic!("unexpected: {other:?}"),
    }
    // a generic in scope resolves to a generic
    let g: u64 = 160;
    assert!(matches!(
        tcx.resolve_type(0, &named(1, g, 1), &[g]),
        Ok(Type::Generic(n, 1)) if n == g
    ));
    // anything else is unbound
    assert!(matches!(
        tcx.resolve_type(0, &named(0, 9999, 1), &[]),
        Err(TypecheckingError::ExportNotFound { .. })
    ));
}

#[test]
fn unbound_name_in_field() {
    let mut ctx = ModuleContext::new();
    ctx.modules.push(plain_module(&[(S, ModuleScopeValue::Struct(0))]));
    ctx.structs.push(plain_struct(S, 0, vec![(FX, named(0, 9999, 1))]));
    let mut tcx = TypecheckingContext::new(&ctx);
    let mut errors = Vec::new();
    tcx.resolve_structs(&ctx, &mut errors);
    assert_eq!(
        errors,
        vec![TypecheckingError::UnboundIdent { location: loc(1), name: 9999 }]
    );
}

#[test]
fn field_naming_a_non_type() {
    let stat: u64 = 170;
    let mut ctx = ModuleContext::new();
    ctx.modules.push(plain_module(&[
        (S, ModuleScopeValue::Struct(0)),
        (stat, ModuleScopeValue::Static(0)),
    ]));
    ctx.structs.push(plain_struct(S, 0, vec![(FX, named(0, stat, 1))]));
    ctx.statics.push((
        TypeRef::Void(loc(0), 0),
        mira_core::ast::LiteralValue::UInt(1),
        0,
        loc(0),
        Annotations::new(),
    ));
    let mut tcx = TypecheckingContext::new(&ctx);
    let mut errors = Vec::new();
    tcx.resolve_structs(&ctx, &mut errors);
    assert_eq!(
        errors,
        vec![TypecheckingError::MismatchingScopeType {
            location: loc(1),
            expected: ScopeKind::Type,
            found: ScopeKind::Static,
        }]
    );
}

#[test]
fn generic_arguments_rejected_in_paths() {
    let mut ctx = ModuleContext::new();
    ctx.modules.push(plain_module(&[
        (A, ModuleScopeValue::Struct(0)),
        (B, ModuleScopeValue::Struct(1)),
    ]));
    ctx.structs.push(plain_struct(A, 0, Vec::new()));
    let with_args = TypeRef::Reference {
        num_references: 0,
        type_path: Path {
            entries: vec![PathSegment { name: A, generic_args: vec![named(0, NAME_I32, 1)] }],
        },
        loc: loc(2),
    };
    ctx.structs.push(plain_struct(B, 0, vec![(FX, with_args)]));
    let mut tcx = TypecheckingContext::new(&ctx);
    let mut errors = Vec::new();
    tcx.resolve_structs(&ctx, &mut errors);
    assert_eq!(
        errors,
        vec![TypecheckingError::UnexpectedGenerics { location: loc(2) }]
    );
}

#[test]
fn trait_object_fields_rejected_explicitly() {
    let mut ctx = ModuleContext::new();
    ctx.modules.push(plain_module(&[(S, ModuleScopeValue::Struct(0))]));
    let dynref = TypeRef::DynReference { num_references: 1, traits: Vec::new(), loc: loc(3) };
    ctx.structs.push(plain_struct(S, 0, vec![(FX, dynref)]));
    let mut tcx = TypecheckingContext::new(&ctx);
    let mut errors = Vec::new();
    tcx.resolve_structs(&ctx, &mut errors);
    assert_eq!(
        errors,
        vec![TypecheckingError::UnsupportedDynReference { location: loc(3) }]
    );
}

#[test]
fn generic_field_promoted_to_its_bounds() {
    let t_name: u64 = 180;
    let g_name: u64 = 181;
    let mut ctx = ModuleContext::new();
    ctx.modules.push(plain_module(&[
        (S, ModuleScopeValue::Struct(0)),
        (t_name, ModuleScopeValue::Trait(0)),
    ]));
    ctx.traits.push(UntypedTrait {
        name: t_name,
        location: loc(0),
        module_id: 0,
        annotations: Annotations::new(),
    });
    let mut st = plain_struct(S, 0, vec![(FX, named(1, g_name, 1))]);
    st.generics.push(Generic {
        name: g_name,
        bounds: vec![(Path::single(t_name), loc(0))],
    });
    ctx.structs.push(st);
    let mut tcx = TypecheckingContext::new(&ctx);
    let mut errors = Vec::new();
    tcx.resolve_structs(&ctx, &mut errors);
    assert!(errors.is_empty());
    match &tcx.structs[0] {
        StructSlot::Resolved(ts) => {
            assert_eq!(ts.generics, vec![(g_name, vec![0usize])]);
            match &ts.elements[0].1 {
                Type::Trait { trait_refs, num_references, real_name } => {
                    assert_eq!(trait_refs, &vec![0usize]);
                    assert_eq!(*num_references, 1);
                    assert_eq!(*real_name, g_name);
                },
                other => panic!("unexpected field type: {other:?}"),
            }
        },
        _ => panic!("struct not resolved"),
    }
}
