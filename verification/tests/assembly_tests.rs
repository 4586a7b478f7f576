use mira_core::ast::{
    Annotations, Expression, FunctionContract, LiteralValue, Path, Statement, TypeRef,
};
use mira_core::errors::ProgramFormingError;
use mira_core::module::Module;
use mira_core::names::Location;
use mira_core::strmap::SMap;

fn loc(line: u32) -> Location {
    Location { file: 7, line, column: 1 }
}

fn contract(name: Option<u64>, line: u32) -> FunctionContract {
    FunctionContract {
        name,
        arguments: Vec::new(),
        return_type: TypeRef::Void(loc(line), 0),
        location: loc(line),
        annotations: Annotations::new(),
    }
}

fn body(line: u32) -> Box<Statement> {
    Box::new(Statement::Block(Vec::new(), loc(line)))
}

fn empty_module() -> Module {
    Module::new(SMap::new())
}

#[test]
fn push_function_registers_it() {
    let mut m = empty_module();
    let r = m.push_statement(Statement::Function(contract(Some(40), 1), body(1)));
    assert!(r.is_ok());
    assert_eq!(m.functions.get(40), Some(&0));
    assert!(m.get_fn(0).is_some());
    assert!(m.get_fn(1).is_none());
}

#[test]
fn duplicate_function_name_rejected() {
    let mut m = empty_module();
    assert!(m
        .push_statement(Statement::Function(contract(Some(40), 1), body(1)))
        .is_ok());
    let r = m.push_statement(Statement::Function(contract(Some(40), 2), body(2)));
    assert_eq!(r, Err(ProgramFormingError::IdentAlreadyDefined(loc(2), 40)));
    // the first binding stands, the second left no trace
    assert_eq!(m.functions.get(40), Some(&0));
    assert_eq!(m.function_registry.len(), 1);
}

#[test]
fn anonymous_function_rejected() {
    let mut m = empty_module();
    let r = m.push_statement(Statement::Function(contract(None, 3), body(3)));
    assert_eq!(
        r,
        Err(ProgramFormingError::AnonymousFunctionAtGlobalLevel(loc(3)))
    );
    assert_eq!(m.function_registry.len(), 0);
}

#[test]
fn struct_bakes_impl_members() {
    let mut m = empty_module();
    let r = m.push_statement(Statement::Struct {
        name: 50,
        elements: vec![(51, TypeRef::Void(loc(1), 0))],
        location: loc(1),
        global_impl: vec![(60, contract(Some(60), 2), body(2))],
        impls: vec![(70, vec![(71, contract(Some(71), 3), body(3))])],
        annotations: Annotations::new(),
        generics: Vec::new(),
    });
    assert!(r.is_ok());
    assert_eq!(m.function_registry.len(), 2);
    let s = m.structs.get(50).expect("struct stored");
    assert_eq!(s.global_impl.get(60), Some(&0));
    assert_eq!(s.trait_impls.len(), 1);
    assert_eq!(s.trait_impls[0].0, 70);
    assert_eq!(s.trait_impls[0].1.get(71), Some(&1));
    assert_eq!(s.fields.len(), 1);
}

#[test]
fn duplicate_struct_name_rejected() {
    let mut m = empty_module();
    let mk = |line: u32| Statement::Struct {
        name: 50,
        elements: Vec::new(),
        location: loc(line),
        global_impl: Vec::new(),
        impls: Vec::new(),
        annotations: Annotations::new(),
        generics: Vec::new(),
    };
    assert!(m.push_statement(mk(1)).is_ok());
    let r = m.push_statement(mk(2));
    assert_eq!(r, Err(ProgramFormingError::IdentAlreadyDefined(loc(2), 50)));
}

#[test]
fn global_value_needs_type_and_literal() {
    let mut m = empty_module();
    let no_type = Statement::Var(
        80,
        Expression::Literal(LiteralValue::UInt(3), loc(4)),
        None,
        loc(4),
    );
    assert_eq!(
        m.push_statement(no_type),
        Err(ProgramFormingError::GlobalValueNoType(loc(4)))
    );
    let no_literal = Statement::Var(
        80,
        Expression::Other(loc(5)),
        Some(TypeRef::Void(loc(5), 0)),
        loc(5),
    );
    assert_eq!(
        m.push_statement(no_literal),
        Err(ProgramFormingError::GlobalValueNoLiteral(loc(5)))
    );
    let ok = Statement::Var(
        80,
        Expression::Literal(LiteralValue::UInt(3), loc(6)),
        Some(TypeRef::Void(loc(6), 0)),
        loc(6),
    );
    assert!(m.push_statement(ok).is_ok());
    assert!(m.static_values.get(80).is_some());
}

#[test]
fn external_function_needs_fresh_name() {
    let mut m = empty_module();
    assert!(m
        .push_statement(Statement::ExternalFunction(contract(Some(90), 1)))
        .is_ok());
    assert_eq!(
        m.push_statement(Statement::ExternalFunction(contract(Some(90), 2))),
        Err(ProgramFormingError::IdentAlreadyDefined(loc(2), 90))
    );
    assert_eq!(
        m.push_statement(Statement::ExternalFunction(contract(None, 3))),
        Err(ProgramFormingError::AnonymousFunctionAtGlobalLevel(loc(3)))
    );
}

#[test]
fn export_requires_defined_name() {
    let mut m = empty_module();
    assert_eq!(
        m.push_statement(Statement::Export(40, 41, loc(1))),
        Err(ProgramFormingError::IdentNotDefined(loc(1), 40))
    );
    assert!(m
        .push_statement(Statement::Function(contract(Some(40), 2), body(2)))
        .is_ok());
    assert!(m.push_statement(Statement::Export(40, 41, loc(3))).is_ok());
    assert_eq!(m.exports.get(41), Some(&40));
}

#[test]
fn stray_statement_rejected() {
    let mut m = empty_module();
    assert_eq!(
        m.push_statement(Statement::Block(Vec::new(), loc(9))),
        Err(ProgramFormingError::NoCodeOutsideOfFunctions(loc(9)))
    );
}

#[test]
fn push_all_collects_errors_in_order() {
    let mut m = empty_module();
    let batch = vec![
        Statement::Function(contract(Some(40), 1), body(1)),
        Statement::Function(contract(None, 2), body(2)),
        Statement::Export(99, 98, loc(3)),
        Statement::Function(contract(Some(42), 4), body(4)),
    ];
    let errs = m.push_all(batch).unwrap_err();
    assert_eq!(
        errs,
        vec![
            ProgramFormingError::AnonymousFunctionAtGlobalLevel(loc(2)),
            ProgramFormingError::IdentNotDefined(loc(3), 99),
        ]
    );
    // the successful statements still went in
    assert!(m.functions.get(40).is_some());
    assert!(m.functions.get(42).is_some());
}

#[test]
fn push_all_ok_on_clean_batch() {
    let mut m = empty_module();
    let batch = vec![
        Statement::Function(contract(Some(40), 1), body(1)),
        Statement::Export(40, 41, loc(2)),
    ];
    assert!(m.push_all(batch).is_ok());
}

#[test]
fn is_defined_covers_all_tables() {
    let mut imports = SMap::new();
    imports.insert(30, (loc(0), 0usize, Vec::new()));
    let mut m = Module::new(imports);
    assert!(m.is_defined(30));
    assert!(!m.is_defined(40));
    assert!(m
        .push_statement(Statement::Function(contract(Some(40), 1), body(1)))
        .is_ok());
    assert!(m.is_defined(40));
}

#[test]
fn type_ref_equality_ignores_locations() {
    let a = TypeRef::Reference {
        num_references: 1,
        type_path: Path::single(10),
        loc: loc(1),
    };
    let b = TypeRef::Reference {
        num_references: 1,
        type_path: Path::single(10),
        loc: loc(9),
    };
    let c = TypeRef::Reference {
        num_references: 2,
        type_path: Path::single(10),
        loc: loc(1),
    };
    assert!(a == b);
    assert!(a != c);
    let sa = TypeRef::SizedArray {
        num_references: 0,
        child: Box::new(a),
        number_elements: 4,
        loc: loc(2),
    };
    let sb = TypeRef::SizedArray {
        num_references: 0,
        child: Box::new(b),
        number_elements: 4,
        loc: loc(5),
    };
    assert!(sa == sb);
    assert!(sa != c);
}

#[test]
fn type_ref_deref_helpers() {
    let referenced = TypeRef::Reference {
        num_references: 2,
        type_path: Path::single(10),
        loc: loc(1),
    };
    assert_eq!(referenced.get_ref_count(), 2);
    assert!(referenced.can_deref());
    let once = referenced.try_clone_deref().unwrap();
    assert_eq!(once.get_ref_count(), 1);
    let value = TypeRef::Void(loc(1), 0);
    assert!(!value.can_deref());
    assert!(value.try_clone_deref().is_none());
    let never = TypeRef::Never(loc(1));
    assert_eq!(never.get_ref_count(), 0);
    assert_eq!(*never.loc(), loc(1));
    assert!(never.try_clone_deref().is_none());
}
