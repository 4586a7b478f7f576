//! The untyped parse tree that the parser hands to this core: dotted paths,
//! syntactic type references, top-level statements, function contracts and
//! parsed structs.

use vstd::prelude::*;

use crate::names::{FunctionId, GlobalStr, Location};
use crate::strmap::SMap;

verus! {

/// One segment of a dotted path: an identifier and the generic arguments
/// written at that segment.
#[derive(Debug)]
pub struct PathSegment {
    pub name: GlobalStr,
    pub generic_args: Vec<TypeRef>,
}

/// A dotted path, such as `module.Struct.method`.
#[derive(Debug)]
pub struct Path {
    pub entries: Vec<PathSegment>,
}

impl Path {
    /// A path of one plain segment.
    pub fn single(name: GlobalStr) -> (r: Path)
        ensures
            r.entries@.len() == 1,
            r.entries@[0].name == name,
            r.entries@[0].generic_args@.len() == 0,
    {
        let seg = PathSegment { name, generic_args: Vec::new() };
        let mut entries = Vec::new();
        entries.push(seg);
        Path { entries }
    }

    /// True when the path is one plain segment naming `n`.
    pub open spec fn is_single(self, n: GlobalStr) -> bool {
        self.entries@.len() == 1 && self.entries@[0].name == n
            && self.entries@[0].generic_args@.len() == 0
    }
}

/// A syntactic type, as parsed, before any name is resolved.
#[derive(Debug)]
pub enum TypeRef {
    /// A (possibly referenced) named type: `&&vec.Vec`.
    Reference { num_references: u8, type_path: Path, loc: Location },
    /// A trait-object type; parsed, but resolution rejects it for now.
    DynReference { num_references: u8, traits: Vec<Path>, loc: Location },
    /// The unit type `void`, possibly referenced.
    Void(Location, u8),
    /// The never type `!`; it cannot be referenced or dereferenced.
    Never(Location),
    /// `[T]`, possibly referenced.
    UnsizedArray { num_references: u8, child: Box<TypeRef>, loc: Location },
    /// `[T; n]`, possibly referenced.
    SizedArray { num_references: u8, child: Box<TypeRef>, number_elements: usize, loc: Location },
}

impl TypeRef {
    /// How many leading references the type carries.
    pub open spec fn ref_count_spec(self) -> u8 {
        match self {
            TypeRef::Reference { num_references, .. } => num_references,
            TypeRef::DynReference { num_references, .. } => num_references,
            TypeRef::Void(_, num_references) => num_references,
            TypeRef::Never(_) => 0,
            TypeRef::UnsizedArray { num_references, .. } => num_references,
            TypeRef::SizedArray { num_references, .. } => num_references,
        }
    }

    /// How many leading references the type carries.
    pub fn get_ref_count(&self) -> (r: u8)
        ensures
            r == self.ref_count_spec(),
    {
        match self {
            TypeRef::Void(_, number_of_references) => *number_of_references,
            TypeRef::Reference { num_references: number_of_references, .. } => *number_of_references,
            TypeRef::DynReference { num_references: number_of_references, .. } => *number_of_references,
            TypeRef::UnsizedArray { num_references: number_of_references, .. } => *number_of_references,
            TypeRef::SizedArray { num_references: number_of_references, .. } => *number_of_references,
            TypeRef::Never(_) => 0,
        }
    }

    /// Whether one reference can be peeled off.
    pub fn can_deref(&self) -> (r: bool)
        ensures
            r == (self.ref_count_spec() > 0),
    {
        self.get_ref_count() > 0
    }

    /// The same type with one reference peeled off, when one is there.
    pub open spec fn deref_spec(self) -> Option<TypeRef> {
        if self.ref_count_spec() == 0 {
            None
        } else {
            match self {
                TypeRef::Reference { num_references, type_path, loc } => Some(
                    TypeRef::Reference { num_references: (num_references - 1) as u8, type_path, loc },
                ),
                TypeRef::DynReference { num_references, traits, loc } => Some(
                    TypeRef::DynReference { num_references: (num_references - 1) as u8, traits, loc },
                ),
                TypeRef::Void(loc, num_references) => Some(
                    TypeRef::Void(loc, (num_references - 1) as u8),
                ),
                TypeRef::Never(_) => None,
                TypeRef::UnsizedArray { num_references, child, loc } => Some(
                    TypeRef::UnsizedArray { num_references: (num_references - 1) as u8, child, loc },
                ),
                TypeRef::SizedArray { num_references, child, number_elements, loc } => Some(
                    TypeRef::SizedArray {
                        num_references: (num_references - 1) as u8,
                        child,
                        number_elements,
                        loc,
                    },
                ),
            }
        }
    }

    /// Peels one reference off, or yields `None` of a value type; `!` has no
    /// references and can never be dereferenced.
    pub fn try_clone_deref(self) -> (r: Option<Self>)
        ensures
            r == self.deref_spec(),
    {
        if self.get_ref_count() == 0 {
            return None;
        }
        Some(
            match self {
                TypeRef::Reference { num_references, type_path, loc } => TypeRef::Reference {
                    num_references: num_references - 1,
                    type_path,
                    loc,
                },
                TypeRef::DynReference { num_references, traits, loc } => TypeRef::DynReference {
                    num_references: num_references - 1,
                    traits,
                    loc,
                },
                TypeRef::Void(loc, refcount) => TypeRef::Void(loc, refcount - 1),
                TypeRef::Never(_) => vstd::pervasive::unreached(),
                TypeRef::UnsizedArray { num_references, child, loc } => TypeRef::UnsizedArray {
                    num_references: num_references - 1,
                    child,
                    loc,
                },
                TypeRef::SizedArray { num_references, child, number_elements, loc } => {
                    TypeRef::SizedArray {
                        num_references: num_references - 1,
                        child,
                        number_elements,
                        loc,
                    }
                },
            },
        )
    }

    /// Where the type was written.
    pub open spec fn loc_spec(self) -> Location {
        match self {
            TypeRef::Never(loc) => loc,
            TypeRef::Void(loc, _) => loc,
            TypeRef::Reference { loc, .. } => loc,
            TypeRef::DynReference { loc, .. } => loc,
            TypeRef::SizedArray { loc, .. } => loc,
            TypeRef::UnsizedArray { loc, .. } => loc,
        }
    }

    /// Where the type was written.
    pub fn loc(&self) -> (r: &Location)
        ensures
            *r == self.loc_spec(),
    {
        match self {
            TypeRef::Never(loc) => loc,
            TypeRef::Void(loc, _) => loc,
            TypeRef::Reference { loc, .. } => loc,
            TypeRef::DynReference { loc, .. } => loc,
            TypeRef::SizedArray { loc, .. } => loc,
            TypeRef::UnsizedArray { loc, .. } => loc,
        }
    }
}

/// Structural equality of two type references, blind to locations.
pub open spec fn type_ref_eq_spec(a: TypeRef, b: TypeRef) -> bool
    decreases a,
{
    match a {
        TypeRef::Reference { num_references, type_path, .. } => match b {
            TypeRef::Reference { num_references: bn, type_path: bp, .. } => num_references == bn
                && path_eq_spec(type_path, bp),
            _ => false,
        },
        TypeRef::DynReference { num_references, traits, .. } => match b {
            TypeRef::DynReference { num_references: bn, traits: bt, .. } => num_references == bn
                && traits@.len() == bt@.len() && (forall|i: int|
                0 <= i < traits@.len() ==> path_eq_spec(
                    #[trigger] traits@[i],
                    bt@[i],
                )),
            _ => false,
        },
        TypeRef::Void(_, num_references) => match b {
            TypeRef::Void(_, bn) => num_references == bn,
            _ => false,
        },
        TypeRef::Never(_) => b is Never,
        TypeRef::UnsizedArray { num_references, child, .. } => match b {
            TypeRef::UnsizedArray { num_references: bn, child: bc, .. } => num_references == bn
                && type_ref_eq_spec(*child, *bc),
            _ => false,
        },
        TypeRef::SizedArray { num_references, child, number_elements, .. } => match b {
            TypeRef::SizedArray { num_references: bn, child: bc, number_elements: be, .. } => {
                num_references == bn && number_elements == be && type_ref_eq_spec(*child, *bc)
            },
            _ => false,
        },
    }
}

/// Structural equality of two paths, blind to locations.
pub open spec fn path_eq_spec(a: Path, b: Path) -> bool
    decreases a,
{
    a.entries@.len() == b.entries@.len() && (forall|i: int|
        0 <= i < a.entries@.len() ==> segment_eq_spec(#[trigger] a.entries@[i], b.entries@[i]))
}

/// Structural equality of two path segments, blind to locations.
pub open spec fn segment_eq_spec(a: PathSegment, b: PathSegment) -> bool
    decreases a,
{
    a.name == b.name && a.generic_args@.len() == b.generic_args@.len() && (forall|i: int|
        0 <= i < a.generic_args@.len() ==> type_ref_eq_spec(
            #[trigger] a.generic_args@[i],
            b.generic_args@[i],
        ))
}

/// Decides `type_ref_eq_spec`.
pub fn type_ref_eq(a: &TypeRef, b: &TypeRef) -> (r: bool)
    ensures
        r == type_ref_eq_spec(*a, *b),
    decreases *a,
{
    match a {
        TypeRef::Reference { num_references, type_path, .. } => match b {
            TypeRef::Reference { num_references: bn, type_path: bp, .. } => *num_references == *bn
                && path_eq(type_path, bp),
            _ => false,
        },
        TypeRef::DynReference { num_references, traits, .. } => match b {
            TypeRef::DynReference { num_references: bn, traits: bt, .. } => {
                proof {
                    assert(decreases_to!(*a => *traits));
                    assert(decreases_to!(*traits => traits@));
                }
                *num_references == *bn && path_vec_eq(traits, bt)
            },
            _ => false,
        },
        TypeRef::Void(_, num_references) => match b {
            TypeRef::Void(_, bn) => *num_references == *bn,
            _ => false,
        },
        TypeRef::Never(_) => matches!(b, TypeRef::Never(_)),
        TypeRef::UnsizedArray { num_references, child, .. } => match b {
            TypeRef::UnsizedArray { num_references: bn, child: bc, .. } => *num_references == *bn
                && type_ref_eq(child, bc),
            _ => false,
        },
        TypeRef::SizedArray { num_references, child, number_elements, .. } => match b {
            TypeRef::SizedArray { num_references: bn, child: bc, number_elements: be, .. } => {
                *num_references == *bn && *number_elements == *be && type_ref_eq(child, bc)
            },
            _ => false,
        },
    }
}

/// Decides pointwise path equality of two path lists of one length.
pub fn path_vec_eq(av: &Vec<Path>, bv: &Vec<Path>) -> (r: bool)
    ensures
        r == (av@.len() == bv@.len() && (forall|i: int|
            0 <= i < av@.len() ==> path_eq_spec(#[trigger] av@[i], bv@[i]))),
    decreases av@,
{
    if av.len() != bv.len() {
        return false;
    }
    let n = av.len();
    let mut i: usize = 0;
    while i < n
        invariant
            n == av@.len(),
            n == bv@.len(),
            i <= n,
            forall|j: int| 0 <= j < i ==> path_eq_spec(#[trigger] av@[j], bv@[j]),
        decreases n - i,
    {
        proof {
            assert(decreases_to!(av@ => av@[i as int]));
        }
        if !path_eq(&av[i], &bv[i]) {
            return false;
        }
        i += 1;
    }
    true
}

/// Decides `path_eq_spec`.
pub fn path_eq(a: &Path, b: &Path) -> (r: bool)
    ensures
        r == path_eq_spec(*a, *b),
    decreases *a,
{
    if a.entries.len() != b.entries.len() {
        return false;
    }
    let n = a.entries.len();
    let mut i: usize = 0;
    while i < n
        invariant
            n == a.entries@.len(),
            n == b.entries@.len(),
            i <= n,
            forall|j: int| 0 <= j < i ==> segment_eq_spec(#[trigger] a.entries@[j], b.entries@[j]),
        decreases n - i,
    {
        proof {
            assert(decreases_to!(*a => a.entries@[i as int]));
        }
        if !segment_eq(&a.entries[i], &b.entries[i]) {
            return false;
        }
        i += 1;
    }
    true
}

/// Decides `segment_eq_spec`.
pub fn segment_eq(a: &PathSegment, b: &PathSegment) -> (r: bool)
    ensures
        r == segment_eq_spec(*a, *b),
    decreases *a,
{
    if a.name != b.name || a.generic_args.len() != b.generic_args.len() {
        return false;
    }
    let n = a.generic_args.len();
    let mut i: usize = 0;
    while i < n
        invariant
            n == a.generic_args@.len(),
            n == b.generic_args@.len(),
            i <= n,
            forall|j: int|
                0 <= j < i ==> type_ref_eq_spec(
                    #[trigger] a.generic_args@[j],
                    b.generic_args@[j],
                ),
        decreases n - i,
    {
        proof {
            assert(decreases_to!(*a => a.generic_args@[i as int]));
        }
        if !type_ref_eq(&a.generic_args[i], &b.generic_args[i]) {
            return false;
        }
        i += 1;
    }
    true
}

impl PartialEq for TypeRef {
    /// Location-blind structural equality.
    fn eq(&self, other: &Self) -> (r: bool) {
        type_ref_eq(self, other)
    }
}

impl vstd::std_specs::cmp::PartialEqSpecImpl for TypeRef {
    open spec fn obeys_eq_spec() -> bool {
        true
    }

    open spec fn eq_spec(&self, other: &TypeRef) -> bool {
        type_ref_eq_spec(*self, *other)
    }
}

/// A literal value a static can be initialized with.
#[derive(Debug, Clone, Copy, PartialEq, Eq, Structural)]
pub enum LiteralValue {
    UInt(u64),
    SInt(i64),
    Bool(bool),
    Str(GlobalStr),
    Void,
}

/// An expression; this core only ever looks at literal expressions, so every
/// other form is carried opaquely.
#[derive(Debug)]
pub enum Expression {
    Literal(LiteralValue, Location),
    Other(Location),
}

impl Expression {
    /// Where the expression was written.
    pub open spec fn loc_spec(self) -> Location {
        match self {
            Expression::Literal(_, loc) => loc,
            Expression::Other(loc) => loc,
        }
    }

    /// Where the expression was written.
    pub fn loc(&self) -> (r: &Location)
        ensures
            *r == self.loc_spec(),
    {
        match self {
            Expression::Literal(_, loc) => loc,
            Expression::Other(loc) => loc,
        }
    }
}

/// Annotations attached to an item, carried through unread.
#[derive(Debug, Clone)]
pub struct Annotations {
    pub entries: Vec<GlobalStr>,
}

impl Annotations {
    /// No annotations.
    pub fn new() -> (r: Annotations)
        ensures
            r.entries@.len() == 0,
    {
        Annotations { entries: Vec::new() }
    }
}

/// A type parameter of a struct with its trait bounds, each bound a path
/// with the location it was written at.
#[derive(Debug)]
pub struct Generic {
    pub name: GlobalStr,
    pub bounds: Vec<(Path, Location)>,
}

/// What the parser knows of a function: name, arguments, return type.
#[derive(Debug)]
pub struct FunctionContract {
    pub name: Option<GlobalStr>,
    pub arguments: Vec<(GlobalStr, TypeRef)>,
    pub return_type: TypeRef,
    pub location: Location,
    pub annotations: Annotations,
}

/// A top-level statement, as the parser emits it. Function bodies are
/// carried opaquely as nested statements.
#[derive(Debug)]
pub enum Statement {
    Function(FunctionContract, Box<Statement>),
    Struct {
        name: GlobalStr,
        elements: Vec<(GlobalStr, TypeRef)>,
        location: Location,
        global_impl: Vec<(GlobalStr, FunctionContract, Box<Statement>)>,
        impls: Vec<(GlobalStr, Vec<(GlobalStr, FunctionContract, Box<Statement>)>)>,
        annotations: Annotations,
        generics: Vec<Generic>,
    },
    Var(GlobalStr, Expression, Option<TypeRef>, Location),
    ExternalFunction(FunctionContract),
    Export(GlobalStr, GlobalStr, Location),
    Block(Vec<Statement>, Location),
}

impl Statement {
    /// Where the statement was written.
    pub open spec fn loc_spec(self) -> Location {
        match self {
            Statement::Function(contract, _) => contract.location,
            Statement::Struct { location, .. } => location,
            Statement::Var(_, _, _, location) => location,
            Statement::ExternalFunction(contract) => contract.location,
            Statement::Export(_, _, location) => location,
            Statement::Block(_, location) => location,
        }
    }

    /// Where the statement was written.
    pub fn loc(&self) -> (r: Location)
        ensures
            r == self.loc_spec(),
    {
        match self {
            Statement::Function(contract, _) => contract.location,
            Statement::Struct { location, .. } => *location,
            Statement::Var(_, _, _, location) => *location,
            Statement::ExternalFunction(contract) => contract.location,
            Statement::Export(_, _, location) => *location,
            Statement::Block(_, location) => *location,
        }
    }
}

/// A struct as module assembly stores it: impl members already baked into
/// the module's function registry, so the tables bind names to function
/// handles.
#[derive(Debug)]
pub struct Struct {
    pub loc: Location,
    pub name: GlobalStr,
    pub fields: Vec<(GlobalStr, TypeRef)>,
    pub global_impl: SMap<FunctionId>,
    pub trait_impls: Vec<(GlobalStr, SMap<FunctionId>)>,
    pub annotations: Annotations,
    pub generics: Vec<Generic>,
}

} // verus!
