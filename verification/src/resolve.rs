//! The name resolver: walking import chains across modules to translate a
//! dotted path into a scope value, with cycle detection.
//!
//! The `already_included` list holds every `(module, first segment)` pair
//! the walk has entered; meeting one again is a cyclic dependency. The walk
//! terminates because every step that recurses first records a pair drawn
//! from the finite universe of export and import keys, so the pairs not yet
//! recorded shrink; when the walk merely moves to the next path segment, the
//! path shrinks instead.

use vstd::prelude::*;
use vstd::set_lib::lemma_len_subset;

use crate::context::{ModuleContext, ModuleScopeValue};
use crate::errors::TypecheckingError;
use crate::names::{GlobalStr, Location, ModuleId};

verus! {

/// The pairs `(idx, key)` for every key of an association list.
pub open spec fn seq_key_pairs<V>(s: Seq<(u64, V)>, idx: int) -> Set<(int, u64)>
    decreases s.len(),
{
    if s.len() == 0 {
        Set::empty()
    } else {
        seq_key_pairs(s.drop_last(), idx).insert((idx, s.last().0))
    }
}

/// The universe of pairs a resolution walk can record and still recurse: a
/// module index with a key of that module's exports or imports.
pub open spec fn universe_upto(ctx: ModuleContext, n: int) -> Set<(int, u64)>
    decreases n,
{
    if n <= 0 {
        Set::empty()
    } else {
        universe_upto(ctx, n - 1).union(
            seq_key_pairs(ctx.modules@[n - 1].exports.entries@, n - 1),
        ).union(seq_key_pairs(ctx.modules@[n - 1].imports.entries@, n - 1))
    }
}

/// The whole universe of recordable-and-recursing pairs.
pub open spec fn import_universe(ctx: ModuleContext) -> Set<(int, u64)> {
    universe_upto(ctx, ctx.modules@.len() as int)
}

/// The pairs a visited list holds.
pub open spec fn visited_set(v: Seq<(ModuleId, GlobalStr)>) -> Set<(int, u64)>
    decreases v.len(),
{
    if v.len() == 0 {
        Set::empty()
    } else {
        visited_set(v.drop_last()).insert((v.last().0 as int, v.last().1))
    }
}

/// How many universe pairs the walk has not recorded yet.
pub open spec fn import_measure(ctx: ModuleContext, v: Seq<(ModuleId, GlobalStr)>) -> nat {
    import_universe(ctx).difference(visited_set(v)).len()
}

/// What a one-segment walk from inside the home module yields when it needs
/// no import chase: the scope binding of the (export-mapped) name, or
/// `ExportNotFound`. `None` when the name leads into the imports table, so a
/// chase decides instead.
pub open spec fn home_simple_lookup(
    ctx: ModuleContext,
    module: ModuleId,
    n: GlobalStr,
    location: Location,
) -> Option<Result<ModuleScopeValue, TypecheckingError>> {
    let m = ctx.modules@[module as int];
    let ident = if m.exports@.contains_key(n) {
        m.exports@[n]
    } else {
        n
    };
    if m.imports@.contains_key(ident) {
        None
    } else if m.scope@.contains_key(ident) {
        Some(Ok(m.scope@[ident]))
    } else {
        Some(Err(TypecheckingError::ExportNotFound { location, name: n }))
    }
}

/// What a walk from inside the home module yields when its first step needs
/// no import chase: the scope value of the (export-mapped) first segment,
/// then at most a member lookup in a struct's impl table. `None` when the
/// name leads into the imports table or on to another module, so a chase or
/// restart decides instead.
pub open spec fn home_simple_walk(
    ctx: ModuleContext,
    module: ModuleId,
    path: Seq<GlobalStr>,
    location: Location,
) -> Option<Result<ModuleScopeValue, TypecheckingError>> {
    let m = ctx.modules@[module as int];
    let ident = if m.exports@.contains_key(path[0]) {
        m.exports@[path[0]]
    } else {
        path[0]
    };
    if m.imports@.contains_key(ident) {
        None
    } else if !m.scope@.contains_key(ident) {
        Some(Err(TypecheckingError::ExportNotFound { location, name: path[0] }))
    } else {
        let v = m.scope@[ident];
        if path.len() < 2 {
            Some(Ok(v))
        } else {
            match v {
                ModuleScopeValue::Struct(id) => {
                    if ctx.structs@[id as int].global_impl@.contains_key(path[1]) {
                        if path.len() < 3 {
                            Some(
                                Ok(
                                    ModuleScopeValue::Function(
                                        ctx.structs@[id as int].global_impl@[path[1]],
                                    ),
                                ),
                            )
                        } else {
                            Some(
                                Err(TypecheckingError::ExportNotFound { location, name: path[2] }),
                            )
                        }
                    } else {
                        Some(
                            Err(
                                TypecheckingError::ExportNotFound {
                                    location: ctx.structs@[id as int].location,
                                    name: path[1],
                                },
                            ),
                        )
                    }
                },
                ModuleScopeValue::Module(_) => None,
                _ => Some(Err(TypecheckingError::ExportNotFound { location, name: path[1] })),
            }
        }
    }
}

/// The outcome of one import entry, when its path is one segment and the
/// target settles it without a further chase.
pub open spec fn simple_import_outcome(
    ctx: ModuleContext,
    e: (Location, ModuleId, Vec<GlobalStr>),
) -> Option<Result<ModuleScopeValue, TypecheckingError>> {
    if e.2@.len() == 1 {
        home_simple_lookup(ctx, e.1, e.2@[0], e.0)
    } else {
        None
    }
}

proof fn lemma_seq_key_pairs_finite<V>(s: Seq<(u64, V)>, idx: int)
    ensures
        seq_key_pairs(s, idx).finite(),
    decreases s.len(),
{
    if s.len() == 0 {
        broadcast use vstd::set::axiom_set_empty_finite;

    } else {
        lemma_seq_key_pairs_finite(s.drop_last(), idx);
        vstd::set::axiom_set_insert_finite(
            seq_key_pairs(s.drop_last(), idx),
            (idx, s.last().0),
        );
    }
}

proof fn lemma_seq_key_pairs_contains<V>(s: Seq<(u64, V)>, idx: int, k: u64)
    ensures
        seq_key_pairs(s, idx).contains((idx, k)) <==> exists|i: int|
            0 <= i < s.len() && (#[trigger] s[i]).0 == k,
    decreases s.len(),
{
    if s.len() > 0 {
        lemma_seq_key_pairs_contains(s.drop_last(), idx, k);
        if seq_key_pairs(s, idx).contains((idx, k)) && s.last().0 != k {
            let i = choose|i: int|
                0 <= i < s.drop_last().len() && (#[trigger] s.drop_last()[i]).0 == k;
            assert(s[i].0 == k);
        }
        if exists|i: int| 0 <= i < s.len() && (#[trigger] s[i]).0 == k {
            let i = choose|i: int| 0 <= i < s.len() && (#[trigger] s[i]).0 == k;
            if i < s.len() - 1 {
                assert(s.drop_last()[i].0 == k);
            }
        }
    }
}

proof fn lemma_universe_finite(ctx: ModuleContext, n: int)
    ensures
        universe_upto(ctx, n).finite(),
    decreases n,
{
    if n <= 0 {
        broadcast use vstd::set::axiom_set_empty_finite;

    } else {
        lemma_universe_finite(ctx, n - 1);
        lemma_seq_key_pairs_finite(ctx.modules@[n - 1].exports.entries@, n - 1);
        lemma_seq_key_pairs_finite(ctx.modules@[n - 1].imports.entries@, n - 1);
        vstd::set::axiom_set_union_finite(
            universe_upto(ctx, n - 1),
            seq_key_pairs(ctx.modules@[n - 1].exports.entries@, n - 1),
        );
        vstd::set::axiom_set_union_finite(
            universe_upto(ctx, n - 1).union(
                seq_key_pairs(ctx.modules@[n - 1].exports.entries@, n - 1),
            ),
            seq_key_pairs(ctx.modules@[n - 1].imports.entries@, n - 1),
        );
    }
}

/// A module index below `n` with an exports or imports key of that module is
/// in the universe up to `n`.
proof fn lemma_universe_contains(ctx: ModuleContext, n: int, m: int, k: u64)
    requires
        0 <= m < n <= ctx.modules@.len(),
        ctx.modules@[m].exports@.contains_key(k) || ctx.modules@[m].imports@.contains_key(k),
    ensures
        universe_upto(ctx, n).contains((m, k)),
    decreases n,
{
    if m == n - 1 {
        if ctx.modules@[m].exports@.contains_key(k) {
            crate::strmap::lemma_map_of_contains(ctx.modules@[m].exports.entries@, k);
            lemma_seq_key_pairs_contains(ctx.modules@[m].exports.entries@, m, k);
        } else {
            crate::strmap::lemma_map_of_contains(ctx.modules@[m].imports.entries@, k);
            lemma_seq_key_pairs_contains(ctx.modules@[m].imports.entries@, m, k);
        }
    } else {
        lemma_universe_contains(ctx, n - 1, m, k);
    }
}

/// Pushing a pair records exactly that pair.
pub proof fn lemma_visited_push(v: Seq<(ModuleId, GlobalStr)>, p: (ModuleId, GlobalStr))
    ensures
        visited_set(v.push(p)) == visited_set(v).insert((p.0 as int, p.1)),
{
    assert(v.push(p).drop_last() =~= v);
    assert(visited_set(v.push(p)) =~= visited_set(v).insert((p.0 as int, p.1)));
}

/// A pair of the list is in its set, and conversely.
proof fn lemma_visited_contains(v: Seq<(ModuleId, GlobalStr)>, m: int, k: u64)
    ensures
        visited_set(v).contains((m, k)) <==> exists|i: int|
            0 <= i < v.len() && (#[trigger] v[i]).0 == m && v[i].1 == k,
    decreases v.len(),
{
    if v.len() > 0 {
        lemma_visited_contains(v.drop_last(), m, k);
        if visited_set(v).contains((m, k)) && !(v.last().0 == m && v.last().1 == k) {
            let i = choose|i: int|
                0 <= i < v.drop_last().len() && (#[trigger] v.drop_last()[i]).0 == m
                    && v.drop_last()[i].1 == k;
            assert(v[i].0 == m && v[i].1 == k);
        }
        if exists|i: int| 0 <= i < v.len() && (#[trigger] v[i]).0 == m && v[i].1 == k {
            let i = choose|i: int| 0 <= i < v.len() && (#[trigger] v[i]).0 == m && v[i].1 == k;
            if i < v.len() - 1 {
                assert(v.drop_last()[i].0 == m && v.drop_last()[i].1 == k);
            }
        }
    }
}

/// A visited list records no pair exactly when it is empty.
pub proof fn lemma_visited_set_empty(v: Seq<(ModuleId, GlobalStr)>)
    ensures
        (visited_set(v) == Set::<(int, u64)>::empty()) <==> v.len() == 0,
{
    if v.len() == 0 {
        assert(visited_set(v) =~= Set::<(int, u64)>::empty());
    } else {
        assert(visited_set(v).contains((v.last().0 as int, v.last().1)));
        assert(!Set::<(int, u64)>::empty().contains((v.last().0 as int, v.last().1)));
    }
}

/// A longer visited list records at least the pairs of its prefix.
proof fn lemma_visited_prefix_subset(v1: Seq<(ModuleId, GlobalStr)>, v2: Seq<(ModuleId, GlobalStr)>)
    requires
        v1.is_prefix_of(v2),
    ensures
        visited_set(v1).subset_of(visited_set(v2)),
    decreases v2.len(),
{
    if v1.len() == v2.len() {
        assert(v1 =~= v2);
    } else {
        assert(v1.is_prefix_of(v2.drop_last()));
        lemma_visited_prefix_subset(v1, v2.drop_last());
    }
}

/// Recording a universe pair that was not recorded yet strictly shrinks the
/// measure.
proof fn lemma_measure_push(ctx: ModuleContext, v: Seq<(ModuleId, GlobalStr)>, p: (
    ModuleId,
    GlobalStr,
))
    requires
        import_universe(ctx).contains((p.0 as int, p.1)),
        !visited_set(v).contains((p.0 as int, p.1)),
    ensures
        import_measure(ctx, v.push(p)) < import_measure(ctx, v),
{
    let u = import_universe(ctx);
    let q = (p.0 as int, p.1);
    lemma_universe_finite(ctx, ctx.modules@.len() as int);
    vstd::set::axiom_set_difference_finite(u, visited_set(v));
    lemma_visited_push(v, p);
    assert(u.difference(visited_set(v.push(p))) =~= u.difference(visited_set(v)).remove(q));
    vstd::set::axiom_set_remove_len(u.difference(visited_set(v)), q);
    assert(u.difference(visited_set(v)).contains(q));
}

/// Growing the visited list never grows the measure.
proof fn lemma_measure_monotone(
    ctx: ModuleContext,
    v1: Seq<(ModuleId, GlobalStr)>,
    v2: Seq<(ModuleId, GlobalStr)>,
)
    requires
        v1.is_prefix_of(v2),
    ensures
        import_measure(ctx, v2) <= import_measure(ctx, v1),
{
    let u = import_universe(ctx);
    lemma_universe_finite(ctx, ctx.modules@.len() as int);
    vstd::set::axiom_set_difference_finite(u, visited_set(v1));
    lemma_visited_prefix_subset(v1, v2);
    assert(u.difference(visited_set(v2)).subset_of(u.difference(visited_set(v1))));
    lemma_len_subset(u.difference(visited_set(v2)), u.difference(visited_set(v1)));
}

/// One step of the full walk, fuel-indexed so the chase through stored
/// import paths is well defined: the result and the set of pairs recorded
/// by the whole walk, or `None` when the fuel ran out first. Every actual
/// walk settles at some fuel, and `lemma_walk_f_mono` says the settled
/// outcome never changes with more fuel.
pub open spec fn walk_f(
    ctx: ModuleContext,
    module: ModuleId,
    path: Seq<GlobalStr>,
    location: Location,
    visited: Set<(int, u64)>,
    fuel: nat,
) -> Option<(Result<ModuleScopeValue, TypecheckingError>, Set<(int, u64)>)>
    decreases fuel,
{
    if fuel == 0 {
        None
    } else if path.len() == 0 {
        Some((Ok(ModuleScopeValue::Module(module)), visited))
    } else if visited.contains((module as int, path[0])) {
        Some((Err(TypecheckingError::CyclicDependency { location }), visited))
    } else {
        let first = path[0];
        let v1 = visited.insert((module as int, first));
        let m = ctx.modules@[module as int];
        if !m.exports@.contains_key(first) && visited != Set::<(int, u64)>::empty() {
            Some((Err(TypecheckingError::ExportNotFound { location, name: first }), v1))
        } else {
            let ident = if m.exports@.contains_key(first) {
                m.exports@[first]
            } else {
                first
            };
            if m.imports@.contains_key(ident) {
                let e = m.imports@[ident];
                match walk_f(ctx, e.1, e.2@, e.0, v1, (fuel - 1) as nat) {
                    Option::None => None,
                    Option::Some((res, v2)) => match res {
                        Err(err) => Some((Err(err), v2)),
                        Ok(value) => {
                            if path.len() < 2 {
                                Some((Ok(value), v2))
                            } else {
                                match value {
                                    ModuleScopeValue::Module(id) => walk_f(
                                        ctx,
                                        id,
                                        path.skip(1),
                                        location,
                                        v2,
                                        (fuel - 1) as nat,
                                    ),
                                    ModuleScopeValue::Struct(id) => {
                                        if ctx.structs@[id as int].global_impl@.contains_key(
                                            path[1],
                                        ) {
                                            let fid =
                                                ctx.structs@[id as int].global_impl@[path[1]];
                                            if path.len() < 3 {
                                                Some(
                                                    (Ok(ModuleScopeValue::Function(fid)), v2),
                                                )
                                            } else {
                                                Some(
                                                    (
                                                        Err(
                                                            TypecheckingError::ExportNotFound {
                                                                location:
                                                                    ctx.functions@[fid as int].0.location,
                                                                name: path[2],
                                                            },
                                                        ),
                                                        v2,
                                                    ),
                                                )
                                            }
                                        } else {
                                            Some(
                                                (
                                                    Err(
                                                        TypecheckingError::ExportNotFound {
                                                            location:
                                                                ctx.structs@[id as int].location,
                                                            name: path[1],
                                                        },
                                                    ),
                                                    v2,
                                                ),
                                            )
                                        }
                                    },
                                    _ => Some(
                                        (
                                            Err(
                                                TypecheckingError::ExportNotFound {
                                                    location,
                                                    name: path[1],
                                                },
                                            ),
                                            v2,
                                        ),
                                    ),
                                }
                            }
                        },
                    },
                }
            } else if m.scope@.contains_key(ident) {
                let value = m.scope@[ident];
                if path.len() < 2 {
                    Some((Ok(value), v1))
                } else {
                    match value {
                        ModuleScopeValue::Struct(id) => {
                            if ctx.structs@[id as int].global_impl@.contains_key(path[1]) {
                                let fid = ctx.structs@[id as int].global_impl@[path[1]];
                                if path.len() < 3 {
                                    Some((Ok(ModuleScopeValue::Function(fid)), v1))
                                } else {
                                    Some(
                                        (
                                            Err(
                                                TypecheckingError::ExportNotFound {
                                                    location,
                                                    name: path[2],
                                                },
                                            ),
                                            v1,
                                        ),
                                    )
                                }
                            } else {
                                Some(
                                    (
                                        Err(
                                            TypecheckingError::ExportNotFound {
                                                location: ctx.structs@[id as int].location,
                                                name: path[1],
                                            },
                                        ),
                                        v1,
                                    ),
                                )
                            }
                        },
                        ModuleScopeValue::Module(id) => walk_f(
                            ctx,
                            id,
                            path.skip(1),
                            location,
                            v1,
                            (fuel - 1) as nat,
                        ),
                        _ => Some(
                            (
                                Err(
                                    TypecheckingError::ExportNotFound {
                                        location,
                                        name: path[1],
                                    },
                                ),
                                v1,
                            ),
                        ),
                    }
                }
            } else {
                Some(
                    (Err(TypecheckingError::ExportNotFound { location, name: first }), v1),
                )
            }
        }
    }
}

/// A settled walk stays settled, with the same outcome, at any higher fuel.
pub proof fn lemma_walk_f_mono(
    ctx: ModuleContext,
    module: ModuleId,
    path: Seq<GlobalStr>,
    location: Location,
    visited: Set<(int, u64)>,
    f1: nat,
    f2: nat,
)
    requires
        f1 <= f2,
        walk_f(ctx, module, path, location, visited, f1) is Some,
    ensures
        walk_f(ctx, module, path, location, visited, f2) == walk_f(
            ctx,
            module,
            path,
            location,
            visited,
            f1,
        ),
    decreases f1,
{
    if path.len() == 0 || visited.contains((module as int, path[0])) {
    } else {
        let first = path[0];
        let v1 = visited.insert((module as int, first));
        let m = ctx.modules@[module as int];
        if !m.exports@.contains_key(first) && visited != Set::<(int, u64)>::empty() {
        } else {
            let ident = if m.exports@.contains_key(first) {
                m.exports@[first]
            } else {
                first
            };
            if m.imports@.contains_key(ident) {
                let e = m.imports@[ident];
                assert(walk_f(ctx, e.1, e.2@, e.0, v1, (f1 - 1) as nat) is Some);
                lemma_walk_f_mono(ctx, e.1, e.2@, e.0, v1, (f1 - 1) as nat, (f2 - 1) as nat);
                let inner = walk_f(ctx, e.1, e.2@, e.0, v1, (f1 - 1) as nat);
                match inner {
                    Option::None => {},
                    Option::Some((res, v2)) => match res {
                        Err(_) => {},
                        Ok(value) => {
                            if path.len() >= 2 {
                                match value {
                                    ModuleScopeValue::Module(id) => {
                                        assert(walk_f(
                                            ctx,
                                            id,
                                            path.skip(1),
                                            location,
                                            v2,
                                            (f1 - 1) as nat,
                                        ) is Some);
                                        lemma_walk_f_mono(
                                            ctx,
                                            id,
                                            path.skip(1),
                                            location,
                                            v2,
                                            (f1 - 1) as nat,
                                            (f2 - 1) as nat,
                                        );
                                    },
                                    _ => {},
                                }
                            }
                        },
                    },
                }
            } else if m.scope@.contains_key(ident) {
                let value = m.scope@[ident];
                if path.len() >= 2 {
                    match value {
                        ModuleScopeValue::Module(id) => {
                            assert(walk_f(ctx, id, path.skip(1), location, v1, (f1 - 1) as nat)
                                is Some);
                            lemma_walk_f_mono(
                                ctx,
                                id,
                                path.skip(1),
                                location,
                                v1,
                                (f1 - 1) as nat,
                                (f2 - 1) as nat,
                            );
                        },
                        _ => {},
                    }
                }
            }
        }
    }
}

/// A fresh walk from `module` along `path` yields `r`: it settles at some
/// fuel with that outcome. By `lemma_walk_yields_unique` at most one outcome
/// is ever yielded, so this is the walk's result.
pub open spec fn walk_yields(
    ctx: ModuleContext,
    module: ModuleId,
    path: Seq<GlobalStr>,
    location: Location,
    r: Result<ModuleScopeValue, TypecheckingError>,
) -> bool {
    exists|fuel: nat|
        (#[trigger] walk_f(
            ctx,
            module,
            path,
            location,
            Set::empty(),
            fuel,
        )) matches Some(p) && p.0 == r
}

/// Two settled walks with the same start agree entirely.
pub proof fn lemma_walk_f_unique(
    ctx: ModuleContext,
    module: ModuleId,
    path: Seq<GlobalStr>,
    location: Location,
    visited: Set<(int, u64)>,
    f1: nat,
    f2: nat,
)
    requires
        walk_f(ctx, module, path, location, visited, f1) is Some,
        walk_f(ctx, module, path, location, visited, f2) is Some,
    ensures
        walk_f(ctx, module, path, location, visited, f1) == walk_f(
            ctx,
            module,
            path,
            location,
            visited,
            f2,
        ),
{
    if f1 <= f2 {
        lemma_walk_f_mono(ctx, module, path, location, visited, f1, f2);
    } else {
        lemma_walk_f_mono(ctx, module, path, location, visited, f2, f1);
    }
}

/// A fresh walk yields at most one outcome.
pub proof fn lemma_walk_yields_unique(
    ctx: ModuleContext,
    module: ModuleId,
    path: Seq<GlobalStr>,
    location: Location,
    r1: Result<ModuleScopeValue, TypecheckingError>,
    r2: Result<ModuleScopeValue, TypecheckingError>,
)
    requires
        walk_yields(ctx, module, path, location, r1),
        walk_yields(ctx, module, path, location, r2),
    ensures
        r1 == r2,
{
    let f1 = choose|fuel: nat|
        (#[trigger] walk_f(ctx, module, path, location, Set::empty(), fuel)) matches Some(p)
            && p.0 == r1;
    let f2 = choose|fuel: nat|
        (#[trigger] walk_f(ctx, module, path, location, Set::empty(), fuel)) matches Some(p)
            && p.0 == r2;
    lemma_walk_f_unique(ctx, module, path, location, Set::empty(), f1, f2);
}

/// Whether the walk has already entered `(m, k)`.
pub fn visited_contains_pair(v: &Vec<(ModuleId, GlobalStr)>, m: ModuleId, k: GlobalStr) -> (r: bool)
    ensures
        r == visited_set(v@).contains((m as int, k)),
{
    let n = v.len();
    let mut i: usize = 0;
    while i < n
        invariant
            n == v@.len(),
            i <= n,
            forall|j: int| 0 <= j < i ==> !((#[trigger] v@[j]).0 == m && v@[j].1 == k),
        decreases n - i,
    {
        let e = &v[i];
        if e.0 == m && e.1 == k {
            proof {
                lemma_visited_contains(v@, m as int, k);
            }
            return true;
        }
        i += 1;
    }
    proof {
        lemma_visited_contains(v@, m as int, k);
    }
    false
}

/// Translates a dotted path, starting from `module`, into the scope value it
/// denotes, walking exports, imports and scopes across modules.
///
/// An empty path names the starting module itself. A pair met twice is a
/// cyclic dependency. Once the walk has crossed into another module (the
/// visited list was not empty at entry), the first segment must be exported
/// there; from inside the home module, a name that is neither exported nor
/// imported may still be found in the module's own scope.
pub fn resolve_import(
    context: &ModuleContext,
    module: ModuleId,
    import: &[GlobalStr],
    location: &Location,
    already_included: &mut Vec<(ModuleId, GlobalStr)>,
) -> (r: Result<ModuleScopeValue, TypecheckingError>)
    requires
        context.wf(),
        module < context.modules@.len(),
    ensures
        old(already_included)@.is_prefix_of(final(already_included)@),
        r matches Ok(v) ==> context.valid_value(v),
        import@.len() == 0 ==> r == Ok::<ModuleScopeValue, TypecheckingError>(
            ModuleScopeValue::Module(module),
        ),
        import@.len() > 0 && visited_set(old(already_included)@).contains(
            (module as int, import@[0]),
        ) ==> r == Err::<ModuleScopeValue, TypecheckingError>(
            TypecheckingError::CyclicDependency { location: *location },
        ),
        import@.len() > 0 && !visited_set(old(already_included)@).contains(
            (module as int, import@[0]),
        ) && old(already_included)@.len() >= 1 && !context.modules@[module as int].exports@.contains_key(
            import@[0],
        ) ==> r == Err::<ModuleScopeValue, TypecheckingError>(
            TypecheckingError::ExportNotFound { location: *location, name: import@[0] },
        ),
        import@.len() == 0 ==> final(already_included)@ == old(already_included)@,
        import@.len() == 1 && old(already_included)@.len() == 0 && !visited_set(
            old(already_included)@,
        ).contains((module as int, import@[0])) ==> (home_simple_lookup(
            *context,
            module,
            import@[0],
            *location,
        ) matches Some(res) ==> r == res),
        import@.len() >= 1 && old(already_included)@.len() == 0 ==> (home_simple_walk(
            *context,
            module,
            import@,
            *location,
        ) matches Some(res) ==> r == res),
        exists|fuel: nat|
            #[trigger] walk_f(
                *context,
                module,
                import@,
                *location,
                visited_set(old(already_included)@),
                fuel,
            ) == Some((r, visited_set(final(already_included)@))),
    decreases import_measure(*context, old(already_included)@), import@.len(),
{
    let ghost v0 = already_included@;
    let ghost set0 = visited_set(v0);
    if import.len() == 0 {
        proof {
            assert(walk_f(*context, module, import@, *location, set0, 1) == Some((
                Ok::<ModuleScopeValue, TypecheckingError>(ModuleScopeValue::Module(module)),
                set0,
            )));
        }
        return Ok(ModuleScopeValue::Module(module));
    }
    let first = import[0];
    if visited_contains_pair(already_included, module, first) {
        proof {
            assert(walk_f(*context, module, import@, *location, set0, 1) == Some((
                Err::<ModuleScopeValue, TypecheckingError>(
                    TypecheckingError::CyclicDependency { location: *location },
                ),
                set0,
            )));
        }
        return Err(TypecheckingError::CyclicDependency { location: *location });
    }
    already_included.push((module, first));
    proof {
        lemma_visited_push(v0, (module, first));
        lemma_visited_set_empty(v0);
        assert(v0.is_prefix_of(already_included@));
    }
    let ghost set1 = visited_set(already_included@);
    proof {
        assert(context.module_wf(context.modules@[module as int]));
    }
    let m = &context.modules[module];
    let ident: GlobalStr = match m.exports.get(first) {
        Some(i) => *i,
        None => {
            if already_included.len() < 2 {
                first
            } else {
                proof {
                    assert(walk_f(*context, module, import@, *location, set0, 1) == Some((
                        Err::<ModuleScopeValue, TypecheckingError>(
                            TypecheckingError::ExportNotFound {
                                location: *location,
                                name: first,
                            },
                        ),
                        set1,
                    )));
                }
                return Err(
                    TypecheckingError::ExportNotFound { location: *location, name: first },
                );
            }
        },
    };
    if let Some(entry) = m.imports.get(ident) {
        proof {
            if context.modules@[module as int].exports@.contains_key(first) {
                lemma_universe_contains(
                    *context,
                    context.modules@.len() as int,
                    module as int,
                    first,
                );
            } else {
                assert(ident == first);
                lemma_universe_contains(
                    *context,
                    context.modules@.len() as int,
                    module as int,
                    first,
                );
            }
            lemma_measure_push(*context, v0, (module, first));
        }
        let ghost v1 = already_included@;
        let inner = resolve_import(
            context,
            entry.1,
            entry.2.as_slice(),
            &entry.0,
            already_included,
        );
        proof {
            assert(v0.is_prefix_of(already_included@));
            lemma_measure_monotone(*context, v1, already_included@);
            lemma_measure_push(*context, v0, (module, first));
        }
        let ghost f1 = choose|fuel: nat|
            #[trigger] walk_f(*context, entry.1, entry.2@, entry.0, set1, fuel) == Some(
                (inner, visited_set(already_included@)),
            );
        let value = match inner {
            Ok(v) => v,
            Err(e) => {
                proof {
                    assert(walk_f(*context, module, import@, *location, set0, f1 + 1) == Some((
                        Err::<ModuleScopeValue, TypecheckingError>(e),
                        visited_set(already_included@),
                    )));
                }
                return Err(e);
            },
        };
        if import.len() < 2 {
            proof {
                assert(walk_f(*context, module, import@, *location, set0, f1 + 1) == Some((
                    Ok::<ModuleScopeValue, TypecheckingError>(value),
                    visited_set(already_included@),
                )));
            }
            return Ok(value);
        }
        match value {
            ModuleScopeValue::Module(id) => {
                let ghost v2 = already_included@;
                let r2 = resolve_import(
                    context,
                    id,
                    &import[1..import.len()],
                    location,
                    already_included,
                );
                proof {
                    let f2 = choose|fuel: nat|
                        #[trigger] walk_f(
                            *context,
                            id,
                            import@.subrange(1, import@.len() as int),
                            *location,
                            visited_set(v2),
                            fuel,
                        ) == Some((r2, visited_set(already_included@)));
                    assert(import@.subrange(1, import@.len() as int) =~= import@.skip(1));
                    lemma_walk_f_mono(*context, entry.1, entry.2@, entry.0, set1, f1, f1 + f2);
                    lemma_walk_f_mono(
                        *context,
                        id,
                        import@.skip(1),
                        *location,
                        visited_set(v2),
                        f2,
                        f1 + f2,
                    );
                    assert(walk_f(*context, module, import@, *location, set0, f1 + f2 + 1)
                        == Some((r2, visited_set(already_included@))));
                }
                return r2;
            },
            ModuleScopeValue::Struct(id) => {
                proof {
                    assert(context.struct_wf(context.structs@[id as int]));
                }
                let st = &context.structs[id];
                match st.global_impl.get(import[1]) {
                    Some(function_id) => {
                        if import.len() < 3 {
                            proof {
                                assert(walk_f(*context, module, import@, *location, set0, f1 + 1)
                                    == Some((
                                    Ok::<ModuleScopeValue, TypecheckingError>(
                                        ModuleScopeValue::Function(*function_id),
                                    ),
                                    visited_set(already_included@),
                                )));
                            }
                            return Ok(ModuleScopeValue::Function(*function_id));
                        }
                        proof {
                            assert(walk_f(*context, module, import@, *location, set0, f1 + 1)
                                == Some((
                                Err::<ModuleScopeValue, TypecheckingError>(
                                    TypecheckingError::ExportNotFound {
                                        location: context.functions@[*function_id as int].0.location,
                                        name: import@[2],
                                    },
                                ),
                                visited_set(already_included@),
                            )));
                        }
                        return Err(
                            TypecheckingError::ExportNotFound {
                                location: context.functions[*function_id].0.location,
                                name: import[2],
                            },
                        );
                    },
                    None => {
                        proof {
                            assert(walk_f(*context, module, import@, *location, set0, f1 + 1)
                                == Some((
                                Err::<ModuleScopeValue, TypecheckingError>(
                                    TypecheckingError::ExportNotFound {
                                        location: st.location,
                                        name: import@[1],
                                    },
                                ),
                                visited_set(already_included@),
                            )));
                        }
                        return Err(
                            TypecheckingError::ExportNotFound {
                                location: st.location,
                                name: import[1],
                            },
                        );
                    },
                }
            },
            _ => {
                proof {
                    assert(walk_f(*context, module, import@, *location, set0, f1 + 1) == Some((
                        Err::<ModuleScopeValue, TypecheckingError>(
                            TypecheckingError::ExportNotFound {
                                location: *location,
                                name: import@[1],
                            },
                        ),
                        visited_set(already_included@),
                    )));
                }
                return Err(
                    TypecheckingError::ExportNotFound { location: *location, name: import[1] },
                );
            },
        }
    }
    if let Some(value) = m.scope.get(ident) {
        let value = *value;
        if import.len() < 2 {
            proof {
                assert(walk_f(*context, module, import@, *location, set0, 1) == Some((
                    Ok::<ModuleScopeValue, TypecheckingError>(value),
                    set1,
                )));
            }
            return Ok(value);
        }
        match value {
            ModuleScopeValue::Struct(id) => {
                proof {
                    assert(context.struct_wf(context.structs@[id as int]));
                }
                let st = &context.structs[id];
                match st.global_impl.get(import[1]) {
                    Some(function_id) => {
                        if import.len() < 3 {
                            proof {
                                assert(walk_f(*context, module, import@, *location, set0, 1)
                                    == Some((
                                    Ok::<ModuleScopeValue, TypecheckingError>(
                                        ModuleScopeValue::Function(*function_id),
                                    ),
                                    set1,
                                )));
                            }
                            return Ok(ModuleScopeValue::Function(*function_id));
                        }
                        proof {
                            assert(walk_f(*context, module, import@, *location, set0, 1) == Some((
                                Err::<ModuleScopeValue, TypecheckingError>(
                                    TypecheckingError::ExportNotFound {
                                        location: *location,
                                        name: import@[2],
                                    },
                                ),
                                set1,
                            )));
                        }
                        return Err(
                            TypecheckingError::ExportNotFound {
                                location: *location,
                                name: import[2],
                            },
                        );
                    },
                    None => {
                        proof {
                            assert(walk_f(*context, module, import@, *location, set0, 1) == Some((
                                Err::<ModuleScopeValue, TypecheckingError>(
                                    TypecheckingError::ExportNotFound {
                                        location: st.location,
                                        name: import@[1],
                                    },
                                ),
                                set1,
                            )));
                        }
                        return Err(
                            TypecheckingError::ExportNotFound {
                                location: st.location,
                                name: import[1],
                            },
                        );
                    },
                }
            },
            ModuleScopeValue::Module(id) => {
                proof {
                    lemma_measure_monotone(*context, v0, already_included@);
                }
                let ghost v2 = already_included@;
                let r2 = resolve_import(
                    context,
                    id,
                    &import[1..import.len()],
                    location,
                    already_included,
                );
                proof {
                    let f2 = choose|fuel: nat|
                        #[trigger] walk_f(
                            *context,
                            id,
                            import@.subrange(1, import@.len() as int),
                            *location,
                            visited_set(v2),
                            fuel,
                        ) == Some((r2, visited_set(already_included@)));
                    assert(import@.subrange(1, import@.len() as int) =~= import@.skip(1));
                    assert(walk_f(*context, module, import@, *location, set0, f2 + 1) == Some(
                        (r2, visited_set(already_included@)),
                    ));
                }
                return r2;
            },
            _ => {
                proof {
                    assert(walk_f(*context, module, import@, *location, set0, 1) == Some((
                        Err::<ModuleScopeValue, TypecheckingError>(
                            TypecheckingError::ExportNotFound {
                                location: *location,
                                name: import@[1],
                            },
                        ),
                        set1,
                    )));
                }
                return Err(
                    TypecheckingError::ExportNotFound { location: *location, name: import[1] },
                );
            },
        }
    }
    proof {
        assert(walk_f(*context, module, import@, *location, set0, 1) == Some((
            Err::<ModuleScopeValue, TypecheckingError>(
                TypecheckingError::ExportNotFound { location: *location, name: first },
            ),
            set1,
        )));
    }
    Err(TypecheckingError::ExportNotFound { location: *location, name: first })
}

} // verus!
