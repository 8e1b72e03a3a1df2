//! The first pass over a file: collecting the interfaces, worlds and types
//! it defines, with what each interface records of its functions.
use vstd::prelude::*;
use crate::ast::{
    Case, Field, Func, ImportExportKind, Interface, InterfaceItem, Param, TopLevelItem, TypeDef,
    TypeDefKind, WitFile, World, WorldItem,
};
use crate::body_check::{diags_of, kind_wf, push_diag, push_string, to_constraint_expr, Scope};
use crate::body_spec::{cexpr, State};
use crate::call_check::DiagView;
use crate::call_syntax::utf8_len;
use crate::diagnostics::Diagnostic;
use crate::hush::{compute_line_offsets, extract_hush_comments, hush_list, hush_views, line_offsets};
use crate::text::lines;
use crate::checker::{set_add_exec, typedef_name, Checker};
use crate::constraints::{renamed, rename_ident, string_views, Expr, ParamConstraint};
use crate::diagnostics::{DiagnosticCode, Span};
use crate::file_spec::{
    builtin_key, collect_definitions_spec, collect_interface_spec, collect_items_spec,
    collect_iface_items_spec, collect_typedef_spec, collect_world_items_spec, collect_world_spec,
    iface_func_names, iface_type_names, set_add, typedef_name_of, world_export_names,
    world_import_names, top_items_spec, lemma_top_items_ok, CKeys, Fixed, VState,
};
use crate::func_bodies::{inherit_ok, param_names, project_funcs, proj_funcs};
use crate::inherited::{compute_inherited_constraints, funcs_ok, inherited_holds, FuncDef};
use crate::interfaces::{InterfaceInfo, WorldInfo};
use crate::name_map::NameMap;
use crate::text::{chars_of, push_str, string_of};
use crate::types::{
    alias_constraint, checked_of, CheckedType, copy_ty, fmt_ty, ty_text, opt_view, resolve_type_alias_constraint, same_ty, ty_to_checked, Id, Ty,
    TypeInfo, TypeKind,
};

verus! {

// ---------------------------------------------------------------------------
// What a type definition records
// ---------------------------------------------------------------------------

/// The names a list of identifiers holds.
pub open spec fn id_names(ids: Seq<Id>) -> Seq<Seq<char>> {
    ids.map_values(|i: Id| i.name@)
}

/// The names of the first `k` fields of a record.
pub open spec fn field_names(fs: Seq<Field>, k: int) -> Set<Seq<char>> {
    Set::new(|n: Seq<char>| exists|i: int| 0 <= i < k && #[trigger] fs[i].name.name@ == n)
}

/// The first `k` cases of a variant, each mapped to whether it carries a
/// payload (a later case of the same name wins).
pub open spec fn case_map(cs: Seq<Case>, k: int) -> Map<Seq<char>, bool>
    decreases k,
{
    if k <= 0 || k > cs.len() {
        Map::empty()
    } else {
        case_map(cs, k - 1).insert(cs[k - 1].name.name@, cs[k - 1].ty is Some)
    }
}

/// No field of `fs` after index `i` and before index `k` has the name of
/// field `i`.
pub open spec fn last_named(fs: Seq<Field>, i: int, k: int) -> bool {
    forall|j: int| i < j < k ==> #[trigger] fs[j].name.name@ != fs[i].name.name@
}

/// `k` is what the checker records of a definition of kind `d`: an alias
/// keeps its target and the constraint view of its `where` clause, a record
/// its fields by name (the last field of a name wins), a variant whether each case carries a payload, an
/// enum or flags their names.
pub open spec fn kind_of(d: TypeDefKind, k: TypeKind) -> bool {
    match d {
        TypeDefKind::Alias { ty, constraint, .. } => match k {
            TypeKind::Alias { target, constraint: c } => same_ty(ty, *target) && c == match constraint {
                Some(e) => Some(cexpr(e)),
                None => None,
            },
            _ => false,
        },
        TypeDefKind::Record { fields, .. } => match k {
            TypeKind::Record { fields: m } => {
                &&& m@.dom() == field_names(fields@, fields@.len() as int)
                &&& forall|n: Seq<char>|
                    #[trigger] m@.contains_key(n) ==> exists|i: int|
                        0 <= i < fields@.len() && fields@[i].name.name@ == n && same_ty(
                            fields@[i].ty,
                            m@[n],
                        ) && last_named(fields@, i, fields@.len() as int)
            },
            _ => false,
        },
        TypeDefKind::Variant { cases, .. } => match k {
            TypeKind::Variant { cases: m } => m@ == case_map(cases@, cases@.len() as int),
            _ => false,
        },
        TypeDefKind::Enum { cases, .. } => match k {
            TypeKind::Enum { cases: v } => string_views(v@) == id_names(cases@),
            _ => false,
        },
        TypeDefKind::Flags { flags, .. } => match k {
            TypeKind::Flags { flags: v } => string_views(v@) == id_names(flags@),
            _ => false,
        },
        TypeDefKind::Resource { .. } => k is Resource,
    }
}

fn id_name_list(ids: &Vec<Id>) -> (r: Vec<String>)
    ensures
        string_views(r@) == id_names(ids@),
{
    let mut r: Vec<String> = Vec::new();
    let mut i: usize = 0;
    while i < ids.len()
        invariant
            i <= ids@.len(),
            string_views(r@) == id_names(ids@.take(i as int)),
        decreases ids@.len() - i,
    {
        r.push(ids[i].name.clone());
        assert(id_names(ids@.take(i + 1)) =~= id_names(ids@.take(i as int)).push(ids@[i as int].name@));
        assert(string_views(r@) =~= id_names(ids@.take(i + 1)));
        i = i + 1;
    }
    assert(ids@.take(i as int) =~= ids@);
    r
}

fn field_table(fs: &Vec<Field>) -> (m: NameMap<Ty>)
    ensures
        m.wf(),
        m@.dom() == field_names(fs@, fs@.len() as int),
        forall|n: Seq<char>|
            #[trigger] m@.contains_key(n) ==> exists|i: int|
                0 <= i < fs@.len() && fs@[i].name.name@ == n && same_ty(fs@[i].ty, m@[n])
                    && last_named(fs@, i, fs@.len() as int),
{
    let mut m: NameMap<Ty> = NameMap::new();
    let mut i: usize = 0;
    while i < fs.len()
        invariant
            i <= fs@.len(),
            m.wf(),
            m@.dom() == field_names(fs@, i as int),
            forall|n: Seq<char>|
                #[trigger] m@.contains_key(n) ==> exists|j: int|
                    0 <= j < i && fs@[j].name.name@ == n && same_ty(fs@[j].ty, m@[n])
                        && last_named(fs@, j, i as int),
        decreases fs@.len() - i,
    {
        let t = copy_ty(&fs[i].ty);
        let ghost before = m@;
        m.insert(fs[i].name.name.clone(), t);
        proof {
            let key = fs@[i as int].name.name@;
            assert forall|n: Seq<char>| #[trigger] m@.contains_key(n) implies exists|j: int|
                0 <= j < i + 1 && fs@[j].name.name@ == n && same_ty(fs@[j].ty, m@[n])
                    && last_named(fs@, j, i + 1) by {
                if n == key {
                    assert(fs@[i as int].name.name@ == n && same_ty(fs@[i as int].ty, m@[n]));
                    assert(last_named(fs@, i as int, i + 1));
                } else {
                    assert(before.contains_key(n));
                    let j = choose|j: int| 0 <= j < i && fs@[j].name.name@ == n && same_ty(fs@[j].ty, before[n])
                        && last_named(fs@, j, i as int);
                    assert(fs@[j].name.name@ == n && same_ty(fs@[j].ty, m@[n]));
                    assert(last_named(fs@, j, i + 1));
                }
            }
            assert forall|n: Seq<char>| field_names(fs@, i + 1).contains(n) <==> m@.dom().contains(n) by {
                if field_names(fs@, i + 1).contains(n) && n != key {
                    let j = choose|j: int| 0 <= j < i + 1 && #[trigger] fs@[j].name.name@ == n;
                    assert(field_names(fs@, i as int).contains(n));
                }
                if m@.dom().contains(n) && n != key {
                    assert(field_names(fs@, i as int).contains(n));
                    let j = choose|j: int| 0 <= j < i && #[trigger] fs@[j].name.name@ == n;
                    assert(fs@[j].name.name@ == n);
                }
                if n == key {
                    assert(fs@[i as int].name.name@ == n);
                }
            }
            assert(m@.dom() =~= field_names(fs@, i + 1));
        }
        i = i + 1;
    }
    m
}

fn case_table(cs: &Vec<Case>) -> (m: NameMap<bool>)
    ensures
        m.wf(),
        m@ == case_map(cs@, cs@.len() as int),
{
    let mut m: NameMap<bool> = NameMap::new();
    let mut i: usize = 0;
    while i < cs.len()
        invariant
            i <= cs@.len(),
            m.wf(),
            m@ == case_map(cs@, i as int),
        decreases cs@.len() - i,
    {
        m.insert(cs[i].name.name.clone(), cs[i].ty.is_some());
        i = i + 1;
    }
    m
}

/// What the checker records of a type definition of kind `d`.
pub fn typedef_to_kind(d: &TypeDefKind) -> (k: TypeKind)
    ensures
        kind_of(*d, k),
        kind_wf(k),
{
    match d {
        TypeDefKind::Alias { ty, constraint, .. } => TypeKind::Alias {
            target: Box::new(copy_ty(ty)),
            constraint: match constraint {
                Some(e) => Some(to_constraint_expr(e)),
                None => None,
            },
        },
        TypeDefKind::Record { fields, .. } => TypeKind::Record { fields: field_table(fields) },
        TypeDefKind::Variant { cases, .. } => TypeKind::Variant { cases: case_table(cases) },
        TypeDefKind::Enum { cases, .. } => TypeKind::Enum { cases: id_name_list(cases) },
        TypeDefKind::Flags { flags, .. } => TypeKind::Flags { flags: id_name_list(flags) },
        TypeDefKind::Resource { .. } => TypeKind::Resource,
    }
}

// ---------------------------------------------------------------------------
// The collecting pass
// ---------------------------------------------------------------------------

/// Finding inherited constraints stays in the `i64` range in every
/// interface of the file.
pub open spec fn file_inherit_ok(items: Seq<TopLevelItem>) -> bool {
    forall|k: int|
        0 <= k < items.len() ==> match #[trigger] items[k] {
            TopLevelItem::Interface(i) => inherit_ok(i.items@),
            _ => true,
        }
}

/// How a parameter is listed with its type: `name: type`.
pub open spec fn param_type_text(p: Param) -> Seq<char> {
    p.name.name@ + ": "@ + ty_text(p.ty)
}

/// The parameters of a function listed with their types.
pub open spec fn param_type_texts(ps: Seq<Param>) -> Seq<Seq<char>> {
    ps.map_values(|p: Param| param_type_text(p))
}

/// The views of a table of name lists.
pub open spec fn list_views(m: Map<Seq<char>, Vec<String>>) -> Map<Seq<char>, Seq<Seq<char>>> {
    Map::new(|k: Seq<char>| m.contains_key(k), |k: Seq<char>| string_views(m[k]@))
}

/// The result types the first `k` items of an interface record, by
/// function name (a later function of the same name wins).
pub open spec fn returns_map(items: Seq<InterfaceItem>, k: int) -> Map<Seq<char>, CheckedType>
    decreases k,
{
    if k <= 0 || k > items.len() {
        Map::empty()
    } else {
        let prev = returns_map(items, k - 1);
        match items[k - 1] {
            InterfaceItem::Func(f) => match f.result {
                Some(r) => prev.insert(f.name.name@, checked_of(r)),
                None => prev,
            },
            _ => prev,
        }
    }
}

/// The parameter names the first `k` items of an interface record, for
/// each function with parameters.
pub open spec fn params_map(items: Seq<InterfaceItem>, k: int) -> Map<Seq<char>, Seq<Seq<char>>>
    decreases k,
{
    if k <= 0 || k > items.len() {
        Map::empty()
    } else {
        let prev = params_map(items, k - 1);
        match items[k - 1] {
            InterfaceItem::Func(f) => if f.params@.len() > 0 {
                prev.insert(f.name.name@, param_names(f.params@))
            } else {
                prev
            },
            _ => prev,
        }
    }
}

/// The parameters with their types that the first `k` items of an
/// interface record, for each function with parameters.
pub open spec fn param_types_map(items: Seq<InterfaceItem>, k: int) -> Map<Seq<char>, Seq<Seq<char>>>
    decreases k,
{
    if k <= 0 || k > items.len() {
        Map::empty()
    } else {
        let prev = param_types_map(items, k - 1);
        match items[k - 1] {
            InterfaceItem::Func(f) => if f.params@.len() > 0 {
                prev.insert(f.name.name@, param_type_texts(f.params@))
            } else {
                prev
            },
            _ => prev,
        }
    }
}

/// The constraints written on the first `k` parameters, in order, each
/// with its parameter's name.
pub open spec fn written_constraints(ps: Seq<Param>, k: int) -> Seq<ParamConstraint>
    decreases k,
{
    if k <= 0 || k > ps.len() {
        Seq::empty()
    } else {
        let prev = written_constraints(ps, k - 1);
        match ps[k - 1].constraint {
            Some(c) => prev.push(ParamConstraint { param_name: ps[k - 1].name.name, constraint: cexpr(c) }),
            None => prev,
        }
    }
}

/// What a type table at some point of collecting is made of: the keys
/// collected so far, with `dtypes` holding the definition recorded for
/// each key the file defines (the other keys are built-in types).
pub open spec fn table_follows(
    table: Map<(Option<Seq<char>>, Seq<char>), TypeInfo>,
    dtypes: Map<(Option<Seq<char>>, Seq<char>), TypeDef>,
) -> bool {
    &&& forall|k: (Option<Seq<char>>, Seq<char>)|
        #[trigger] dtypes.contains_key(k) ==> table.contains_key(k) && kind_of(dtypes[k].kind, table[k].kind)
    &&& forall|k: (Option<Seq<char>>, Seq<char>)|
        #[trigger] table.contains_key(k) && !dtypes.contains_key(k) ==> builtin_kind(k.1, table[k].kind)
}

/// The `where` constraint of the alias that `t` names (directly, or as the
/// head of a generic), looked up among the collected `keys` from `current`
/// (first in the current interface, then at the top level); built-in types
/// carry none.
pub open spec fn def_alias_constraint(
    t: Ty,
    keys: Set<(Option<Seq<char>>, Seq<char>)>,
    dtypes: Map<(Option<Seq<char>>, Seq<char>), TypeDef>,
    current: Option<Seq<char>>,
) -> Option<Expr> {
    let head = match t {
        Ty::Named(id) => Some(id.name@),
        Ty::Generic { name, .. } => Some(name.name@),
        _ => None,
    };
    match head {
        Some(n) => {
            let key = if current is Some && keys.contains((current, n)) {
                Some((current, n))
            } else if keys.contains((None::<Seq<char>>, n)) {
                Some((None::<Seq<char>>, n))
            } else {
                None
            };
            match key {
                Some(k) => if dtypes.contains_key(k) {
                    match dtypes[k].kind {
                        TypeDefKind::Alias { constraint, .. } => match constraint {
                            Some(e) => Some(cexpr(e)),
                            None => None,
                        },
                        _ => None,
                    }
                } else {
                    None
                },
                None => None,
            }
        },
        None => None,
    }
}

/// Looking an alias's constraint up in a table gives what its recorded
/// definition says.
proof fn lemma_alias_agrees(
    t: Ty,
    table: Map<(Option<Seq<char>>, Seq<char>), TypeInfo>,
    dtypes: Map<(Option<Seq<char>>, Seq<char>), TypeDef>,
    current: Option<Seq<char>>,
)
    requires
        table_follows(table, dtypes),
    ensures
        alias_constraint(t, table, current) == def_alias_constraint(t, table.dom(), dtypes, current),
{
    let head = match t {
        Ty::Named(id) => Some(id.name@),
        Ty::Generic { name, .. } => Some(name.name@),
        _ => None,
    };
    if let Some(n) = head {
        let key = if current is Some && table.contains_key((current, n)) {
            (current, n)
        } else {
            (None::<Seq<char>>, n)
        };
        if table.contains_key(key) {
            if dtypes.contains_key(key) {
                assert(kind_of(dtypes[key].kind, table[key].kind));
            } else {
                assert(builtin_kind(key.1, table[key].kind));
            }
        }
    }
}

/// The constraints of the first `k` parameters whose type names an alias
/// with a constraint: the alias's constraint with `it` renamed to the
/// parameter's name.
pub open spec fn alias_param_constraints(
    ps: Seq<Param>,
    k: int,
    keys: Set<(Option<Seq<char>>, Seq<char>)>,
    dtypes: Map<(Option<Seq<char>>, Seq<char>), TypeDef>,
    current: Option<Seq<char>>,
) -> Seq<ParamConstraint>
    decreases k,
{
    if k <= 0 || k > ps.len() {
        Seq::empty()
    } else {
        let prev = alias_param_constraints(ps, k - 1, keys, dtypes, current);
        match def_alias_constraint(ps[k - 1].ty, keys, dtypes, current) {
            Some(c) => prev.push(
                ParamConstraint {
                    param_name: ps[k - 1].name.name,
                    constraint: renamed(c, "it"@, ps[k - 1].name.name),
                },
            ),
            None => prev,
        }
    }
}

/// The constraints on a function's parameters: those written on them, in
/// order, then those of the aliases their types name.
pub open spec fn func_constraints(
    ps: Seq<Param>,
    keys: Set<(Option<Seq<char>>, Seq<char>)>,
    dtypes: Map<(Option<Seq<char>>, Seq<char>), TypeDef>,
    current: Option<Seq<char>>,
) -> Seq<ParamConstraint> {
    written_constraints(ps, ps.len() as int) + alias_param_constraints(
        ps,
        ps.len() as int,
        keys,
        dtypes,
        current,
    )
}

/// The constraint table of an interface after its first `k` items: each
/// function with constraints under its name (a later function of the same
/// name wins), each looked up among the types collected before it.
pub open spec fn iface_constraints(
    items: Seq<InterfaceItem>,
    k: int,
    iface: Seq<char>,
    ck: CKeys,
    d: Defs,
) -> Map<Seq<char>, Seq<ParamConstraint>>
    decreases k,
{
    if k <= 0 || k > items.len() {
        Map::empty()
    } else {
        let prev = iface_constraints(items, k - 1, iface, ck, d);
        match items[k - 1] {
            InterfaceItem::Func(f) => {
                let cs = func_constraints(
                    f.params@,
                    collect_iface_items_spec(items, k - 1, iface, ck).types,
                    iface_items_defs(items, k - 1, iface, ck, d).types,
                    Some(iface),
                );
                if cs.len() > 0 {
                    prev.insert(f.name.name@, cs)
                } else {
                    prev
                }
            },
            _ => prev,
        }
    }
}

/// The lists of a table of constraint lists.
pub open spec fn constraint_lists(m: Map<Seq<char>, Vec<ParamConstraint>>) -> Map<Seq<char>, Seq<ParamConstraint>> {
    Map::new(|k: Seq<char>| m.contains_key(k), |k: Seq<char>| m[k]@)
}

/// The views of a table of constraints: the parameter name and the
/// constraint.
pub open spec fn constraint_views(m: Map<Seq<char>, ParamConstraint>) -> Map<Seq<char>, (Seq<char>, Expr)> {
    Map::new(|k: Seq<char>| m.contains_key(k), |k: Seq<char>| (m[k].param_name@, m[k].constraint))
}

/// For each function among the first `k` items of an interface whose
/// result type names an alias with a constraint, that constraint on
/// `result` (a later function of the same name wins).
pub open spec fn return_constraints_map(
    items: Seq<InterfaceItem>,
    k: int,
    keys: Set<(Option<Seq<char>>, Seq<char>)>,
    dtypes: Map<(Option<Seq<char>>, Seq<char>), TypeDef>,
    current: Option<Seq<char>>,
) -> Map<Seq<char>, (Seq<char>, Expr)>
    decreases k,
{
    if k <= 0 || k > items.len() {
        Map::empty()
    } else {
        let prev = return_constraints_map(items, k - 1, keys, dtypes, current);
        match items[k - 1] {
            InterfaceItem::Func(f) => match f.result {
                Some(t) => match def_alias_constraint(t, keys, dtypes, current) {
                    Some(c) => prev.insert(f.name.name@, ("result"@, c)),
                    None => prev,
                },
                None => prev,
            },
            _ => prev,
        }
    }
}

// ---------------------------------------------------------------------------
// Which definition each collected name records
// ---------------------------------------------------------------------------

/// The definitions that collecting records: for each type key, interface
/// name and world name, the definition that introduced it.
pub struct Defs {
    pub types: Map<(Option<Seq<char>>, Seq<char>), TypeDef>,
    pub interfaces: Map<Seq<char>, Interface>,
    pub worlds: Map<Seq<char>, World>,
    /// For each recorded interface, the constraint table of its functions.
    pub constraints: Map<Seq<char>, Map<Seq<char>, Seq<ParamConstraint>>>,
    /// For each recorded interface, the constraints on its functions'
    /// results.
    pub result_constraints: Map<Seq<char>, Map<Seq<char>, (Seq<char>, Expr)>>,
}

/// No definition recorded yet.
pub open spec fn empty_defs() -> Defs {
    Defs {
        types: Map::empty(),
        interfaces: Map::empty(),
        worlds: Map::empty(),
        constraints: Map::empty(),
        result_constraints: Map::empty(),
    }
}

/// A type definition is recorded under its key unless the key is taken.
pub open spec fn typedef_defs(td: TypeDef, iface: Option<Seq<char>>, ck: CKeys, d: Defs) -> Defs {
    let key = (iface, typedef_name_of(td.kind)@);
    if ck.types.contains(key) {
        d
    } else {
        Defs { types: d.types.insert(key, td), ..d }
    }
}

/// The definitions recorded for the first `k` items of an interface.
pub open spec fn iface_items_defs(items: Seq<InterfaceItem>, k: int, iface: Seq<char>, ck: CKeys, d: Defs) -> Defs
    decreases k,
{
    if k <= 0 || k > items.len() {
        d
    } else {
        let prev = iface_items_defs(items, k - 1, iface, ck, d);
        match items[k - 1] {
            InterfaceItem::TypeDef(td) => typedef_defs(
                td,
                Some(iface),
                collect_iface_items_spec(items, k - 1, iface, ck),
                prev,
            ),
            _ => prev,
        }
    }
}

/// The definitions recorded for an interface: its types, and itself under
/// its name, unless the name is taken.
pub open spec fn interface_defs(i: Interface, ck: CKeys, d: Defs) -> Defs {
    let name = i.name.name@;
    if ck.interfaces.contains(name) {
        d
    } else {
        let d1 = iface_items_defs(i.items@, i.items@.len() as int, name, ck, d);
        let keys = collect_iface_items_spec(i.items@, i.items@.len() as int, name, ck).types;
        Defs {
            interfaces: d1.interfaces.insert(name, i),
            constraints: d1.constraints.insert(
                name,
                iface_constraints(i.items@, i.items@.len() as int, name, ck, d),
            ),
            result_constraints: d1.result_constraints.insert(
                name,
                return_constraints_map(i.items@, i.items@.len() as int, keys, d1.types, Some(name)),
            ),
            ..d1
        }
    }
}

/// The definitions recorded for the first `k` items of a world.
pub open spec fn world_items_defs(items: Seq<WorldItem>, k: int, ck: CKeys, d: Defs) -> Defs
    decreases k,
{
    if k <= 0 || k > items.len() {
        d
    } else {
        let prev = world_items_defs(items, k - 1, ck, d);
        match items[k - 1] {
            WorldItem::TypeDef(td) => typedef_defs(td, None, collect_world_items_spec(items, k - 1, ck), prev),
            _ => prev,
        }
    }
}

/// The definitions recorded for a world: its types, and itself under its
/// name, unless the name is taken.
pub open spec fn world_defs(w: World, ck: CKeys, d: Defs) -> Defs {
    let name = w.name.name@;
    if ck.worlds.contains(name) {
        d
    } else {
        let d1 = world_items_defs(w.items@, w.items@.len() as int, ck, d);
        Defs { worlds: d1.worlds.insert(name, w), ..d1 }
    }
}

/// The definitions recorded for the first `k` items of a file.
pub open spec fn items_defs(items: Seq<TopLevelItem>, k: int, ck: CKeys, d: Defs) -> Defs
    decreases k,
{
    if k <= 0 || k > items.len() {
        d
    } else {
        let prev = items_defs(items, k - 1, ck, d);
        let prev_ck = collect_items_spec(items, k - 1, ck);
        match items[k - 1] {
            TopLevelItem::Interface(i) => interface_defs(i, prev_ck, prev),
            TopLevelItem::World(w) => world_defs(w, prev_ck, prev),
            _ => prev,
        }
    }
}

/// What the tables hold of the recorded definitions: each recorded type
/// keeps its kind (see `kind_of`) and span, and every other type is a
/// built-in one of its built-in kind; each recorded interface keeps the
/// names of its types and functions, and per function its result type,
/// parameter names and parameters with their types; each recorded world
/// the names it imports and exports.
/// The kind a built-in type is recorded with: `result` is a variant whose
/// `ok` and `err` cases carry payloads; every other built-in is primitive.
pub open spec fn builtin_kind(n: Seq<char>, k: TypeKind) -> bool {
    if n == "result"@ {
        k matches TypeKind::Variant { cases } && cases@ == Map::<Seq<char>, bool>::empty().insert("ok"@, true).insert(
            "err"@,
            true,
        )
    } else {
        k is Primitive
    }
}

/// An interface's table of inherited constraints is what finding them in
/// its functions' bodies gives, from its own constraint and parameter
/// tables.
pub open spec fn inherits_as_found(info: InterfaceInfo, items: Seq<InterfaceItem>) -> bool {
    exists|fs: Seq<FuncDef>|
        #![trigger proj_funcs(items, fs)]
        proj_funcs(items, fs) && inherited_holds(
            info.inherited_constraints@,
            fs,
            info.function_constraints@,
            info.function_params@,
        )
}

pub open spec fn defs_hold(
    types: Map<(Option<Seq<char>>, Seq<char>), TypeInfo>,
    interfaces: Map<Seq<char>, InterfaceInfo>,
    worlds: Map<Seq<char>, WorldInfo>,
    d: Defs,
) -> bool {
    &&& forall|k: (Option<Seq<char>>, Seq<char>)|
        #[trigger] d.types.contains_key(k) ==> types.contains_key(k) && kind_of(d.types[k].kind, types[k].kind)
            && types[k].span == d.types[k].span
    &&& forall|k: (Option<Seq<char>>, Seq<char>)|
        #[trigger] types.contains_key(k) && !d.types.contains_key(k) ==> k.0 is None && builtin_key(k.1)
            && builtin_kind(k.1, types[k].kind)
    &&& forall|n: Seq<char>|
        #[trigger] d.interfaces.contains_key(n) ==> {
            &&& interfaces.contains_key(n)
            &&& interfaces[n].types@ == iface_type_names(d.interfaces[n].items@, d.interfaces[n].items@.len() as int)
            &&& interfaces[n].functions@ == iface_func_names(d.interfaces[n].items@, d.interfaces[n].items@.len() as int)
            &&& interfaces[n].span == d.interfaces[n].span
            &&& interfaces[n].function_returns@ == returns_map(d.interfaces[n].items@, d.interfaces[n].items@.len() as int)
            &&& list_views(interfaces[n].function_params@) == params_map(d.interfaces[n].items@, d.interfaces[n].items@.len() as int)
            &&& list_views(interfaces[n].function_param_types@) == param_types_map(
                d.interfaces[n].items@,
                d.interfaces[n].items@.len() as int,
            )
            &&& constraint_lists(interfaces[n].function_constraints@) == d.constraints[n]
            &&& constraint_views(interfaces[n].return_constraints@) == d.result_constraints[n]
            &&& inherits_as_found(interfaces[n], d.interfaces[n].items@)
        }
    &&& forall|n: Seq<char>|
        #[trigger] d.worlds.contains_key(n) ==> {
            &&& worlds.contains_key(n)
            &&& worlds[n].imports@ == world_import_names(d.worlds[n].items@, d.worlds[n].items@.len() as int)
            &&& worlds[n].exports@ == world_export_names(d.worlds[n].items@, d.worlds[n].items@.len() as int)
            &&& worlds[n].span == d.worlds[n].span
        }
}

// ---------------------------------------------------------------------------
// Collecting, step by step
// ---------------------------------------------------------------------------

/// `b` differs from `a` at most in what collecting changes: the tables,
/// the imported interfaces and the diagnostics.
pub open spec fn collect_frame(a: Checker, b: Checker) -> bool {
    &&& b.current_interface == a.current_interface
    &&& b.resolving == a.resolving
    &&& b.type_params == a.type_params
    &&& b.self_key == a.self_key
    &&& b.hush_comments == a.hush_comments
    &&& b.in_test_function == a.in_test_function
    &&& b.current_return_type == a.current_return_type
    &&& b.source_line_offsets == a.source_line_offsets
    &&& b.scope.state() == State { diags: b.scope.state().diags, ..a.scope.state() }
}

fn opt_string(o: Option<&str>) -> (r: Option<String>)
    ensures
        match r {
            Some(s) => Some(s@),
            None => None::<Seq<char>>,
        } == opt_view(o),
{
    match o {
        Some(s) => Some(string_of(chars_of(s).as_slice())),
        None => None,
    }
}

fn param_type_list(ps: &Vec<Param>) -> (r: Vec<String>)
    ensures
        string_views(r@) == param_type_texts(ps@),
{
    let mut r: Vec<String> = Vec::new();
    let mut i: usize = 0;
    while i < ps.len()
        invariant
            i <= ps@.len(),
            string_views(r@) == param_type_texts(ps@.take(i as int)),
        decreases ps@.len() - i,
    {
        let mut v: Vec<char> = Vec::new();
        push_string(&mut v, &ps[i].name.name);
        push_str(&mut v, ": ");
        push_string(&mut v, &fmt_ty(&ps[i].ty));
        r.push(string_of(v.as_slice()));
        assert(param_type_texts(ps@.take(i + 1)) =~= param_type_texts(ps@.take(i as int)).push(param_type_text(ps@[i as int])));
        assert(string_views(r@) =~= param_type_texts(ps@.take(i + 1)));
        i = i + 1;
    }
    assert(ps@.take(i as int) =~= ps@);
    r
}

fn param_name_list(ps: &Vec<Param>) -> (r: Vec<String>)
    ensures
        string_views(r@) == param_names(ps@),
{
    let mut r: Vec<String> = Vec::new();
    let mut i: usize = 0;
    while i < ps.len()
        invariant
            i <= ps@.len(),
            string_views(r@) == param_names(ps@.take(i as int)),
        decreases ps@.len() - i,
    {
        r.push(ps[i].name.name.clone());
        assert(param_names(ps@.take(i + 1)) =~= param_names(ps@.take(i as int)).push(ps@[i as int].name.name@));
        assert(string_views(r@) =~= param_names(ps@.take(i + 1)));
        i = i + 1;
    }
    assert(ps@.take(i as int) =~= ps@);
    r
}

impl Checker {
    /// The tables hold what `d` records.
    pub open spec fn holds(&self, d: Defs) -> bool {
        defs_hold(self.types@, self.interfaces@, self.worlds@, d)
    }

    /// What collecting decides, as a value.
    pub open spec fn ckeys(&self) -> CKeys {
        CKeys {
            types: self.types@.dom(),
            interfaces: self.interfaces@.dom(),
            worlds: self.worlds@.dom(),
            imported: self.imported_interface_bindings@,
            diags: self.scope.state().diags,
        }
    }

    /// Records a type definition under `iface` (none for a world), or
    /// reports a second definition of its key; gives the type's name.
    fn collect_typedef(&mut self, td: &TypeDef, iface: Option<&str>, Ghost(d): Ghost<Defs>) -> (name: String)
        requires
            old(self).wf(),
            old(self).holds(d),
        ensures
            final(self).holds(typedef_defs(*td, opt_view(iface), old(self).ckeys(), d)),
            final(self).wf(),
            collect_frame(*old(self), *final(self)),
            final(self).interfaces == old(self).interfaces,
            final(self).worlds == old(self).worlds,
            final(self).imported_interface_bindings == old(self).imported_interface_bindings,
            final(self).ckeys() == collect_typedef_spec(*td, opt_view(iface), old(self).ckeys()),
            name == typedef_name_of(td.kind),
    {
        let name = typedef_name(&td.kind).clone();
        if self.types.get(iface, name.as_str()).is_some() {
            let mut m: Vec<char> = Vec::new();
            push_str(&mut m, "Duplicate type definition: ");
            push_string(&mut m, &name);
            push_diag(&mut self.scope, m, td.span, DiagnosticCode::DuplicateDefinition);
        } else {
            let kind = typedef_to_kind(&td.kind);
            let info = TypeInfo { name: name.clone(), kind, span: td.span, interface: opt_string(iface) };
            assert(kind_wf(info.kind));
            let ghost key = crate::types::type_key(info);
            let ghost i2 = info;
            self.types.insert_new(info);
            assert(self.types@.dom() =~= old(self).types@.dom().insert(key));
            assert(key == (opt_view(iface), typedef_name_of(td.kind)@));
            proof {
                let d2 = typedef_defs(*td, opt_view(iface), old(self).ckeys(), d);
                assert forall|k: (Option<Seq<char>>, Seq<char>)| #[trigger] d2.types.contains_key(k) implies
                    self.types@.contains_key(k) && kind_of(d2.types[k].kind, self.types@[k].kind)
                        && self.types@[k].span == d2.types[k].span by {
                    if k != key {
                        assert(d.types.contains_key(k));
                        assert(old(self).types@.contains_key(k));
                    }
                }
            }
        }
        name
    }

    /// The constraints on a function's parameters: those written on the
    /// parameters, then those of the aliases their types name, with `it`
    /// replaced by the parameter's name.
    fn param_constraints(&self, ps: &Vec<Param>, current: &str, Ghost(dtypes): Ghost<
        Map<(Option<Seq<char>>, Seq<char>), TypeDef>,
    >) -> (r: Vec<ParamConstraint>)
        requires
            self.types.wf(),
            table_follows(self.types@, dtypes),
        ensures
            r@ == func_constraints(ps@, self.types@.dom(), dtypes, Some(current@)),
    {
        let mut r: Vec<ParamConstraint> = Vec::new();
        let mut i: usize = 0;
        while i < ps.len()
            invariant
                i <= ps@.len(),
                r@ == written_constraints(ps@, i as int),
            decreases ps@.len() - i,
        {
            match &ps[i].constraint {
                Some(c) => r.push(
                    ParamConstraint { param_name: ps[i].name.name.clone(), constraint: to_constraint_expr(c) },
                ),
                None => {},
            }
            i = i + 1;
        }
        let ghost w = r@;
        let ghost keys = self.types@.dom();
        let ghost cur = Some(current@);
        let mut i: usize = 0;
        while i < ps.len()
            invariant
                i <= ps@.len(),
                self.types.wf(),
                table_follows(self.types@, dtypes),
                keys == self.types@.dom(),
                cur == Some(current@),
                w == written_constraints(ps@, ps@.len() as int),
                r@ == w + alias_param_constraints(ps@, i as int, keys, dtypes, cur),
            decreases ps@.len() - i,
        {
            proof {
                lemma_alias_agrees(ps@[i as int].ty, self.types@, dtypes, cur);
            }
            match resolve_type_alias_constraint(&ps[i].ty, &self.types, Some(current)) {
                Some(tc) => {
                    let pc = ParamConstraint {
                        param_name: ps[i].name.name.clone(),
                        constraint: rename_ident(&tc, "it", &ps[i].name.name),
                    };
                    r.push(pc);
                },
                None => {},
            }
            proof {
                assert(r@ =~= w + alias_param_constraints(ps@, i + 1, keys, dtypes, cur));
            }
            i = i + 1;
        }
        r
    }

    /// Records what an interface holds of a function.
    fn record_func(&self, f: &Func, current: &str, info: &mut InterfaceInfo, Ghost(dtypes): Ghost<
        Map<(Option<Seq<char>>, Seq<char>), TypeDef>,
    >)
        requires
            self.types.wf(),
            table_follows(self.types@, dtypes),
            old(info).wf(),
        ensures
            final(info).wf(),
            final(info).name == old(info).name,
            final(info).span == old(info).span,
            final(info).types == old(info).types,
            final(info).functions@ == old(info).functions@.push(f.name.name),
            final(info).return_constraints == old(info).return_constraints,
            final(info).function_returns@ == match f.result {
                Some(r) => old(info).function_returns@.insert(f.name.name@, checked_of(r)),
                None => old(info).function_returns@,
            },
            list_views(final(info).function_params@) == if f.params@.len() > 0 {
                list_views(old(info).function_params@).insert(f.name.name@, param_names(f.params@))
            } else {
                list_views(old(info).function_params@)
            },
            list_views(final(info).function_param_types@) == if f.params@.len() > 0 {
                list_views(old(info).function_param_types@).insert(f.name.name@, param_type_texts(f.params@))
            } else {
                list_views(old(info).function_param_types@)
            },
            constraint_lists(final(info).function_constraints@) == ({
                let cs = func_constraints(f.params@, self.types@.dom(), dtypes, Some(current@));
                if cs.len() > 0 {
                    constraint_lists(old(info).function_constraints@).insert(f.name.name@, cs)
                } else {
                    constraint_lists(old(info).function_constraints@)
                }
            }),
    {
        let fname = f.name.name.clone();
        info.functions.push(fname.clone());
        match &f.result {
            Some(t) => info.function_returns.insert(fname.clone(), ty_to_checked(t)),
            None => {},
        }
        if f.params.len() > 0 {
            let ghost p0 = list_views(info.function_params@);
            let ghost t0 = list_views(info.function_param_types@);
            info.function_params.insert(fname.clone(), param_name_list(&f.params));
            info.function_param_types.insert(fname.clone(), param_type_list(&f.params));
            assert(list_views(info.function_params@) =~= p0.insert(f.name.name@, param_names(f.params@)));
            assert(list_views(info.function_param_types@) =~= t0.insert(f.name.name@, param_type_texts(f.params@)));
        }
        let cs = self.param_constraints(&f.params, current, Ghost(dtypes));
        if cs.len() > 0 {
            let ghost c0 = constraint_lists(info.function_constraints@);
            let ghost csv = cs@;
            info.function_constraints.insert(fname, cs);
            assert(constraint_lists(info.function_constraints@) =~= c0.insert(f.name.name@, csv));
        }
    }

    /// Records the constraint on each function's result that the alias its
    /// result type names carries.
    fn record_return_constraints(&self, items: &Vec<InterfaceItem>, current: &str, info: &mut InterfaceInfo, Ghost(
        dtypes,
    ): Ghost<Map<(Option<Seq<char>>, Seq<char>), TypeDef>>)
        requires
            self.types.wf(),
            table_follows(self.types@, dtypes),
            old(info).wf(),
            old(info).return_constraints@ == Map::<Seq<char>, ParamConstraint>::empty(),
        ensures
            final(info).wf(),
            final(info).name == old(info).name,
            final(info).span == old(info).span,
            final(info).types == old(info).types,
            final(info).functions == old(info).functions,
            final(info).function_constraints == old(info).function_constraints,
            final(info).function_params == old(info).function_params,
            final(info).function_param_types == old(info).function_param_types,
            final(info).function_returns == old(info).function_returns,
            constraint_views(final(info).return_constraints@) == return_constraints_map(
                items@,
                items@.len() as int,
                self.types@.dom(),
                dtypes,
                Some(current@),
            ),
    {
        assert(constraint_views(info.return_constraints@) =~= Map::<Seq<char>, (Seq<char>, Expr)>::empty());
        let mut k: usize = 0;
        while k < items.len()
            invariant
                k <= items@.len(),
                self.types.wf(),
                table_follows(self.types@, dtypes),
                info.wf(),
                info.name == old(info).name,
                info.span == old(info).span,
                info.types == old(info).types,
                info.functions == old(info).functions,
                info.function_constraints == old(info).function_constraints,
                info.function_params == old(info).function_params,
                info.function_param_types == old(info).function_param_types,
                info.function_returns == old(info).function_returns,
                constraint_views(info.return_constraints@) == return_constraints_map(
                    items@,
                    k as int,
                    self.types@.dom(),
                    dtypes,
                    Some(current@),
                ),
            decreases items@.len() - k,
        {
            match &items[k] {
                InterfaceItem::Func(f) => match &f.result {
                    Some(t) => {
                        proof {
                            lemma_alias_agrees(*t, self.types@, dtypes, Some(current@));
                        }
                        match resolve_type_alias_constraint(t, &self.types, Some(current)) {
                            Some(tc) => {
                                let pn = string_of(chars_of("result").as_slice());
                                let ghost m0 = constraint_views(info.return_constraints@);
                                let pc = ParamConstraint { param_name: pn, constraint: tc };
                                assert(pc.param_name@ == "result"@);
                                info.return_constraints.insert(f.name.name.clone(), pc);
                                assert(constraint_views(info.return_constraints@) =~= m0.insert(
                                    f.name.name@,
                                    ("result"@, pc.constraint),
                                ));
                            },
                            None => {},
                        }
                    },
                    None => {},
                },
                _ => {},
            }
            k = k + 1;
        }
    }

    /// Collects an interface: reports a second interface of the same name,
    /// or records its types, its functions and what each function holds.
    fn collect_interface(&mut self, iface: &Interface, Ghost(d): Ghost<Defs>)
        requires
            old(self).wf(),
            old(self).holds(d),
            inherit_ok(iface.items@),
        ensures
            final(self).holds(interface_defs(*iface, old(self).ckeys(), d)),
            final(self).wf(),
            collect_frame(*old(self), *final(self)),
            final(self).worlds == old(self).worlds,
            final(self).ckeys() == collect_interface_spec(*iface, old(self).ckeys()),
            !old(self).interfaces@.contains_key(iface.name.name@) ==> {
                &&& final(self).interfaces@[iface.name.name@].types@ == iface_type_names(
                    iface.items@,
                    iface.items@.len() as int,
                )
                &&& final(self).interfaces@[iface.name.name@].functions@ == iface_func_names(
                    iface.items@,
                    iface.items@.len() as int,
                )
            },
            forall|n: Seq<char>|
                n != iface.name.name@ && #[trigger] old(self).interfaces@.contains_key(n)
                    ==> final(self).interfaces@[n] == old(self).interfaces@[n],
    {
        let name = &iface.name.name;
        let name_chars = chars_of(name.as_str());
        if self.interfaces.contains(name_chars.as_slice()) {
            let mut m: Vec<char> = Vec::new();
            push_str(&mut m, "Duplicate interface definition: ");
            push_string(&mut m, name);
            push_diag(&mut self.scope, m, iface.span, DiagnosticCode::DuplicateDefinition);
            return;
        }
        let mut info = InterfaceInfo::new(name.clone(), iface.span);
        let items = &iface.items;
        let mut k: usize = 0;
        while k < items.len()
            invariant
                k <= items@.len(),
                self.wf(),
                info.wf(),
                collect_frame(*old(self), *self),
                self.worlds == old(self).worlds,
                self.interfaces == old(self).interfaces,
                !self.interfaces@.contains_key(name@),
                self.imported_interface_bindings == old(self).imported_interface_bindings,
                self.ckeys() == collect_iface_items_spec(items@, k as int, name@, old(self).ckeys()),
                info.types@ == iface_type_names(items@, k as int),
                info.functions@ == iface_func_names(items@, k as int),
                info.span == iface.span,
                info.function_returns@ == returns_map(items@, k as int),
                list_views(info.function_params@) == params_map(items@, k as int),
                list_views(info.function_param_types@) == param_types_map(items@, k as int),
                constraint_lists(info.function_constraints@) == iface_constraints(
                    items@,
                    k as int,
                    name@,
                    old(self).ckeys(),
                    d,
                ),
                info.return_constraints@ == Map::<Seq<char>, ParamConstraint>::empty(),
                self.holds(iface_items_defs(items@, k as int, name@, old(self).ckeys(), d)),
                iface_items_defs(items@, k as int, name@, old(self).ckeys(), d).interfaces == d.interfaces,
                iface_items_defs(items@, k as int, name@, old(self).ckeys(), d).worlds == d.worlds,
            decreases items@.len() - k,
        {
            match &items[k] {
                InterfaceItem::TypeDef(td) => {
                    let n = self.collect_typedef(
                        td,
                        Some(name.as_str()),
                        Ghost(iface_items_defs(items@, k as int, name@, old(self).ckeys(), d)),
                    );
                    info.types.push(n);
                },
                InterfaceItem::Func(f) => {
                    let ghost dk = iface_items_defs(items@, k as int, name@, old(self).ckeys(), d);
                    assert(table_follows(self.types@, dk.types));
                    self.record_func(f, name.as_str(), &mut info, Ghost(dk.types));
                },
                InterfaceItem::Use(_) => {},
            }
            k = k + 1;
        }
        let ghost d1 = iface_items_defs(items@, items@.len() as int, name@, old(self).ckeys(), d);
        assert(table_follows(self.types@, d1.types));
        self.record_return_constraints(items, name.as_str(), &mut info, Ghost(d1.types));
        let funcs = project_funcs(items);
        assert(funcs_ok(funcs@, info.function_constraints@, info.function_params@));
        info.inherited_constraints = compute_inherited_constraints(
            &funcs,
            &info.function_constraints,
            &info.function_params,
        );
        assert(inherits_as_found(info, items@));
        let ghost before = self.interfaces@;
        self.interfaces.insert(name.clone(), info);
        assert(self.interfaces@.dom() =~= before.dom().insert(name@));
        proof {
            let d2 = interface_defs(*iface, old(self).ckeys(), d);
            assert forall|n: Seq<char>| #[trigger] d2.interfaces.contains_key(n) implies {
                &&& self.interfaces@.contains_key(n)
                &&& self.interfaces@[n].types@ == iface_type_names(d2.interfaces[n].items@, d2.interfaces[n].items@.len() as int)
                &&& self.interfaces@[n].functions@ == iface_func_names(d2.interfaces[n].items@, d2.interfaces[n].items@.len() as int)
                &&& self.interfaces@[n].span == d2.interfaces[n].span
                &&& constraint_lists(self.interfaces@[n].function_constraints@) == d2.constraints[n]
                &&& constraint_views(self.interfaces@[n].return_constraints@) == d2.result_constraints[n]
                &&& inherits_as_found(self.interfaces@[n], d2.interfaces[n].items@)
            } by {
                if n != name@ {
                    assert(d1.interfaces.contains_key(n));
                }
            }
        }
    }

    /// Collects a world: reports a second world of the same name, or
    /// records its imports and exports, its type definitions and the
    /// interfaces its path imports bring in.
    fn collect_world(&mut self, w: &World, Ghost(d): Ghost<Defs>)
        requires
            old(self).wf(),
            old(self).holds(d),
        ensures
            final(self).holds(world_defs(*w, old(self).ckeys(), d)),
            final(self).wf(),
            collect_frame(*old(self), *final(self)),
            final(self).interfaces == old(self).interfaces,
            final(self).ckeys() == collect_world_spec(*w, old(self).ckeys()),
            !old(self).worlds@.contains_key(w.name.name@) ==> {
                &&& final(self).worlds@[w.name.name@].imports@ == world_import_names(
                    w.items@,
                    w.items@.len() as int,
                )
                &&& final(self).worlds@[w.name.name@].exports@ == world_export_names(
                    w.items@,
                    w.items@.len() as int,
                )
            },
    {
        let name = &w.name.name;
        let name_chars = chars_of(name.as_str());
        if self.worlds.contains(name_chars.as_slice()) {
            let mut m: Vec<char> = Vec::new();
            push_str(&mut m, "Duplicate world definition: ");
            push_string(&mut m, name);
            push_diag(&mut self.scope, m, w.span, DiagnosticCode::DuplicateDefinition);
            return;
        }
        let mut imports: Vec<String> = Vec::new();
        let mut exports: Vec<String> = Vec::new();
        let items = &w.items;
        let mut k: usize = 0;
        while k < items.len()
            invariant
                k <= items@.len(),
                self.wf(),
                collect_frame(*old(self), *self),
                self.worlds == old(self).worlds,
                self.interfaces == old(self).interfaces,
                !self.worlds@.contains_key(name@),
                self.ckeys() == collect_world_items_spec(items@, k as int, old(self).ckeys()),
                imports@ == world_import_names(items@, k as int),
                exports@ == world_export_names(items@, k as int),
                self.holds(world_items_defs(items@, k as int, old(self).ckeys(), d)),
                world_items_defs(items@, k as int, old(self).ckeys(), d).interfaces == d.interfaces,
                world_items_defs(items@, k as int, old(self).ckeys(), d).worlds == d.worlds,
            decreases items@.len() - k,
        {
            match &items[k] {
                WorldItem::Import(ie) => match &ie.kind {
                    ImportExportKind::Path(p) => {
                        imports.push(p.interface.name.clone());
                        set_add_exec(&mut self.imported_interface_bindings, &p.interface.name);
                    },
                    _ => match &ie.name {
                        Some(n) => imports.push(n.name.clone()),
                        None => {},
                    },
                },
                WorldItem::Export(ie) => match &ie.name {
                    Some(n) => exports.push(n.name.clone()),
                    None => {},
                },
                WorldItem::TypeDef(td) => {
                    self.collect_typedef(td, None, Ghost(world_items_defs(items@, k as int, old(self).ckeys(), d)));
                },
                _ => {},
            }
            k = k + 1;
        }
        let ghost before = self.worlds@;
        let ghost d1 = world_items_defs(items@, items@.len() as int, old(self).ckeys(), d);
        self.worlds.insert(name.clone(), WorldInfo { name: name.clone(), span: w.span, imports, exports });
        assert(self.worlds@.dom() =~= before.dom().insert(name@));
        proof {
            let d2 = world_defs(*w, old(self).ckeys(), d);
            assert forall|n: Seq<char>| #[trigger] d2.worlds.contains_key(n) implies {
                &&& self.worlds@.contains_key(n)
                &&& self.worlds@[n].imports@ == world_import_names(d2.worlds[n].items@, d2.worlds[n].items@.len() as int)
                &&& self.worlds@[n].exports@ == world_export_names(d2.worlds[n].items@, d2.worlds[n].items@.len() as int)
                &&& self.worlds@[n].span == d2.worlds[n].span
            } by {
                if n != name@ {
                    assert(d1.worlds.contains_key(n));
                }
            }
        }
    }

    /// Records a built-in type under `name` unless the file defines one.
    fn add_builtin(&mut self, name: &str, kind: TypeKind, Ghost(d): Ghost<Defs>)
        requires
            old(self).wf(),
            old(self).holds(d),
            kind_wf(kind),
            builtin_key(name@),
            builtin_kind(name@, kind),
        ensures
            final(self).holds(d),
            final(self).wf(),
            collect_frame(*old(self), *final(self)),
            final(self).interfaces == old(self).interfaces,
            final(self).worlds == old(self).worlds,
            final(self).imported_interface_bindings == old(self).imported_interface_bindings,
            final(self).scope == old(self).scope,
            final(self).types@.dom() == old(self).types@.dom().insert((None, name@)),
    {
        if self.types.get(None, name).is_none() {
            let info = TypeInfo {
                name: string_of(chars_of(name).as_slice()),
                kind,
                span: Span { start: 0, end: 0 },
                interface: None,
            };
            assert(kind_wf(info.kind));
            assert(builtin_kind(name@, info.kind));
            self.types.insert_new(info);
            assert(crate::types::type_key(info) == (None::<Seq<char>>, name@));
        }
        assert(self.types@.dom() =~= old(self).types@.dom().insert((None, name@)));
    }

    /// Collects a file's interfaces and worlds, then records each built-in
    /// type the file does not define itself.
    pub fn collect_definitions(&mut self, file: &WitFile, Ghost(d): Ghost<Defs>)
        requires
            old(self).wf(),
            old(self).holds(d),
            file_inherit_ok(file.items@),
        ensures
            final(self).holds(items_defs(file.items@, file.items@.len() as int, old(self).ckeys(), d)),
            final(self).wf(),
            collect_frame(*old(self), *final(self)),
            final(self).ckeys() == collect_definitions_spec(file.items@, old(self).ckeys()),
    {
        let items = &file.items;
        let mut k: usize = 0;
        while k < items.len()
            invariant
                k <= items@.len(),
                self.wf(),
                file_inherit_ok(items@),
                collect_frame(*old(self), *self),
                self.ckeys() == collect_items_spec(items@, k as int, old(self).ckeys()),
                self.holds(items_defs(items@, k as int, old(self).ckeys(), d)),
            decreases items@.len() - k,
        {
            let ghost dk = items_defs(items@, k as int, old(self).ckeys(), d);
            match &items[k] {
                TopLevelItem::Interface(i) => {
                    assert(inherit_ok(items@[k as int]->Interface_0.items@));
                    self.collect_interface(i, Ghost(dk));
                },
                TopLevelItem::World(w) => self.collect_world(w, Ghost(dk)),
                _ => {},
            }
            k = k + 1;
        }
        let ghost c1 = self.ckeys();
        let ghost dd = items_defs(items@, items@.len() as int, old(self).ckeys(), d);
        proof {
            reveal_strlit("result");
            reveal_strlit("bool");
            reveal_strlit("s8");
            reveal_strlit("s16");
            reveal_strlit("s32");
            reveal_strlit("s64");
            reveal_strlit("u8");
            reveal_strlit("u16");
            reveal_strlit("u32");
            reveal_strlit("u64");
            reveal_strlit("f32");
            reveal_strlit("f64");
            reveal_strlit("char");
            reveal_strlit("string");
            reveal_strlit("list");
            reveal_strlit("option");
            assert("result"@.len() == 6 && "result"@[0] == 'r');
            assert("string"@[0] == 's' && "option"@[0] == 'o');
            assert("bool"@.len() == 4 && "char"@.len() == 4 && "list"@.len() == 4);
            assert("s8"@.len() == 2 && "u8"@.len() == 2);
            assert("s16"@.len() == 3 && "s32"@.len() == 3 && "s64"@.len() == 3);
            assert("u16"@.len() == 3 && "u32"@.len() == 3 && "u64"@.len() == 3);
            assert("f32"@.len() == 3 && "f64"@.len() == 3);
        }
        self.add_builtin("bool", TypeKind::Primitive, Ghost(dd));
        self.add_builtin("s8", TypeKind::Primitive, Ghost(dd));
        self.add_builtin("s16", TypeKind::Primitive, Ghost(dd));
        self.add_builtin("s32", TypeKind::Primitive, Ghost(dd));
        self.add_builtin("s64", TypeKind::Primitive, Ghost(dd));
        self.add_builtin("u8", TypeKind::Primitive, Ghost(dd));
        self.add_builtin("u16", TypeKind::Primitive, Ghost(dd));
        self.add_builtin("u32", TypeKind::Primitive, Ghost(dd));
        self.add_builtin("u64", TypeKind::Primitive, Ghost(dd));
        self.add_builtin("f32", TypeKind::Primitive, Ghost(dd));
        self.add_builtin("f64", TypeKind::Primitive, Ghost(dd));
        self.add_builtin("char", TypeKind::Primitive, Ghost(dd));
        self.add_builtin("string", TypeKind::Primitive, Ghost(dd));
        self.add_builtin("list", TypeKind::Primitive, Ghost(dd));
        self.add_builtin("option", TypeKind::Primitive, Ghost(dd));
        let mut cases: NameMap<bool> = NameMap::new();
        cases.insert(string_of(chars_of("ok").as_slice()), true);
        cases.insert(string_of(chars_of("err").as_slice()), true);
        self.add_builtin("result", TypeKind::Variant { cases }, Ghost(dd));
        assert(self.types@.dom() =~= c1.types.union(
            Set::new(|k: (Option<Seq<char>>, Seq<char>)| k.0 is None && builtin_key(k.1)),
        ));
    }
}


// ---------------------------------------------------------------------------
// Checking files
// ---------------------------------------------------------------------------

/// Nothing collected and nothing reported yet.
pub open spec fn empty_ckeys() -> CKeys {
    CKeys {
        types: Set::empty(),
        interfaces: Set::empty(),
        worlds: Set::empty(),
        imported: Seq::empty(),
        diags: Seq::empty(),
    }
}

/// The validation state before any item is validated, with `diags`
/// reported so far.
pub open spec fn fresh_vstate(diags: Seq<DiagView>) -> VState {
    VState {
        scope: State {
            locals: Seq::empty(),
            constants: Map::empty(),
            diags,
            loop_depth: 0,
            in_guard_let: false,
            ok: true,
        },
        resolving: Seq::empty(),
        type_params: Seq::empty(),
        in_test: false,
        return_type: None,
        current_interface: None,
    }
}

/// `fx` and `vs` are what validation starts from once the definitions
/// that `ck` and `d` describe are collected: the tables hold exactly the
/// keys collected and what `d` records of each definition, the receiver is
/// named `self`, and only collecting has reported anything.
pub open spec fn collected(ck: CKeys, d: Defs, fx: Fixed, vs: VState) -> bool {
    &&& defs_hold(fx.types, fx.interfaces, fx.worlds, d)
    &&& fx.types.dom() == ck.types
    &&& fx.interfaces.dom() == ck.interfaces
    &&& fx.worlds.dom() == ck.worlds
    &&& fx.imported == ck.imported
    &&& fx.self_key@ == "self"@
    &&& vs == fresh_vstate(ck.diags)
}

/// The definitions a file's collecting records.
pub open spec fn file_defs(items: Seq<TopLevelItem>) -> Defs {
    items_defs(items, items.len() as int, empty_ckeys(), empty_defs())
}

/// The definitions collecting the first `k` files of a package records.
pub open spec fn package_defs(files: Seq<WitFile>, k: int) -> Defs
    decreases k,
{
    if k <= 0 || k > files.len() {
        empty_defs()
    } else {
        items_defs(
            files[k - 1].items@,
            files[k - 1].items@.len() as int,
            package_ckeys(files, k - 1),
            package_defs(files, k - 1),
        )
    }
}

/// What collecting the first `k` files of a package decides.
pub open spec fn package_ckeys(files: Seq<WitFile>, k: int) -> CKeys
    decreases k,
{
    if k <= 0 || k > files.len() {
        empty_ckeys()
    } else {
        collect_definitions_spec(files[k - 1].items@, package_ckeys(files, k - 1))
    }
}

/// The state after validating the first `k` files of a package.
pub open spec fn package_vstate(files: Seq<WitFile>, k: int, vs: VState, fx: Fixed) -> VState
    decreases k,
{
    if k <= 0 || k > files.len() {
        vs
    } else {
        let prev = package_vstate(files, k - 1, vs, fx);
        top_items_spec(files[k - 1].items@, files[k - 1].items@.len() as int, prev, fx)
    }
}

/// Finding inherited constraints stays in the `i64` range in every file.
pub open spec fn package_inherit_ok(files: Seq<WitFile>) -> bool {
    forall|k: int| 0 <= k < files.len() ==> file_inherit_ok(#[trigger] files[k].items@)
}

proof fn lemma_package_ok(files: Seq<WitFile>, k: int, j: int, vs: VState, fx: Fixed)
    requires
        0 <= k <= j <= files.len(),
        package_vstate(files, j, vs, fx).scope.ok,
    ensures
        package_vstate(files, k, vs, fx).scope.ok,
    decreases j - k,
{
    if k < j {
        lemma_top_items_ok(
            files[j - 1].items@,
            files[j - 1].items@.len() as int,
            package_vstate(files, j - 1, vs, fx),
            fx,
        );
        lemma_package_ok(files, k, j - 1, vs, fx);
    }
}

impl Checker {
    /// A checker with nothing collected, no hush comments and no source
    /// line offsets.
    pub fn new() -> (c: Checker)
        ensures
            c.wf(),
            c.ckeys() == empty_ckeys(),
            c.holds(empty_defs()),
            c.vstate() == fresh_vstate(Seq::empty()),
            c.hush_comments@.len() == 0,
            c.source_line_offsets@.len() == 0,
    {
        let c = Checker {
            types: crate::types::TypeTable::new(),
            interfaces: NameMap::new(),
            worlds: NameMap::new(),
            current_interface: None,
            resolving: Vec::new(),
            imported_interface_bindings: Vec::new(),
            type_params: Vec::new(),
            self_key: string_of(chars_of("self").as_slice()),
            hush_comments: Vec::new(),
            in_test_function: false,
            current_return_type: None,
            source_line_offsets: Vec::new(),
            scope: Scope {
                locals: NameMap::new(),
                constants: NameMap::new(),
                diagnostics: Vec::new(),
                loop_depth: 0,
                in_guard_let: false,
            },
        };
        assert(c.types@.dom() =~= Set::empty());
        assert(c.interfaces@.dom() =~= Set::empty());
        assert(c.worlds@.dom() =~= Set::empty());
        assert(diags_of(c.scope.diagnostics@) =~= Seq::empty());
        c
    }

    /// Collects a file's definitions, then validates it.
    fn check_file(&mut self, file: &WitFile)
        requires
            old(self).wf(),
            old(self).ckeys() == empty_ckeys(),
            old(self).holds(empty_defs()),
            old(self).vstate() == fresh_vstate(Seq::empty()),
            file_inherit_ok(file.items@),
            forall|fx: Fixed, vs: VState|
                collected(collect_definitions_spec(file.items@, empty_ckeys()), file_defs(file.items@), fx, vs) && fx.hush
                    == old(self).fixed().hush && fx.offsets == old(self).fixed().offsets
                    ==> #[trigger] top_items_spec(file.items@, file.items@.len() as int, vs, fx).scope.ok,
        ensures
            final(self).wf(),
            final(self).fixed().hush == old(self).fixed().hush,
            final(self).fixed().offsets == old(self).fixed().offsets,
            exists|fx: Fixed, vs: VState|
                collected(collect_definitions_spec(file.items@, empty_ckeys()), file_defs(file.items@), fx, vs) && fx.hush
                    == old(self).fixed().hush && fx.offsets == old(self).fixed().offsets
                    && final(self).vstate() == top_items_spec(file.items@, file.items@.len() as int, vs, fx),
    {
        self.collect_definitions(file, Ghost(empty_defs()));
        let ghost fx = self.fixed();
        let ghost vs = self.vstate();
        assert(collected(collect_definitions_spec(file.items@, empty_ckeys()), file_defs(file.items@), fx, vs));
        self.validate_file(file);
    }
}

/// The diagnostics for a file: its definitions are collected, then each
/// item is validated against them.
pub fn check(file: &WitFile) -> (r: Vec<Diagnostic>)
    requires
        file_inherit_ok(file.items@),
        forall|fx: Fixed, vs: VState|
            collected(collect_definitions_spec(file.items@, empty_ckeys()), file_defs(file.items@), fx, vs) && fx.hush.len() == 0
                && fx.offsets.len() == 0
                ==> #[trigger] top_items_spec(file.items@, file.items@.len() as int, vs, fx).scope.ok,
    ensures
        exists|fx: Fixed, vs: VState|
            collected(collect_definitions_spec(file.items@, empty_ckeys()), file_defs(file.items@), fx, vs) && fx.hush.len() == 0
                && fx.offsets.len() == 0 && diags_of(r@) == top_items_spec(
                file.items@,
                file.items@.len() as int,
                vs,
                fx,
            ).scope.diags,
{
    let mut c = Checker::new();
    assert(c.fixed().hush =~= Seq::empty());
    assert(c.fixed().offsets =~= Seq::empty());
    c.check_file(file);
    c.scope.diagnostics
}

/// The tables validation reads from a source: its hush comments and, where
/// it has any, the byte offsets at which its lines start (only hush
/// comments look at line positions).
pub open spec fn source_tables(fx: Fixed, source: Seq<char>) -> bool {
    &&& fx.hush == hush_list(lines(source))
    &&& if fx.hush.len() == 0 {
        fx.offsets.len() == 0
    } else {
        &&& fx.offsets.len() == lines(source).len()
        &&& forall|k: int| 0 <= k < fx.offsets.len() ==> fx.offsets[k] as int == line_offsets(lines(source))[k]
    }
}

/// The diagnostics for a file, with the hush comments and line offsets of
/// its source taken into account.
pub fn check_with_source(file: &WitFile, source: &str) -> (r: Vec<Diagnostic>)
    requires
        utf8_len(source@) < usize::MAX,
        file_inherit_ok(file.items@),
        forall|fx: Fixed, vs: VState|
            collected(collect_definitions_spec(file.items@, empty_ckeys()), file_defs(file.items@), fx, vs)
                && source_tables(fx, source@)
                ==> #[trigger] top_items_spec(file.items@, file.items@.len() as int, vs, fx).scope.ok,
    ensures
        exists|fx: Fixed, vs: VState|
            collected(collect_definitions_spec(file.items@, empty_ckeys()), file_defs(file.items@), fx, vs)
                && source_tables(fx, source@)
                && diags_of(r@) == top_items_spec(file.items@, file.items@.len() as int, vs, fx).scope.diags,
{
    let mut c = Checker::new();
    c.hush_comments = extract_hush_comments(source);
    if c.hush_comments.len() > 0 {
        c.source_line_offsets = compute_line_offsets(source);
        proof {
            if c.source_line_offsets@.len() > 0 {
                assert(lines(source@).take(0) =~= Seq::<Seq<char>>::empty());
            }
        }
    }
    c.check_file(file);
    c.scope.diagnostics
}

/// The diagnostics for the files of a package: the definitions of every
/// file are collected first, then every file is validated against all of
/// them.
pub fn check_package(files: &[WitFile]) -> (r: Vec<Diagnostic>)
    requires
        package_inherit_ok(files@),
        forall|fx: Fixed, vs: VState|
            collected(package_ckeys(files@, files@.len() as int), package_defs(files@, files@.len() as int), fx, vs) && fx.hush.len() == 0
                && fx.offsets.len() == 0
                ==> #[trigger] package_vstate(files@, files@.len() as int, vs, fx).scope.ok,
    ensures
        exists|fx: Fixed, vs: VState|
            collected(package_ckeys(files@, files@.len() as int), package_defs(files@, files@.len() as int), fx, vs) && fx.hush.len() == 0
                && fx.offsets.len() == 0 && diags_of(r@) == package_vstate(
                files@,
                files@.len() as int,
                vs,
                fx,
            ).scope.diags,
        files@.len() == 0 ==> r@.len() == 0,
{
    let mut c = Checker::new();
    let n = files.len();
    let mut k: usize = 0;
    while k < n
        invariant
            n == files@.len(),
            k <= n,
            c.wf(),
            package_inherit_ok(files@),
            c.ckeys() == package_ckeys(files@, k as int),
            c.holds(package_defs(files@, k as int)),
            c.vstate() == fresh_vstate(package_ckeys(files@, k as int).diags),
            c.hush_comments@.len() == 0,
            c.source_line_offsets@.len() == 0,
        decreases n - k,
    {
        assert(file_inherit_ok(files@[k as int].items@));
        c.collect_definitions(&files[k], Ghost(package_defs(files@, k as int)));
        k = k + 1;
    }
    let ghost fx = c.fixed();
    let ghost vs = c.vstate();
    assert(collected(package_ckeys(files@, n as int), package_defs(files@, n as int), fx, vs));
    assert(fx.hush.len() == 0 && fx.offsets.len() == 0);
    assert(package_vstate(files@, n as int, vs, fx).scope.ok);
    let mut k: usize = 0;
    while k < n
        invariant
            n == files@.len(),
            k <= n,
            c.wf(),
            c.fixed() == fx,
            c.vstate() == package_vstate(files@, k as int, vs, fx),
            package_vstate(files@, n as int, vs, fx).scope.ok,
        decreases n - k,
    {
        proof {
            lemma_package_ok(files@, k + 1, n as int, vs, fx);
        }
        c.validate_file(&files[k]);
        k = k + 1;
    }
    c.scope.diagnostics
}


// ---------------------------------------------------------------------------
// Forward references
// ---------------------------------------------------------------------------

proof fn lemma_typedef_grows(td: TypeDef, iface: Option<Seq<char>>, ck: CKeys)
    ensures
        ck.types.subset_of(collect_typedef_spec(td, iface, ck).types),
        collect_typedef_spec(td, iface, ck).types.contains((iface, typedef_name_of(td.kind)@)),
{
}

proof fn lemma_iface_items_grow(items: Seq<InterfaceItem>, k: int, name: Seq<char>, ck: CKeys)
    requires
        k <= items.len(),
    ensures
        ck.types.subset_of(collect_iface_items_spec(items, k, name, ck).types),
        forall|j: int|
            0 <= j < k && j < items.len() && (#[trigger] items[j]) is TypeDef ==> collect_iface_items_spec(
                items,
                k,
                name,
                ck,
            ).types.contains((Some(name), typedef_name_of(items[j]->TypeDef_0.kind)@)),
    decreases k,
{
    if k > 0 {
        lemma_iface_items_grow(items, k - 1, name, ck);
        let prev = collect_iface_items_spec(items, k - 1, name, ck);
        let cur = collect_iface_items_spec(items, k, name, ck);
        match items[k - 1] {
            InterfaceItem::TypeDef(td) => lemma_typedef_grows(td, Some(name), prev),
            _ => {},
        }
        assert forall|j: int|
            0 <= j < k && j < items.len() && (#[trigger] items[j]) is TypeDef implies cur.types.contains(
                (Some(name), typedef_name_of(items[j]->TypeDef_0.kind)@),
            ) by {
            if j < k - 1 {
                assert(prev.types.contains((Some(name), typedef_name_of(items[j]->TypeDef_0.kind)@)));
            }
        }
    }
}

proof fn lemma_world_items_grow(items: Seq<WorldItem>, k: int, ck: CKeys)
    ensures
        ck.types.subset_of(collect_world_items_spec(items, k, ck).types),
    decreases k,
{
    if k > 0 && k <= items.len() {
        lemma_world_items_grow(items, k - 1, ck);
        let prev = collect_world_items_spec(items, k - 1, ck);
        match items[k - 1] {
            WorldItem::TypeDef(td) => lemma_typedef_grows(td, None, prev),
            _ => {},
        }
    }
}

proof fn lemma_items_grow(items: Seq<TopLevelItem>, a: int, b: int, ck: CKeys)
    requires
        0 <= a <= b <= items.len(),
    ensures
        collect_items_spec(items, a, ck).types.subset_of(collect_items_spec(items, b, ck).types),
    decreases b - a,
{
    if a < b {
        lemma_items_grow(items, a, b - 1, ck);
        let prev = collect_items_spec(items, b - 1, ck);
        match items[b - 1] {
            TopLevelItem::Interface(i) => {
                lemma_iface_items_grow(i.items@, i.items@.len() as int, i.name.name@, prev);
            },
            TopLevelItem::World(w) => {
                lemma_world_items_grow(w.items@, w.items@.len() as int, prev);
            },
            _ => {},
        }
    }
}

/// Forward references: every type that an interface of the file defines is
/// known before any item is validated, whether the items that name it stand
/// before or after it — unless an earlier interface of the same name was
/// collected, in which case this one is reported as a duplicate.
pub proof fn forward_types_collected(items: Seq<TopLevelItem>, i: int, j: int)
    requires
        0 <= i < items.len(),
        items[i] is Interface,
        0 <= j < items[i]->Interface_0.items@.len(),
        items[i]->Interface_0.items@[j] is TypeDef,
        !collect_items_spec(items, i, empty_ckeys()).interfaces.contains(items[i]->Interface_0.name.name@),
    ensures
        collect_definitions_spec(items, empty_ckeys()).types.contains(
            (
                Some(items[i]->Interface_0.name.name@),
                typedef_name_of(items[i]->Interface_0.items@[j]->TypeDef_0.kind)@,
            ),
        ),
{
    let iface = items[i]->Interface_0;
    let prev = collect_items_spec(items, i, empty_ckeys());
    lemma_iface_items_grow(iface.items@, iface.items@.len() as int, iface.name.name@, prev);
    assert(iface.items@[j] is TypeDef);
    lemma_items_grow(items, i + 1, items.len() as int, empty_ckeys());
}


/// A package of one file is checked as that file alone is: the same
/// definitions are collected and the same validation runs over them.
pub proof fn single_file_package(f: WitFile, vs: VState, fx: Fixed)
    ensures
        package_ckeys(seq![f], 1) == collect_definitions_spec(f.items@, empty_ckeys()),
        package_vstate(seq![f], 1, vs, fx) == top_items_spec(f.items@, f.items@.len() as int, vs, fx),
{
    assert(package_ckeys(seq![f], 0) == empty_ckeys());
    assert(package_vstate(seq![f], 0, vs, fx) == vs);
}

/// `check_package` on a package of one file is held to exactly the
/// contract of `check` on that file: it accepts the file on the same
/// condition, collects into tables of the same description, and reports
/// the diagnostics of the same validation over them.
pub proof fn one_file_package_checks_as_file(f: WitFile, vs: VState, fx: Fixed)
    ensures
        package_inherit_ok(seq![f]) == file_inherit_ok(f.items@),
        collected(package_ckeys(seq![f], 1), package_defs(seq![f], 1), fx, vs) == collected(
            collect_definitions_spec(f.items@, empty_ckeys()),
            file_defs(f.items@),
            fx,
            vs,
        ),
        package_vstate(seq![f], 1, vs, fx) == top_items_spec(f.items@, f.items@.len() as int, vs, fx),
{
    single_file_package(f, vs, fx);
    assert(package_defs(seq![f], 0) == empty_defs());
    assert(package_defs(seq![f], 1) == file_defs(f.items@));
    if file_inherit_ok(f.items@) {
        assert forall|k: int| 0 <= k < seq![f].len() implies file_inherit_ok(#[trigger] seq![f][k].items@) by {
            assert(seq![f][k] == f);
        }
    }
    if package_inherit_ok(seq![f]) {
        assert(file_inherit_ok(seq![f][0].items@));
    }
}

/// `check_with_source` on a source without hush comments is held to
/// exactly the contract of `check`: the same tables (no hush comments and
/// no line positions), the same validation, the same diagnostics.
pub proof fn unhushed_source_checks_as_file(source: Seq<char>, fx: Fixed)
    requires
        hush_list(lines(source)).len() == 0,
    ensures
        source_tables(fx, source) == (fx.hush.len() == 0 && fx.offsets.len() == 0),
{
    if fx.hush.len() == 0 {
        assert(fx.hush =~= hush_list(lines(source)));
    }
}

} // verus!
