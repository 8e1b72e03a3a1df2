//! What the checker records of each interface and world, and the check of a
//! call against what the current interface records of the called function.
use vstd::prelude::*;
use crate::call_check::{
    call_diagnostics, call_evaluable, check_call_constraints, diag_view, inherited_diagnostics,
    inherited_evaluable, param_map, DiagView, InheritedConstraint,
};
use crate::constraints::{string_views, Expr, ParamConstraint};
use crate::diagnostics::{Diagnostic, Span};
use crate::hush::{hush_views, HushComment};
use crate::name_map::NameMap;
use crate::text::chars_of;
use crate::types::{CheckedType, Id};

verus! {

/// An interface: its types and functions, and per function its return
/// type, parameter names, parameter constraints, parameter type names, the
/// constraints it inherits from its callees and the constraint on its
/// result.
pub struct InterfaceInfo {
    pub name: String,
    pub span: Span,
    pub types: Vec<String>,
    pub functions: Vec<String>,
    pub function_returns: NameMap<CheckedType>,
    pub function_params: NameMap<Vec<String>>,
    pub function_constraints: NameMap<Vec<ParamConstraint>>,
    pub function_param_types: NameMap<Vec<String>>,
    pub inherited_constraints: NameMap<Vec<InheritedConstraint>>,
    pub return_constraints: NameMap<ParamConstraint>,
}

/// A world: its imports and exports.
pub struct WorldInfo {
    pub name: String,
    pub span: Span,
    pub imports: Vec<String>,
    pub exports: Vec<String>,
}

impl InterfaceInfo {
    /// No function name occurs twice in any of the per-function tables.
    pub open spec fn wf(&self) -> bool {
        &&& self.function_returns.wf()
        &&& self.function_params.wf()
        &&& self.function_constraints.wf()
        &&& self.function_param_types.wf()
        &&& self.inherited_constraints.wf()
        &&& self.return_constraints.wf()
    }

    /// An interface with nothing recorded yet.
    pub fn new(name: String, span: Span) -> (r: Self)
        ensures
            r.wf(),
            r.name@ == name@,
            r.span == span,
            r.types@.len() == 0,
            r.functions@.len() == 0,
            r.function_returns@ == Map::<Seq<char>, CheckedType>::empty(),
            r.function_params@ == Map::<Seq<char>, Vec<String>>::empty(),
            r.function_constraints@ == Map::<Seq<char>, Vec<ParamConstraint>>::empty(),
            r.function_param_types@ == Map::<Seq<char>, Vec<String>>::empty(),
            r.inherited_constraints@ == Map::<Seq<char>, Vec<InheritedConstraint>>::empty(),
            r.return_constraints@ == Map::<Seq<char>, ParamConstraint>::empty(),
    {
        InterfaceInfo {
            name,
            span,
            types: Vec::new(),
            functions: Vec::new(),
            function_returns: NameMap::new(),
            function_params: NameMap::new(),
            function_constraints: NameMap::new(),
            function_param_types: NameMap::new(),
            inherited_constraints: NameMap::new(),
            return_constraints: NameMap::new(),
        }
    }
}

/// What a table records under `name`, or nothing.
pub open spec fn listed<T>(m: Map<Seq<char>, Vec<T>>, name: Seq<char>) -> Seq<T> {
    if m.contains_key(name) {
        m[name]@
    } else {
        Seq::empty()
    }
}

/// The diagnostics of a call of `func` with `args` at `span`, checked
/// against what `iface` records of `func`: its direct constraints, then the
/// ones it inherits. Nothing is checked inside a guard, or outside an
/// interface.
pub open spec fn interface_call_diagnostics(
    in_guard_let: bool,
    iface: Option<InterfaceInfo>,
    func: Seq<char>,
    args: Seq<Expr>,
    span: Span,
    consts: Map<Seq<char>, i64>,
    locals: Seq<String>,
    in_test: bool,
    hush: Seq<(int, int, Seq<char>)>,
    offsets: Seq<usize>,
) -> Seq<DiagView> {
    match iface {
        Some(i) => if in_guard_let {
            Seq::empty()
        } else {
            let ps = string_views(listed(i.function_params@, func));
            call_diagnostics(
                func,
                ps,
                listed(i.function_constraints@, func),
                args,
                span,
                consts,
                locals,
                in_test,
                hush,
                offsets,
            ) + inherited_diagnostics(
                listed(i.inherited_constraints@, func),
                param_map(ps, args.len() as int),
                args,
                span,
                consts,
                locals,
                in_test,
                hush,
                offsets,
            )
        },
        None => Seq::empty(),
    }
}

/// The evaluations that checking the call makes stay in the `i64` range.
pub open spec fn interface_call_evaluable(
    i: InterfaceInfo,
    func: Seq<char>,
    args: Seq<Expr>,
    consts: Map<Seq<char>, i64>,
) -> bool {
    let ps = string_views(listed(i.function_params@, func));
    let inh = listed(i.inherited_constraints@, func);
    &&& call_evaluable(ps, listed(i.function_constraints@, func), args, consts)
    &&& forall|j: int|
        0 <= j < inh.len() ==> inherited_evaluable(
            #[trigger] inh[j],
            param_map(ps, args.len() as int),
            args,
            consts,
        )
}

/// Checks a call of `func` with `args` at `span` against the constraints
/// that the current interface records for `func`, given whether the call
/// stands in a guard, the constants and locals in scope, whether it stands
/// in a test, and the source's hush comments and line offsets.
pub fn check_call_in_interface(
    in_guard_let: bool,
    iface: Option<&InterfaceInfo>,
    func: &Id,
    args: &[Expr],
    span: Span,
    constants: &NameMap<i64>,
    locals: &Vec<String>,
    in_test: bool,
    hush: &[HushComment],
    line_offsets: &[usize],
) -> (r: Vec<Diagnostic>)
    requires
        constants.wf(),
        iface matches Some(i) ==> i.wf() && (!in_guard_let ==> interface_call_evaluable(
            *i,
            func.name@,
            args@,
            constants@,
        ) && span.end < usize::MAX),
        line_offsets@.len() > 0 ==> line_offsets@[0] == 0,
    ensures
        r@.map_values(|d: Diagnostic| diag_view(d)) == interface_call_diagnostics(
            in_guard_let,
            match iface {
                Some(i) => Some(*i),
                None => None,
            },
            func.name@,
            args@,
            span,
            constants@,
            locals@,
            in_test,
            hush_views(hush@),
            line_offsets@,
        ),
{
    if in_guard_let {
        let r: Vec<Diagnostic> = Vec::new();
        assert(r@.map_values(|d: Diagnostic| diag_view(d)) =~= Seq::<DiagView>::empty());
        return r;
    }
    match iface {
        Some(i) => {
            let key = chars_of(func.name.as_str());
            let no_params: Vec<String> = Vec::new();
            let no_constraints: Vec<ParamConstraint> = Vec::new();
            let no_inherited: Vec<InheritedConstraint> = Vec::new();
            let params: &Vec<String> = match i.function_params.get(key.as_slice()) {
                Some(p) => p,
                None => &no_params,
            };
            let constraints: &Vec<ParamConstraint> = match i.function_constraints.get(
                key.as_slice(),
            ) {
                Some(c) => c,
                None => &no_constraints,
            };
            let inherited: &Vec<InheritedConstraint> = match i.inherited_constraints.get(
                key.as_slice(),
            ) {
                Some(c) => c,
                None => &no_inherited,
            };
            assert(params@ == listed(i.function_params@, func.name@));
            assert(constraints@ == listed(i.function_constraints@, func.name@));
            assert(inherited@ == listed(i.inherited_constraints@, func.name@));
            check_call_constraints(
                func.name.as_str(),
                params,
                constraints,
                inherited,
                args,
                span,
                constants,
                locals,
                in_test,
                hush,
                line_offsets,
            )
        },
        None => {
            let r: Vec<Diagnostic> = Vec::new();
            assert(r@.map_values(|d: Diagnostic| diag_view(d)) =~= Seq::<DiagView>::empty());
            r
        },
    }
}

} // verus!
