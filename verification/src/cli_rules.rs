//! The command line's decisions: which tests run, which export runs a test,
//! which diagnostics stop a build, and how results are labelled.
use vstd::prelude::*;
use crate::diagnostics::{Diagnostic, Severity};
use crate::types::{PrimitiveTy, Ty};
use crate::text::{
    chars_of, contains, contains_str, ends_with, has_prefix, has_suffix, push_str, starts_with,
    str_eq, string_of,
};

verus! {

/// A test called `name` runs under the name filter `filter`: with no
/// filter every test runs, else those whose name contains the filter.
pub open spec fn test_selected_spec(name: Seq<char>, filter: Option<Seq<char>>) -> bool {
    match filter {
        None => true,
        Some(f) => contains(name, f),
    }
}

/// Whether the test called `name` runs under `filter`.
pub fn test_selected(name: &str, filter: Option<&str>) -> (b: bool)
    ensures
        b == test_selected_spec(
            name@,
            match filter {
                Some(f) => Some(f@),
                None => None,
            },
        ),
{
    match filter {
        None => true,
        Some(f) => {
            let nc = chars_of(name);
            contains_str(nc.as_slice(), f)
        },
    }
}

/// An export runs the test called `name`: it is called `name`, or its
/// qualified name ends in `#name`.
pub open spec fn export_runs_spec(export: Seq<char>, name: Seq<char>) -> bool {
    export == name || ends_with(export, seq!['#'] + name)
}

/// Whether the export called `export` runs the test called `name`.
pub fn export_runs(export: &str, name: &str) -> (b: bool)
    ensures
        b == export_runs_spec(export@, name@),
{
    if str_eq(export, name) {
        return true;
    }
    let mut suffix: Vec<char> = Vec::new();
    suffix.push('#');
    push_str(&mut suffix, name);
    assert(suffix@ =~= seq!['#'] + name@);
    let ec = chars_of(export);
    let s = string_of(suffix.as_slice());
    has_suffix(ec.as_slice(), s.as_str())
}

/// The first of `exports` that runs the test called `name`.
pub fn find_test_export(exports: &Vec<String>, name: &str) -> (r: Option<usize>)
    ensures
        match r {
            Some(i) => i < exports@.len() && export_runs_spec(exports@[i as int]@, name@) && forall|j: int|
                0 <= j < i ==> !export_runs_spec(#[trigger] exports@[j]@, name@),
            None => forall|j: int|
                0 <= j < exports@.len() ==> !export_runs_spec(#[trigger] exports@[j]@, name@),
        },
{
    let mut i: usize = 0;
    while i < exports.len()
        invariant
            i <= exports@.len(),
            forall|j: int| 0 <= j < i ==> !export_runs_spec(#[trigger] exports@[j]@, name@),
        decreases exports@.len() - i,
    {
        if export_runs(exports[i].as_str(), name) {
            return Some(i);
        }
        i = i + 1;
    }
    None
}

/// An export that is a function of the module, not its memory or the
/// allocator entry points.
pub open spec fn function_export_spec(export: Seq<char>) -> bool {
    export != "memory"@ && export != "cabi_realloc"@ && export != "cabi_arena_reset"@
}

/// Whether the export called `export` is a function of the module.
pub fn is_function_export(export: &str) -> (b: bool)
    ensures
        b == function_export_spec(export@),
{
    !str_eq(export, "memory") && !str_eq(export, "cabi_realloc") && !str_eq(
        export,
        "cabi_arena_reset",
    )
}

/// A diagnostic stops a build: it is an error, unless it reports an
/// unknown variable whose name is an imported interface's alias.
pub open spec fn stops_build_spec(d: Diagnostic, aliases: Seq<Seq<char>>) -> bool {
    let prefix = "Unknown variable: "@;
    d.severity == Severity::Error && !(starts_with(d.message@, prefix) && aliases.contains(
        d.message@.skip(prefix.len() as int),
    ))
}

/// Whether `d` stops a build that imports interfaces under `aliases`.
pub fn stops_build(d: &Diagnostic, aliases: &Vec<String>) -> (b: bool)
    ensures
        b == stops_build_spec(*d, aliases@.map_values(|a: String| a@)),
{
    let is_error = match d.severity {
        Severity::Error => true,
        _ => false,
    };
    if !is_error {
        return false;
    }
    let mc = chars_of(d.message.as_str());
    let prefix = chars_of("Unknown variable: ");
    proof {
        reveal_strlit("Unknown variable: ");
    }
    if !has_prefix(mc.as_slice(), "Unknown variable: ") {
        return true;
    }
    let rest = crate::text::copy_range(mc.as_slice(), prefix.len(), mc.len());
    assert(rest@ =~= d.message@.skip("Unknown variable: "@.len() as int));
    let ghost av = aliases@.map_values(|a: String| a@);
    let mut k: usize = 0;
    while k < aliases.len()
        invariant
            k <= aliases@.len(),
            av == aliases@.map_values(|a: String| a@),
            forall|j: int| 0 <= j < k ==> av[j] != rest@,
            rest@ == d.message@.skip("Unknown variable: "@.len() as int),
            starts_with(d.message@, "Unknown variable: "@),
            d.severity == Severity::Error,
        decreases aliases@.len() - k,
    {
        if crate::text::chars_eq(rest.as_slice(), aliases[k].as_str()) {
            assert(av[k as int] == rest@);
            assert(av.contains(rest@));
            return false;
        }
        k = k + 1;
    }
    assert(!av.contains(rest@)) by {
        if av.contains(rest@) {
            let j = choose|j: int| 0 <= j < av.len() && av[j] == rest@;
        }
    }
    true
}

/// How a diagnostic's severity is printed.
pub open spec fn severity_label_spec(s: Severity) -> Seq<char> {
    match s {
        Severity::Error => "error"@,
        Severity::Warning => "warning"@,
        Severity::Info => "info"@,
    }
}

/// The printed label of a severity.
pub fn severity_label(s: Severity) -> (r: &'static str)
    ensures
        r@ == severity_label_spec(s),
{
    match s {
        Severity::Error => "error",
        Severity::Warning => "warning",
        Severity::Info => "info",
    }
}

/// Why a test cannot run.
#[derive(Clone, Copy, Debug, PartialEq, Eq)]
pub enum TestShapeError {
    /// The test function has no body.
    NoBody,
    /// The test function does not return `bool`.
    MustReturnBool,
}

/// A test function can run when it has a body and its result type is
/// `bool`; a missing body is reported first.
pub open spec fn test_shape_spec(has_body: bool, result: Option<Ty>) -> Option<TestShapeError> {
    if !has_body {
        Some(TestShapeError::NoBody)
    } else if !(result matches Some(Ty::Primitive(PrimitiveTy::Bool))) {
        Some(TestShapeError::MustReturnBool)
    } else {
        None
    }
}

/// Whether a test function can run, and if not, why.
pub fn test_shape(has_body: bool, result: Option<&Ty>) -> (r: Option<TestShapeError>)
    ensures
        r == test_shape_spec(
            has_body,
            match result {
                Some(t) => Some(*t),
                None => None,
            },
        ),
{
    if !has_body {
        return Some(TestShapeError::NoBody);
    }
    match result {
        Some(Ty::Primitive(PrimitiveTy::Bool)) => None,
        _ => Some(TestShapeError::MustReturnBool),
    }
}

/// A test passes when the value its function returns is not zero.
pub fn test_passed(returned: i32) -> (b: bool)
    ensures
        b == (returned != 0),
{
    returned != 0
}

} // verus!
