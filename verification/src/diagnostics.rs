//! Diagnostics reported by the type checker.
use vstd::prelude::*;

verus! {

/// A byte range of the source, `start..end`.
#[derive(Clone, Copy, Debug, PartialEq, Eq)]
pub struct Span {
    pub start: usize,
    pub end: usize,
}

/// How serious a diagnostic is.
#[derive(Clone, Copy, Debug, PartialEq, Eq)]
pub enum Severity {
    Error,
    Warning,
    Info,
}

/// What a diagnostic is about.
#[derive(Clone, Copy, Debug, PartialEq, Eq)]
pub enum DiagnosticCode {
    UnknownType,
    UnknownInterface,
    UnknownResource,
    DuplicateDefinition,
    RecursiveType,
    InvalidUse,
    InvalidImport,
    InvalidExport,
    NestedPackageUnsupported,
    TypeMismatch,
    UnknownVariable,
    InvalidOperator,
    DeprecatedFeature,
    UnstableFeature,
    ConstraintViolation,
    ConstraintPropagation,
}

/// A message about a span of the source.
#[derive(Debug)]
pub struct Diagnostic {
    pub message: String,
    pub span: Span,
    pub severity: Severity,
    pub code: DiagnosticCode,
}

impl Diagnostic {
    /// An error.
    pub fn error(message: String, span: Span, code: DiagnosticCode) -> (d: Self)
        ensures
            d.message == message,
            d.span == span,
            d.severity == Severity::Error,
            d.code == code,
    {
        Diagnostic { message, span, severity: Severity::Error, code }
    }

    /// A warning.
    pub fn warning(message: String, span: Span, code: DiagnosticCode) -> (d: Self)
        ensures
            d.message == message,
            d.span == span,
            d.severity == Severity::Warning,
            d.code == code,
    {
        Diagnostic { message, span, severity: Severity::Warning, code }
    }

    /// An informational note.
    pub fn info(message: String, span: Span, code: DiagnosticCode) -> (d: Self)
        ensures
            d.message == message,
            d.span == span,
            d.severity == Severity::Info,
            d.code == code,
    {
        Diagnostic { message, span, severity: Severity::Info, code }
    }
}

} // verus!
