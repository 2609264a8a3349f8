//! Structured failure payloads carried in journal events.

use vstd::prelude::*;

verus! {

use vstd::string::StringExecFns;

/// Canonical category for an execution or invocation failure.
///
/// Intentionally coarse-grained: used for policy decisions (retry behaviour)
/// and for observability dimensions.
#[derive(Clone, Copy, Debug, PartialEq, Eq, Structural)]
pub enum ErrorKind {
    /// Runtime trap or host-side execution failure.
    Trap,
    /// Guest or business logic returned an application error.
    UserError,
    /// Execution or invocation exceeded the configured time limit.
    Timeout,
    /// Operation was intentionally cancelled.
    Cancelled,
    /// Replay divergence (nondeterminism) was detected.
    Nondeterminism,
    /// Catch-all bucket when no specific category applies.
    Uncategorized,
}

/// Mathematical value of an [`ExecutionError`].
#[verifier::ext_equal]
pub struct ExecErrorV {
    pub kind: ErrorKind,
    pub message: Seq<char>,
    pub detail: Option<Seq<char>>,
}

/// Structured payload for execution failures and invoke retries: a stable
/// shape that is easy to classify (`kind`), render (`message`) and enrich
/// (`detail`).
#[derive(Debug, PartialEq, Eq)]
pub struct ExecutionError {
    /// Coarse failure category used by policy and observability.
    pub kind: ErrorKind,
    /// Human-readable summary safe to display in normal logs and UIs.
    pub message: String,
    /// Optional diagnostic detail for debugging and deep triage.
    pub detail: Option<String>,
}

impl View for ExecutionError {
    type V = ExecErrorV;

    open spec fn view(&self) -> ExecErrorV {
        ExecErrorV {
            kind: self.kind,
            message: self.message@,
            detail: match self.detail {
                Option::Some(d) => Option::Some(d@),
                Option::None => Option::None,
            },
        }
    }
}

impl DeepView for ExecutionError {
    type V = ExecErrorV;

    open spec fn deep_view(&self) -> ExecErrorV {
        self.view()
    }
}

impl Clone for ExecutionError {
    fn clone(&self) -> (r: Self)
        ensures
            r@ == self@,
    {
        ExecutionError {
            kind: self.kind,
            message: self.message.clone(),
            detail: match &self.detail {
                Option::Some(d) => Option::Some(d.clone()),
                Option::None => Option::None,
            },
        }
    }
}

/// The display name of an error kind.
pub open spec fn kind_name(kind: ErrorKind) -> Seq<char> {
    match kind {
        ErrorKind::Trap => "Trap"@,
        ErrorKind::UserError => "UserError"@,
        ErrorKind::Timeout => "Timeout"@,
        ErrorKind::Cancelled => "Cancelled"@,
        ErrorKind::Nondeterminism => "Nondeterminism"@,
        ErrorKind::Uncategorized => "Uncategorized"@,
    }
}

/// Display form of an execution error: `kind: message`, with the detail in
/// parentheses when present.
pub open spec fn exec_error_display(e: ExecErrorV) -> Seq<char> {
    kind_name(e.kind) + ": "@ + e.message + (match e.detail {
        Option::Some(d) => " ("@ + d + ")"@,
        Option::None => Seq::empty(),
    })
}

impl ExecutionError {
    /// Creates an error with required fields only.
    pub fn new(kind: ErrorKind, message: &str) -> (r: Self)
        ensures
            r@ == (ExecErrorV { kind, message: message@, detail: Option::None }),
    {
        Self { kind, message: message.to_owned(), detail: Option::None }
    }

    /// Creates an error with all fields in a single call.
    pub fn new_with_detail(kind: ErrorKind, message: &str, detail: &str) -> (r: Self)
        ensures
            r@ == (ExecErrorV { kind, message: message@, detail: Option::Some(detail@) }),
    {
        Self { kind, message: message.to_owned(), detail: Option::Some(detail.to_owned()) }
    }

    /// Adds or replaces the optional diagnostic detail; the last value wins.
    pub fn with_detail(self, detail: &str) -> (r: Self)
        ensures
            r@ == (ExecErrorV { kind: self@.kind, message: self@.message, detail: Option::Some(detail@) }),
    {
        Self { kind: self.kind, message: self.message, detail: Option::Some(detail.to_owned()) }
    }

    /// Stable display form: `kind: message`, with the detail in parentheses
    /// when present.
    pub fn display_string(&self) -> (r: String)
        ensures
            r@ == exec_error_display(self@),
    {
        let mut out = String::new();
        match self.kind {
            ErrorKind::Trap => out.append("Trap"),
            ErrorKind::UserError => out.append("UserError"),
            ErrorKind::Timeout => out.append("Timeout"),
            ErrorKind::Cancelled => out.append("Cancelled"),
            ErrorKind::Nondeterminism => out.append("Nondeterminism"),
            ErrorKind::Uncategorized => out.append("Uncategorized"),
        }
        out.append(": ");
        out.append(self.message.as_str());
        match &self.detail {
            Option::Some(d) => {
                out.append(" (");
                out.append(d.as_str());
                out.append(")");
            },
            Option::None => {},
        }
        out
    }
}

} // verus!
