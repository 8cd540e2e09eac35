//! Error kinds of the evaluation engine, and the messages they carry.
use vstd::prelude::*;
use vstd::string::StringExecFns;

verus! {

/// What went wrong, independent of the wording of the message.
#[derive(Clone, Copy, PartialEq, Eq, Structural, Debug)]
pub enum ErrorKind {
    VariableNotFound,
    LocalReferencedBeforeAssignment,
    CannotImportPrivate,
    CannotSetVariable,
    NotSupported,
    WrongType,
    IndexOutOfRange,
    KeyNotFound,
    DuplicateDictionaryKey,
    DuplicateEnumValue,
    InvalidEnumElement,
    MutationDuringIteration,
    CannotMutateImmutable,
    CannotMutateFrozenEnvironment,
    StackOverflow,
    Cancelled,
    UserFail,
    MissingRequired,
    TooManyPositional,
    DuplicateNamedArgument,
    UnexpectedNamed,
}

/// A region of the source text, by the offsets of its first byte and of the byte after its
/// last.
#[derive(Clone, Copy, PartialEq, Eq, Structural, Debug)]
pub struct Span {
    pub begin: u32,
    pub end: u32,
}

/// A failure of an evaluation: its kind, a message for the user, and the place in the source
/// that it is pinned to, once known.
#[derive(Debug)]
pub struct Error {
    pub kind: ErrorKind,
    pub message: String,
    pub span: Option<Span>,
}

/// Errors raised when resolving or assigning variables.
#[derive(Debug)]
pub enum EnvironmentError {
    /// Raised when trying to change a variable on a frozen environment.
    TryingToMutateFrozenEnvironment,
    /// The variable is not known in any scope.
    VariableNotFound(String),
    /// A local variable was read before it was given a value.
    LocalVariableReferencedBeforeAssignment(String),
    /// An underscore-prefixed symbol cannot be imported.
    CannotImportPrivateSymbol(String),
    /// Variables can only be set in a non-frozen module context.
    CannotSetVariable(String),
}

/// A failure as the evaluator specifies it: its kind, and the place in the source that it
/// is pinned to, once known.
pub struct Fault {
    pub kind: ErrorKind,
    pub span: Option<Span>,
}

/// The failure of the kind `k` that is pinned to no place yet.
pub open spec fn raised(k: ErrorKind) -> Fault {
    Fault { kind: k, span: None }
}

/// The outcome of an operation on values as an outcome of the evaluator: a failure is
/// pinned to no place yet.
pub open spec fn unpinned<T>(r: Result<T, ErrorKind>) -> Result<T, Fault> {
    match r {
        Ok(v) => Ok(v),
        Err(k) => Err(raised(k)),
    }
}

/// The outcome with its failure pinned to `span`, unless it is pinned already.
pub open spec fn pinned<T>(r: Result<T, Fault>, span: Span) -> Result<T, Fault> {
    match r {
        Ok(v) => Ok(v),
        Err(f) => Err(
            Fault {
                kind: f.kind,
                span: Some(
                    match f.span {
                        Some(s) => s,
                        None => span,
                    },
                ),
            },
        ),
    }
}

/// Does the exec result `r` agree with the specified outcome `s` of an operation on
/// values: the same value on success; on failure an error of the same kind, which is
/// pinned to no place yet.
pub open spec fn agrees<T>(r: Result<T, Error>, s: Result<T, ErrorKind>) -> bool {
    match (r, s) {
        (Ok(a), Ok(b)) => a == b,
        (Err(e), Err(k)) => e.kind == k && e.span is None,
        _ => false,
    }
}

/// Does the exec result `r` agree with the specified outcome `s` of the evaluator: the
/// same value on success; on failure an error of the same kind, pinned to the same place.
pub open spec fn faults<T>(r: Result<T, Error>, s: Result<T, Fault>) -> bool {
    match (r, s) {
        (Ok(a), Ok(b)) => a == b,
        (Err(e), Err(f)) => e.kind == f.kind && e.span == f.span,
        _ => false,
    }
}

/// As [`agrees`], for results that are strings: compared by their characters.
pub open spec fn agrees_str(r: Result<String, Error>, s: Result<Seq<char>, ErrorKind>) -> bool {
    match (r, s) {
        (Ok(a), Ok(b)) => a@ == b,
        (Err(e), Err(k)) => e.kind == k && e.span is None,
        _ => false,
    }
}

/// The text `prefix`, then `middle`, then `suffix`.
pub open spec fn framed(prefix: Seq<char>, middle: Seq<char>, suffix: Seq<char>) -> Seq<char> {
    prefix + middle + suffix
}

/// Builds the text `prefix`, then `middle`, then `suffix`.
pub fn frame(prefix: &str, middle: &str, suffix: &str) -> (out: String)
    ensures
        out@ == framed(prefix@, middle@, suffix@),
{
    let mut out = String::from_str(prefix);
    out.append(middle);
    out.append(suffix);
    out
}

impl Error {
    /// An error of the given kind with the given message.
    pub fn new(kind: ErrorKind, message: &str) -> (e: Error)
        ensures
            e.kind == kind,
            e.message@ == message@,
            e.span is None,
    {
        Error { kind, message: String::from_str(message), span: None }
    }

    /// An error raised by the program itself, or by a built-in on bad input.
    pub fn fail(message: String) -> (e: Error)
        ensures
            e.kind == ErrorKind::UserFail,
            e.message == message,
            e.span is None,
    {
        Error { kind: ErrorKind::UserFail, message, span: None }
    }

    /// The error for an operation that a type does not implement.
    pub fn not_supported(operation: &str, typ: &str) -> (e: Error)
        ensures
            e.kind == ErrorKind::NotSupported,
            e.message@ == framed(
                framed("Operation `"@, operation@, "` not supported on type `"@),
                typ@,
                "`"@,
            ),
            e.span is None,
    {
        let head = frame("Operation `", operation, "` not supported on type `");
        Error {
            kind: ErrorKind::NotSupported,
            message: frame(head.as_str(), typ, "`"),
            span: None,
        }
    }

    /// Wraps an environment error, keeping its message.
    pub fn from_environment(e: EnvironmentError) -> (r: Error)
        ensures
            r.kind == e.kind(),
            r.message@ == e.message_text(),
            r.span is None,
    {
        let message = e.message();
        let kind = e.to_kind();
        Error { kind, message, span: None }
    }

    /// An error of the given kind with an owned message.
    pub fn with_message(kind: ErrorKind, message: String) -> (e: Error)
        ensures
            e.kind == kind,
            e.message == message,
            e.span is None,
    {
        Error { kind, message, span: None }
    }

    /// This error, pinned to `span` unless it is pinned already.
    pub fn at(self, span: Span) -> (e: Error)
        ensures
            e.kind == self.kind,
            e.message == self.message,
            e.span == (match self.span {
                Some(s) => Some(s),
                None => Some(span),
            }),
    {
        match self.span {
            Some(_) => self,
            None => Error { kind: self.kind, message: self.message, span: Some(span) },
        }
    }

    /// The message, as shown to the user.
    pub fn to_string(&self) -> (s: String)
        ensures
            s@ == self.message@,
    {
        self.message.clone()
    }
}

impl EnvironmentError {
    /// The kind of error this is.
    pub open spec fn kind(self) -> ErrorKind {
        match self {
            EnvironmentError::TryingToMutateFrozenEnvironment => ErrorKind::CannotMutateFrozenEnvironment,
            EnvironmentError::VariableNotFound(_) => ErrorKind::VariableNotFound,
            EnvironmentError::LocalVariableReferencedBeforeAssignment(_) => ErrorKind::LocalReferencedBeforeAssignment,
            EnvironmentError::CannotImportPrivateSymbol(_) => ErrorKind::CannotImportPrivate,
            EnvironmentError::CannotSetVariable(_) => ErrorKind::CannotSetVariable,
        }
    }

    /// The message of this error.
    pub open spec fn message_text(self) -> Seq<char> {
        match self {
            EnvironmentError::TryingToMutateFrozenEnvironment => "Cannot mutate a frozen environment"@,
            EnvironmentError::VariableNotFound(n) => framed("Variable `"@, n@, "` not found"@),
            EnvironmentError::LocalVariableReferencedBeforeAssignment(n) => framed(
                "Local variable `"@,
                n@,
                "` referenced before assignment"@,
            ),
            EnvironmentError::CannotImportPrivateSymbol(n) => framed(
                "Cannot import private symbol `"@,
                n@,
                "`"@,
            ),
            EnvironmentError::CannotSetVariable(n) => framed(
                "Cannot set variable `"@,
                n@,
                "` at this point, must be in a non-frozen module context"@,
            ),
        }
    }

    pub fn to_kind(&self) -> (k: ErrorKind)
        ensures
            k == self.kind(),
    {
        match self {
            EnvironmentError::TryingToMutateFrozenEnvironment => ErrorKind::CannotMutateFrozenEnvironment,
            EnvironmentError::VariableNotFound(_) => ErrorKind::VariableNotFound,
            EnvironmentError::LocalVariableReferencedBeforeAssignment(_) => ErrorKind::LocalReferencedBeforeAssignment,
            EnvironmentError::CannotImportPrivateSymbol(_) => ErrorKind::CannotImportPrivate,
            EnvironmentError::CannotSetVariable(_) => ErrorKind::CannotSetVariable,
        }
    }

    pub fn message(&self) -> (s: String)
        ensures
            s@ == self.message_text(),
    {
        match self {
            EnvironmentError::TryingToMutateFrozenEnvironment => String::from_str(
                "Cannot mutate a frozen environment",
            ),
            EnvironmentError::VariableNotFound(n) => frame("Variable `", n.as_str(), "` not found"),
            EnvironmentError::LocalVariableReferencedBeforeAssignment(n) => frame(
                "Local variable `",
                n.as_str(),
                "` referenced before assignment",
            ),
            EnvironmentError::CannotImportPrivateSymbol(n) => frame(
                "Cannot import private symbol `",
                n.as_str(),
                "`",
            ),
            EnvironmentError::CannotSetVariable(n) => frame(
                "Cannot set variable `",
                n.as_str(),
                "` at this point, must be in a non-frozen module context",
            ),
        }
    }
}

} // verus!
