use vstd::prelude::*;
use vstd::string::*;

verus! {

/// Every failure the analysis pipeline reports to its caller.
#[derive(Debug)]
pub enum UnifyError {
    Io(String),
    ParseError(String),
    UnsupportedArch(String),
    UnsupportedFormat(String),
    DisasmError(String),
    DebuggerError(String),
    PermissionDenied(String),
    InvalidArgument(String),
    Internal(String),
    NotImplemented(String),
}

impl UnifyError {
    /// The user-facing text of the error: a label for its kind, then its detail.
    pub open spec fn text_spec(&self) -> Seq<char> {
        match self {
            UnifyError::Io(m) => "IO error: "@ + m@,
            UnifyError::ParseError(m) => "Binary parsing error: "@ + m@,
            UnifyError::UnsupportedArch(m) => "Unsupported architecture: "@ + m@,
            UnifyError::UnsupportedFormat(m) => "Unsupported format: "@ + m@,
            UnifyError::DisasmError(m) => "Disassembly error: "@ + m@,
            UnifyError::DebuggerError(m) => "Debugger error: "@ + m@,
            UnifyError::PermissionDenied(m) => "Permission denied: "@ + m@,
            UnifyError::InvalidArgument(m) => "Invalid argument: "@ + m@,
            UnifyError::Internal(m) => "Internal error: "@ + m@,
            UnifyError::NotImplemented(m) => "Feature not implemented: "@ + m@,
        }
    }

    pub fn text(&self) -> (r: String)
        ensures
            r@ == self.text_spec(),
    {
        let (label, m) = match self {
            UnifyError::Io(m) => ("IO error: ", m),
            UnifyError::ParseError(m) => ("Binary parsing error: ", m),
            UnifyError::UnsupportedArch(m) => ("Unsupported architecture: ", m),
            UnifyError::UnsupportedFormat(m) => ("Unsupported format: ", m),
            UnifyError::DisasmError(m) => ("Disassembly error: ", m),
            UnifyError::DebuggerError(m) => ("Debugger error: ", m),
            UnifyError::PermissionDenied(m) => ("Permission denied: ", m),
            UnifyError::InvalidArgument(m) => ("Invalid argument: ", m),
            UnifyError::Internal(m) => ("Internal error: ", m),
            UnifyError::NotImplemented(m) => ("Feature not implemented: ", m),
        };
        let mut r = String::from_str(label);
        r.append(m.as_str());
        r
    }
}

} // verus!
