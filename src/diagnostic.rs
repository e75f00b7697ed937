use vstd::prelude::*;

verus! {

/// The four ways a generation can fail.
#[derive(Clone, Copy, Debug, PartialEq, Eq, Structural)]
pub enum ErrorKind {
    /// The declaration does not have the shape `VIS? const NAME: TYPE = "SPEC";`.
    Syntax,
    /// The environment variable named by the source specifier is absent.
    EnvLookup,
    /// The type identifier is not one of the supported primitives.
    UnsupportedType,
    /// The resolved string does not parse as the declared type.
    ValueParse,
}

/// A located failure: the kind, the index of the offending token in the input
/// (the input's length where a token is missing at its end), and the text the
/// failure is about (the type name, the variable name or the rejected value).
#[derive(Clone, Debug)]
pub struct Diagnostic {
    pub kind: ErrorKind,
    pub loc: usize,
    pub detail: String,
}

impl Diagnostic {
    /// A human-readable message for the diagnostic sink.
    pub fn message(&self) -> (r: String)
        ensures
            r@ == message_text(self.kind, self.detail@),
    {
        let head = match self.kind {
            ErrorKind::Syntax => "expected `VIS? const NAME: TYPE = \"...\";`",
            ErrorKind::EnvLookup => "couldn't find variable in environment: ",
            ErrorKind::UnsupportedType => "unsupported type: ",
            ErrorKind::ValueParse => "cannot parse value as the declared type: ",
        };
        let mut r = String::from_str(head);
        match self.kind {
            ErrorKind::Syntax => {},
            _ => r.append(self.detail.as_str()),
        }
        r
    }
}

/// The message of a diagnostic of kind `k` about `detail`.
pub open spec fn message_text(k: ErrorKind, detail: Seq<char>) -> Seq<char> {
    match k {
        ErrorKind::Syntax => "expected `VIS? const NAME: TYPE = \"...\";`"@,
        ErrorKind::EnvLookup => "couldn't find variable in environment: "@ + detail,
        ErrorKind::UnsupportedType => "unsupported type: "@ + detail,
        ErrorKind::ValueParse => "cannot parse value as the declared type: "@ + detail,
    }
}

} // verus!
