use crate::text::{push_hex, spec_hex};
use vstd::prelude::*;
use vstd::string::StringExecFns;

verus! {

/// Why the interpreter stopped.
#[derive(Debug)]
pub enum RunTimeError {
    Other(String),
    UnknownInstruction(u8),
    Notimplemented(String),
    ClassLoadError(String),
    ResolveMethodError(String),
}

/// The value of a [`RunTimeError`]: its kind and its message.
pub enum RunTimeErrorView {
    Other(Seq<char>),
    UnknownInstruction(u8),
    Notimplemented(Seq<char>),
    ClassLoadError(Seq<char>),
    ResolveMethodError(Seq<char>),
}

impl View for RunTimeError {
    type V = RunTimeErrorView;

    open spec fn view(&self) -> RunTimeErrorView {
        match self {
            RunTimeError::Other(m) => RunTimeErrorView::Other(m@),
            RunTimeError::UnknownInstruction(op) => RunTimeErrorView::UnknownInstruction(*op),
            RunTimeError::Notimplemented(m) => RunTimeErrorView::Notimplemented(m@),
            RunTimeError::ClassLoadError(m) => RunTimeErrorView::ClassLoadError(m@),
            RunTimeError::ResolveMethodError(m) => RunTimeErrorView::ResolveMethodError(m@),
        }
    }
}

/// The message of a run-time error, as the command line prints it.
pub open spec fn spec_runtime_error_text(e: RunTimeErrorView) -> Seq<char> {
    match e {
        RunTimeErrorView::Other(m) => m,
        RunTimeErrorView::UnknownInstruction(op) => "Unknown instruction: 0x"@ + spec_hex(op as nat, 2),
        RunTimeErrorView::Notimplemented(m) => "Not implemented: "@ + m,
        RunTimeErrorView::ClassLoadError(m) => "Class load error: "@ + m,
        RunTimeErrorView::ResolveMethodError(m) => "Resolve method error: "@ + m,
    }
}

impl RunTimeError {
    /// The message of the error, as the command line prints it.
    pub fn text(&self) -> (r: String)
        ensures
            r@ == spec_runtime_error_text(self@),
    {
        match self {
            RunTimeError::Other(m) => m.clone(),
            RunTimeError::UnknownInstruction(op) => {
                let mut text = String::from_str("Unknown instruction: 0x");
                push_hex(&mut text, *op as u64, 2);
                text
            },
            RunTimeError::Notimplemented(m) => {
                let mut text = String::from_str("Not implemented: ");
                text.append(m.as_str());
                text
            },
            RunTimeError::ClassLoadError(m) => {
                let mut text = String::from_str("Class load error: ");
                text.append(m.as_str());
                text
            },
            RunTimeError::ResolveMethodError(m) => {
                let mut text = String::from_str("Resolve method error: ");
                text.append(m.as_str());
                text
            },
        }
    }
}

} // verus!
