use vstd::prelude::*;
use vstd::string::StringExecFns;

verus! {

/// Why loading a class failed.
#[derive(Debug)]
pub enum ClassLoadError {
    NotFound(String),
    InvalidFormat(String),
    Other(String),
}

/// The mathematical value of a [`ClassLoadError`]: its kind and its message.
pub enum LoadErrorView {
    NotFound(Seq<char>),
    InvalidFormat(Seq<char>),
    Other(Seq<char>),
}

impl View for ClassLoadError {
    type V = LoadErrorView;

    open spec fn view(&self) -> LoadErrorView {
        match self {
            ClassLoadError::NotFound(m) => LoadErrorView::NotFound(m@),
            ClassLoadError::InvalidFormat(m) => LoadErrorView::InvalidFormat(m@),
            ClassLoadError::Other(m) => LoadErrorView::Other(m@),
        }
    }
}

/// Turns the text of a failed read into a class-format error.
pub fn map_error(message: &str) -> (r: ClassLoadError)
    ensures
        r@ == LoadErrorView::InvalidFormat("Error: "@ + message@),
{
    let mut text = String::from_str("Error: ");
    text.append(message);
    ClassLoadError::InvalidFormat(text)
}

/// Builds an owned message from a literal.
pub fn message(text: &str) -> (r: String)
    ensures
        r@ == text@,
{
    String::from_str(text)
}

/// The message of a load error, as the command line prints it.
pub open spec fn spec_load_error_text(e: LoadErrorView) -> Seq<char> {
    match e {
        LoadErrorView::NotFound(name) => "Class not found: "@ + name,
        LoadErrorView::InvalidFormat(reason) => "Invalid class format: "@ + reason,
        LoadErrorView::Other(m) => "Class load error: "@ + m,
    }
}

impl ClassLoadError {
    /// The message of the error, as the command line prints it.
    pub fn text(&self) -> (r: String)
        ensures
            r@ == spec_load_error_text(self@),
    {
        let (head, body) = match self {
            ClassLoadError::NotFound(name) => ("Class not found: ", name),
            ClassLoadError::InvalidFormat(reason) => ("Invalid class format: ", reason),
            ClassLoadError::Other(m) => ("Class load error: ", m),
        };
        let mut text = String::from_str(head);
        text.append(body.as_str());
        text
    }
}

} // verus!
