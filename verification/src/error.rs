//! The one error category of the application and the text it is shown with.

use vstd::prelude::*;
use vstd::string::StringExecFns;

verus! {

/// What went wrong underneath a failed run. Every kind is handled the same
/// way by the caller; the kinds differ only in the text they are shown with.
#[derive(Debug, Clone, PartialEq, Eq)]
pub enum MyError {
    /// An input or output operation failed; the text describes it.
    Io(String),
    /// Some input could not be understood; the text describes it.
    Parse(String),
    /// Nothing more is known.
    Unknown,
}

/// The mathematical content of a [`MyError`].
pub enum MyErrorView {
    Io(Seq<char>),
    Parse(Seq<char>),
    Unknown,
}

impl View for MyError {
    type V = MyErrorView;

    open spec fn view(&self) -> MyErrorView {
        match *self {
            MyError::Io(text) => MyErrorView::Io(text@),
            MyError::Parse(text) => MyErrorView::Parse(text@),
            MyError::Unknown => MyErrorView::Unknown,
        }
    }
}

/// The text an error is shown with: a fixed prefix for its kind, followed by
/// the description it carries.
pub open spec fn message_of(error: MyErrorView) -> Seq<char> {
    match error {
        MyErrorView::Io(text) => "IO error: "@ + text,
        MyErrorView::Parse(text) => "Parse error: "@ + text,
        MyErrorView::Unknown => "Unknown error"@,
    }
}

impl MyError {
    /// The text this error is shown with.
    pub fn message(&self) -> (text: String)
        ensures
            text@ == message_of(self@),
    {
        match self {
            MyError::Io(detail) => String::from_str("IO error: ").concat(detail.as_str()),
            MyError::Parse(detail) => String::from_str("Parse error: ").concat(detail.as_str()),
            MyError::Unknown => String::from_str("Unknown error"),
        }
    }
}

} // verus!
