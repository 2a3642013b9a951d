//! The error kinds the adapters report.

use vstd::prelude::*;

verus! {

/// A failed request, with the message shown to the user.
#[derive(Debug, Clone)]
pub enum GrmError {
    /// The request broke a rule of the command surface.
    Constraint(String),
    /// A backend or an outside service failed.
    Backend(String),
    /// The request is valid but not supported here.
    NotSupported(String),
}

/// The kind and message of an error, as plain values.
pub enum ErrorView {
    Constraint(Seq<char>),
    Backend(Seq<char>),
    NotSupported(Seq<char>),
}

impl View for GrmError {
    type V = ErrorView;

    open spec fn view(&self) -> ErrorView {
        match self {
            GrmError::Constraint(m) => ErrorView::Constraint(m@),
            GrmError::Backend(m) => ErrorView::Backend(m@),
            GrmError::NotSupported(m) => ErrorView::NotSupported(m@),
        }
    }
}

impl GrmError {
    /// The message carried by the error.
    pub fn message(&self) -> (m: &String)
        ensures
            m@ == match self@ {
                ErrorView::Constraint(t) => t,
                ErrorView::Backend(t) => t,
                ErrorView::NotSupported(t) => t,
            },
    {
        match self {
            GrmError::Constraint(m) => m,
            GrmError::Backend(m) => m,
            GrmError::NotSupported(m) => m,
        }
    }
}

} // verus!
