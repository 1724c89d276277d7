//! The error every command reports to the front end.
use vstd::prelude::*;

verus! {

/// What went wrong, with a message for the user.
#[derive(Debug, Clone)]
pub enum AppError {
    InvalidInput(String),
    NotFound(String),
    Io(String),
    Db(String),
    Secret(String),
    Translate(String),
}

/// An error as plain values.
pub enum ErrorView {
    InvalidInput(Seq<char>),
    NotFound(Seq<char>),
    Io(Seq<char>),
    Db(Seq<char>),
    Secret(Seq<char>),
    Translate(Seq<char>),
}

impl View for AppError {
    type V = ErrorView;

    open spec fn view(&self) -> ErrorView {
        match self {
            AppError::InvalidInput(m) => ErrorView::InvalidInput(m@),
            AppError::NotFound(m) => ErrorView::NotFound(m@),
            AppError::Io(m) => ErrorView::Io(m@),
            AppError::Db(m) => ErrorView::Db(m@),
            AppError::Secret(m) => ErrorView::Secret(m@),
            AppError::Translate(m) => ErrorView::Translate(m@),
        }
    }
}

pub type AppResult<T> = Result<T, AppError>;

/// A result whose error is compared by its view.
pub open spec fn unit_result_view(r: AppResult<()>) -> Result<(), ErrorView> {
    match r {
        Ok(()) => Ok(()),
        Err(e) => Err(e@),
    }
}

/// The message of an error.
pub open spec fn error_text(e: ErrorView) -> Seq<char> {
    match e {
        ErrorView::InvalidInput(m) => m,
        ErrorView::NotFound(m) => m,
        ErrorView::Io(m) => m,
        ErrorView::Db(m) => m,
        ErrorView::Secret(m) => m,
        ErrorView::Translate(m) => m,
    }
}

impl AppError {
    /// The message the user sees.
    pub fn message(&self) -> (r: String)
        ensures
            r@ == error_text(self@),
    {
        match self {
            AppError::InvalidInput(m) => m.clone(),
            AppError::NotFound(m) => m.clone(),
            AppError::Io(m) => m.clone(),
            AppError::Db(m) => m.clone(),
            AppError::Secret(m) => m.clone(),
            AppError::Translate(m) => m.clone(),
        }
    }
}

} // verus!
