//! The error of operations that run outside work.

use vstd::prelude::*;
use crate::model::Model;

verus! {

/// What kind of failure an error reports.
#[derive(Debug, Clone, Copy, PartialEq, Eq, PartialOrd, Ord, Structural)]
pub enum ErrorCategory {
    Invalid,
    Failure,
    Timeout,
}

impl DeepView for ErrorCategory {
    type V = ErrorCategory;

    open spec fn deep_view(&self) -> ErrorCategory {
        *self
    }
}

/// A categorized failure.
#[derive(Debug, PartialEq, Eq)]
pub struct AppError {
    pub category: ErrorCategory,
    pub message: String,
}

/// The content of an [`AppError`].
#[verifier::ext_equal]
pub struct AppErrorView {
    pub category: ErrorCategory,
    pub message: Seq<char>,
}

impl DeepView for AppError {
    type V = AppErrorView;

    open spec fn deep_view(&self) -> AppErrorView {
        AppErrorView { category: self.category, message: self.message.deep_view() }
    }
}

impl Clone for AppError {
    fn clone(&self) -> (r: Self)
        ensures
            r.deep_view() == self.deep_view(),
    {
        AppError { category: self.category, message: self.message.dup() }
    }
}

impl AppError {
    pub fn new(category: ErrorCategory, message: String) -> (r: Self)
        ensures
            r.deep_view() == (AppErrorView { category, message: message@ }),
    {
        AppError { category, message }
    }

    /// Whether outside work ran out of time.
    pub fn timed_out(&self) -> (r: bool)
        ensures
            r == (self.deep_view().category == ErrorCategory::Timeout),
    {
        self.category == ErrorCategory::Timeout
    }
}

} // verus!
