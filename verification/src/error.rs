//! The errors of the router's services.

use vstd::prelude::*;

verus! {

/// What can go wrong while a request is served.
#[derive(Debug)]
pub enum AppError {
    Facilitator(String),
    InferenceBackend(String),
    InputTooLarge(String),
}

/// What went wrong while a request was served.
pub enum AppErrorView {
    Facilitator(Seq<char>),
    InferenceBackend(Seq<char>),
    InputTooLarge(Seq<char>),
}

impl View for AppError {
    type V = AppErrorView;

    open spec fn view(&self) -> AppErrorView {
        match self {
            AppError::Facilitator(m) => AppErrorView::Facilitator(m@),
            AppError::InferenceBackend(m) => AppErrorView::InferenceBackend(m@),
            AppError::InputTooLarge(m) => AppErrorView::InputTooLarge(m@),
        }
    }
}

} // verus!
