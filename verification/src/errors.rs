//! Wallet error values produced by the send/amount logic.

use vstd::prelude::*;

verus! {

/// Errors surfaced by amount parsing and send-form validation.
#[derive(Clone, Debug, PartialEq, Eq)]
pub enum WalletError {
    WalletLocked,
    InvalidAddress(String),
    InvalidAmount(String),
    InvalidTransaction(String),
    InsufficientBalance,
    GasEstimationFailed(String),
    SigningFailed(String),
    TransactionFailed(String),
    AccountNotFound(String),
    Other(String),
}

/// Mathematical view of [`WalletError`]: each message as a character sequence.
pub enum WalletErrorView {
    WalletLocked,
    InvalidAddress(Seq<char>),
    InvalidAmount(Seq<char>),
    InvalidTransaction(Seq<char>),
    InsufficientBalance,
    GasEstimationFailed(Seq<char>),
    SigningFailed(Seq<char>),
    TransactionFailed(Seq<char>),
    AccountNotFound(Seq<char>),
    Other(Seq<char>),
}

impl View for WalletError {
    type V = WalletErrorView;

    open spec fn view(&self) -> WalletErrorView {
        match self {
            WalletError::WalletLocked => WalletErrorView::WalletLocked,
            WalletError::InvalidAddress(m) => WalletErrorView::InvalidAddress(m@),
            WalletError::InvalidAmount(m) => WalletErrorView::InvalidAmount(m@),
            WalletError::InvalidTransaction(m) => WalletErrorView::InvalidTransaction(m@),
            WalletError::InsufficientBalance => WalletErrorView::InsufficientBalance,
            WalletError::GasEstimationFailed(m) => WalletErrorView::GasEstimationFailed(m@),
            WalletError::SigningFailed(m) => WalletErrorView::SigningFailed(m@),
            WalletError::TransactionFailed(m) => WalletErrorView::TransactionFailed(m@),
            WalletError::AccountNotFound(m) => WalletErrorView::AccountNotFound(m@),
            WalletError::Other(m) => WalletErrorView::Other(m@),
        }
    }
}

/// View of a `Result<String, WalletError>`.
pub open spec fn string_result_view(r: Result<String, WalletError>) -> Result<Seq<char>, WalletErrorView> {
    match r {
        Ok(s) => Ok(s@),
        Err(e) => Err(e@),
    }
}

/// View of a `Result<Option<String>, WalletError>`.
pub open spec fn opt_string_result_view(r: Result<Option<String>, WalletError>) -> Result<
    Option<Seq<char>>,
    WalletErrorView,
> {
    match r {
        Ok(Some(s)) => Ok(Some(s@)),
        Ok(None) => Ok(None),
        Err(e) => Err(e@),
    }
}

} // verus!
