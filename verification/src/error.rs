//! The ways in which a pricing or accounting request can be turned down.

use vstd::prelude::*;

verus! {

/// Why a request was rejected.
#[derive(Clone, Copy, Debug, PartialEq, Eq, Structural)]
pub enum PairError {
    /// An intermediate value left the range of its type, a divisor was zero,
    /// or a power was asked for outside the domain of the power function.
    Arithmetic,
    /// The query time lies before the start of the weight schedule.
    NotStarted,
    /// The query time lies after the end of the weight schedule.
    Finished,
    /// A reverse quote asks for at least the whole balance of the ask pool.
    InsufficientLiquidity,
    /// A swap falls short of the caller's expectation by more than the
    /// spread it allows.
    MaxSpreadExceeded,
    /// A deposit is out of proportion with the pool by more than the
    /// tolerance the caller allows.
    SlippageToleranceExceeded,
    /// The slippage tolerance is larger than one.
    SlippageToleranceTooLarge,
    /// An amount names an asset that is on neither side of the pool.
    InvalidAsset,
    /// A deposit of nothing.
    ZeroAmount,
    /// The commission rate is not a decimal number.
    InvalidCommissionRate,
    /// The native coins sent along differ from the amount the request names.
    NativeBalanceMismatch,
    /// The schedule starts before the present moment.
    StartTimeInPast,
    /// The schedule does not end after it starts.
    EndTimeNotAfterStart,
    /// An asset starts with weight zero.
    ZeroStartWeight,
    /// An asset ends with weight zero.
    ZeroEndWeight,
    /// Tax is taken off native coins only.
    TaxOnToken,
    /// A route of swaps ends in more than one asset, or in none.
    MultipleOutputToken,
    /// A swap of a route offers something else than the swap before it
    /// asked for.
    InvalidOperationsOrder,
    /// A route brought in less than the least that the caller accepts.
    MinimumReceive,
}

impl PairError {
    /// The sentence that tells a caller what went wrong.
    pub fn message(&self) -> (r: String)
        ensures
            r@ == error_text(*self),
    {
        let text: &str = match self {
            PairError::Arithmetic => "Arithmetic operation failed",
            PairError::NotStarted => "Sale has not started yet",
            PairError::Finished => "Sale has already finished",
            PairError::InsufficientLiquidity => "Ask amount exceeds the pool balance",
            PairError::MaxSpreadExceeded => "Operation exceeds max spread limit",
            PairError::SlippageToleranceExceeded => "Operation exceeds max splippage tolerance",
            PairError::SlippageToleranceTooLarge => "slippage_tolerance cannot bigger than 1",
            PairError::InvalidAsset => "Wrong asset info is given",
            PairError::ZeroAmount => "Zero amount is given",
            PairError::InvalidCommissionRate => "Commission rate is not a decimal",
            PairError::NativeBalanceMismatch => "Native token balance missmatch between the argument and the transferred",
            PairError::StartTimeInPast => "start_time is less then current time",
            PairError::EndTimeNotAfterStart => "end_time is less then or same as start_time",
            PairError::ZeroStartWeight => "start_weight can not be 0",
            PairError::ZeroEndWeight => "end_weight can not be 0",
            PairError::TaxOnToken => "cannot deduct tax from token asset",
            PairError::MultipleOutputToken => "invalid operations; multiple output token",
            PairError::InvalidOperationsOrder => "invalid operations order; offer does not equal to prev ask",
            PairError::MinimumReceive => "assertion failed; swap amount is below minimum receive amount",
        };
        text.to_owned()
    }
}

/// The sentence of each error.
pub open spec fn error_text(e: PairError) -> Seq<char> {
    match e {
        PairError::Arithmetic => "Arithmetic operation failed"@,
        PairError::NotStarted => "Sale has not started yet"@,
        PairError::Finished => "Sale has already finished"@,
        PairError::InsufficientLiquidity => "Ask amount exceeds the pool balance"@,
        PairError::MaxSpreadExceeded => "Operation exceeds max spread limit"@,
        PairError::SlippageToleranceExceeded => "Operation exceeds max splippage tolerance"@,
        PairError::SlippageToleranceTooLarge => "slippage_tolerance cannot bigger than 1"@,
        PairError::InvalidAsset => "Wrong asset info is given"@,
        PairError::ZeroAmount => "Zero amount is given"@,
        PairError::InvalidCommissionRate => "Commission rate is not a decimal"@,
        PairError::NativeBalanceMismatch => "Native token balance missmatch between the argument and the transferred"@,
        PairError::StartTimeInPast => "start_time is less then current time"@,
        PairError::EndTimeNotAfterStart => "end_time is less then or same as start_time"@,
        PairError::ZeroStartWeight => "start_weight can not be 0"@,
        PairError::ZeroEndWeight => "end_weight can not be 0"@,
        PairError::TaxOnToken => "cannot deduct tax from token asset"@,
        PairError::MultipleOutputToken => "invalid operations; multiple output token"@,
        PairError::InvalidOperationsOrder => "invalid operations order; offer does not equal to prev ask"@,
        PairError::MinimumReceive => "assertion failed; swap amount is below minimum receive amount"@,
    }
}

} // verus!
