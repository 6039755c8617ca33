use lbp_pair::error::PairError;

#[test]
fn every_error_has_its_sentence() {
    let sentences = [
        (PairError::Arithmetic, "Arithmetic operation failed"),
        (PairError::NotStarted, "Sale has not started yet"),
        (PairError::Finished, "Sale has already finished"),
        (
            PairError::InsufficientLiquidity,
            "Ask amount exceeds the pool balance",
        ),
        (
            PairError::MaxSpreadExceeded,
            "Operation exceeds max spread limit",
        ),
        (
            PairError::SlippageToleranceExceeded,
            "Operation exceeds max splippage tolerance",
        ),
        (
            PairError::SlippageToleranceTooLarge,
            "slippage_tolerance cannot bigger than 1",
        ),
        (PairError::InvalidAsset, "Wrong asset info is given"),
        (PairError::ZeroAmount, "Zero amount is given"),
        (
            PairError::InvalidCommissionRate,
            "Commission rate is not a decimal",
        ),
        (
            PairError::NativeBalanceMismatch,
            "Native token balance missmatch between the argument and the transferred",
        ),
        (
            PairError::StartTimeInPast,
            "start_time is less then current time",
        ),
        (
            PairError::EndTimeNotAfterStart,
            "end_time is less then or same as start_time",
        ),
        (PairError::ZeroStartWeight, "start_weight can not be 0"),
        (PairError::ZeroEndWeight, "end_weight can not be 0"),
        (
            PairError::TaxOnToken,
            "cannot deduct tax from token asset",
        ),
        (
            PairError::MultipleOutputToken,
            "invalid operations; multiple output token",
        ),
        (
            PairError::InvalidOperationsOrder,
            "invalid operations order; offer does not equal to prev ask",
        ),
        (
            PairError::MinimumReceive,
            "assertion failed; swap amount is below minimum receive amount",
        ),
    ];
    for (error, sentence) in sentences {
        assert_eq!(error.message(), sentence);
    }
}
