use vstd::prelude::*;

verus! {

/// How the configured mean returns are quoted.
#[derive(Clone, Copy, Debug, PartialEq, Eq, Structural)]
pub enum ReturnMode {
    Real,
    Nominal,
}

/// When in the year the withdrawal is taken.
#[derive(Clone, Copy, Debug, PartialEq, Eq, Structural)]
pub enum WithdrawalTiming {
    StartOfYear,
    EndOfYear,
}

/// Whether the sleeves are reset to the target weights each year.
#[derive(Clone, Copy, Debug, PartialEq, Eq, Structural)]
pub enum RebalanceRule {
    Annual,
    Never,
}

/// The planned-spending policy. Amounts and rates are `f64` values held as
/// their bit patterns.
#[derive(Clone, Debug)]
pub enum SpendingPath {
    FixedReal { annual_amount: u64 },
    GrowingNominal { initial_amount: u64, annual_growth: u64 },
    CustomNominal { yearly_amounts: Vec<u64> },
}

/// The withdrawal policy. Rates are `f64` values held as their bit patterns.
#[derive(Clone, Copy, Debug, PartialEq, Eq, Structural)]
pub enum WithdrawalRule {
    FixedAmount { timing: WithdrawalTiming },
    FixedPercentage { rate: u64, timing: WithdrawalTiming },
    Guardrail {
        initial_rate: u64,
        floor_rate: u64,
        ceiling_rate: u64,
        adjust_fraction: u64,
        timing: WithdrawalTiming,
    },
}

/// The timing that a withdrawal rule carries.
pub open spec fn timing_of(rule: WithdrawalRule) -> WithdrawalTiming {
    match rule {
        WithdrawalRule::FixedAmount { timing } => timing,
        WithdrawalRule::FixedPercentage { timing, .. } => timing,
        WithdrawalRule::Guardrail { timing, .. } => timing,
    }
}

/// When in the year `rule` withdraws.
pub fn withdrawal_timing(rule: &WithdrawalRule) -> (r: WithdrawalTiming)
    ensures
        r == timing_of(*rule),
{
    match rule {
        WithdrawalRule::FixedAmount { timing } => *timing,
        WithdrawalRule::FixedPercentage { timing, .. } => *timing,
        WithdrawalRule::Guardrail { timing, .. } => *timing,
    }
}

/// The entry of a custom schedule for year `year_idx`: years past its end
/// repeat its last entry, and an empty schedule gives `0.0`.
pub open spec fn schedule_entry(amounts: Seq<u64>, year_idx: int) -> u64 {
    if year_idx < amounts.len() {
        amounts[year_idx]
    } else if amounts.len() > 0 {
        amounts.last()
    } else {
        0
    }
}

/// The bit pattern of the scheduled amount for year `year_idx`.
pub fn scheduled_amount(amounts: &Vec<u64>, year_idx: usize) -> (r: u64)
    ensures
        r == schedule_entry(amounts@, year_idx as int),
{
    if year_idx < amounts.len() {
        amounts[year_idx]
    } else if amounts.len() > 0 {
        amounts[amounts.len() - 1]
    } else {
        0
    }
}

/// Why a configuration is rejected before any path is simulated.
#[derive(Clone, Copy, Debug, PartialEq, Eq, Structural)]
pub enum InputError {
    /// `simulation_paths` is zero.
    NoPaths,
    /// `retirement_years` is zero.
    NoYears,
    /// The equity and bond weights do not sum to 1 within `1e-6`.
    WeightsDoNotSumToOne,
    /// The equity–bond correlation lies outside [-1, 1].
    CorrelationOutOfRange,
}

/// The first violated invariant of a configuration, checked in the order
/// paths, years, weights, correlation; `Ok` when none is violated.
pub fn check_input(
    simulation_paths: usize,
    retirement_years: usize,
    weights_sum_to_one: bool,
    correlation_in_range: bool,
) -> (r: Result<(), InputError>)
    ensures
        r == (if simulation_paths == 0 {
            Err(InputError::NoPaths)
        } else if retirement_years == 0 {
            Err(InputError::NoYears)
        } else if !weights_sum_to_one {
            Err(InputError::WeightsDoNotSumToOne)
        } else if !correlation_in_range {
            Err(InputError::CorrelationOutOfRange)
        } else {
            Ok(())
        }),
{
    if simulation_paths == 0 {
        Err(InputError::NoPaths)
    } else if retirement_years == 0 {
        Err(InputError::NoYears)
    } else if !weights_sum_to_one {
        Err(InputError::WeightsDoNotSumToOne)
    } else if !correlation_in_range {
        Err(InputError::CorrelationOutOfRange)
    } else {
        Ok(())
    }
}

} // verus!
