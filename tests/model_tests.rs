use sim_core::model::{
    check_input, scheduled_amount, withdrawal_timing, InputError, RebalanceRule, WithdrawalRule,
    WithdrawalTiming,
};
use sim_core::path::{year_steps, PathRecord, YearStep};

#[test]
fn input_errors_are_distinguished() {
    assert_eq!(check_input(1, 3, true, true), Ok(()));
    assert_eq!(check_input(0, 3, true, true), Err(InputError::NoPaths));
    assert_eq!(check_input(0, 0, false, false), Err(InputError::NoPaths));
    assert_eq!(check_input(4, 0, true, true), Err(InputError::NoYears));
    assert_eq!(check_input(4, 5, false, true), Err(InputError::WeightsDoNotSumToOne));
    assert_eq!(check_input(4, 5, true, false), Err(InputError::CorrelationOutOfRange));
}

#[test]
fn timing_comes_from_the_rule() {
    let g = WithdrawalRule::Guardrail {
        initial_rate: 0.05f64.to_bits(),
        floor_rate: 0.04f64.to_bits(),
        ceiling_rate: 0.06f64.to_bits(),
        adjust_fraction: 0.1f64.to_bits(),
        timing: WithdrawalTiming::EndOfYear,
    };
    assert_eq!(withdrawal_timing(&g), WithdrawalTiming::EndOfYear);
    let f = WithdrawalRule::FixedAmount { timing: WithdrawalTiming::StartOfYear };
    assert_eq!(withdrawal_timing(&f), WithdrawalTiming::StartOfYear);
    let p = WithdrawalRule::FixedPercentage { rate: 0.04f64.to_bits(), timing: WithdrawalTiming::EndOfYear };
    assert_eq!(withdrawal_timing(&p), WithdrawalTiming::EndOfYear);
}

#[test]
fn schedule_repeats_last_entry() {
    let s: Vec<u64> = [1000.0f64, 2000.0, 3000.0].iter().map(|x| x.to_bits()).collect();
    assert_eq!(f64::from_bits(scheduled_amount(&s, 1)), 2000.0);
    assert_eq!(f64::from_bits(scheduled_amount(&s, 2)), 3000.0);
    assert_eq!(f64::from_bits(scheduled_amount(&s, 9)), 3000.0);
    assert_eq!(f64::from_bits(scheduled_amount(&Vec::new(), 0)), 0.0);
}

#[test]
fn start_of_year_plan_rebalances_twice() {
    assert_eq!(
        year_steps(WithdrawalTiming::StartOfYear, RebalanceRule::Annual),
        vec![
            YearStep::AccrueInflation,
            YearStep::PlanSpending,
            YearStep::Withdraw,
            YearStep::Rebalance,
            YearStep::ApplyReturns,
            YearStep::ChargeFeesAndTax,
            YearStep::Rebalance,
            YearStep::TrackDrawdown,
            YearStep::RecordYear
        ]
    );
}

#[test]
fn end_of_year_plan_withdraws_after_tax() {
    assert_eq!(
        year_steps(WithdrawalTiming::EndOfYear, RebalanceRule::Never),
        vec![YearStep::AccrueInflation, YearStep::PlanSpending, YearStep::ApplyReturns, YearStep::ChargeFeesAndTax, YearStep::Withdraw, YearStep::TrackDrawdown, YearStep::RecordYear]
    );
    assert_eq!(
        year_steps(WithdrawalTiming::StartOfYear, RebalanceRule::Never),
        vec![YearStep::AccrueInflation, YearStep::PlanSpending, YearStep::Withdraw, YearStep::ApplyReturns, YearStep::ChargeFeesAndTax, YearStep::TrackDrawdown, YearStep::RecordYear]
    );
}

#[test]
fn path_record_keeps_first_failure_year() {
    let mut r = PathRecord::new(1_000_000.0f64.to_bits(), 3);
    assert!(!r.is_complete());
    r.note_withdrawal(false);
    r.close_year(10.0f64.to_bits());
    r.note_withdrawal(true);
    assert_eq!(r.failure_year, Some(2));
    r.close_year(0.0f64.to_bits());
    r.note_withdrawal(true);
    r.close_year(0.0f64.to_bits());
    assert_eq!(r.failure_year, Some(2));
    assert!(r.is_complete());
    assert_eq!(r.yearly_assets.len(), 4);
    assert_eq!(f64::from_bits(r.yearly_assets[0]), 1_000_000.0);
}
