use vstd::prelude::*;

use crate::model::{RebalanceRule, WithdrawalTiming};

verus! {

/// One step of a simulated year.
#[derive(Clone, Copy, Debug, PartialEq, Eq, Structural)]
pub enum YearStep {
    /// Multiply the year's inflation into the cumulative inflation factor.
    AccrueInflation,
    /// Compute the year's planned spending from the updated factor.
    PlanSpending,
    /// Resolve the withdrawal, take it from total assets and note depletion.
    Withdraw,
    /// Reset the sleeves to the target weights, less the transaction cost.
    Rebalance,
    /// Compound each sleeve by its own nominal return.
    ApplyReturns,
    /// Deduct the fee, then tax the gain over the value entering the year.
    ChargeFeesAndTax,
    /// Update the running peak and the maximum drawdown.
    TrackDrawdown,
    /// Append the year-end total to the asset curve.
    RecordYear,
}

/// The steps of one year, in order.
pub open spec fn year_plan(timing: WithdrawalTiming, rebalance: RebalanceRule) -> Seq<YearStep> {
    let head = seq![YearStep::AccrueInflation, YearStep::PlanSpending];
    let early = match (timing, rebalance) {
        (WithdrawalTiming::StartOfYear, RebalanceRule::Annual) => seq![
            YearStep::Withdraw,
            YearStep::Rebalance,
        ],
        (WithdrawalTiming::StartOfYear, RebalanceRule::Never) => seq![YearStep::Withdraw],
        (WithdrawalTiming::EndOfYear, _) => Seq::empty(),
    };
    let market = seq![YearStep::ApplyReturns, YearStep::ChargeFeesAndTax];
    let late = match timing {
        WithdrawalTiming::EndOfYear => seq![YearStep::Withdraw],
        WithdrawalTiming::StartOfYear => Seq::empty(),
    };
    let closing = match rebalance {
        RebalanceRule::Annual => seq![YearStep::Rebalance],
        RebalanceRule::Never => Seq::empty(),
    };
    head + early + market + late + closing + seq![YearStep::TrackDrawdown, YearStep::RecordYear]
}

/// The steps of one year under the given withdrawal timing and rebalancing
/// rule, in the order in which they are applied.
pub fn year_steps(timing: WithdrawalTiming, rebalance: RebalanceRule) -> (r: Vec<YearStep>)
    ensures
        r@ == year_plan(timing, rebalance),
{
    let mut steps: Vec<YearStep> = Vec::new();
    steps.push(YearStep::AccrueInflation);
    steps.push(YearStep::PlanSpending);
    let annual = match rebalance {
        RebalanceRule::Annual => true,
        RebalanceRule::Never => false,
    };
    let at_start = match timing {
        WithdrawalTiming::StartOfYear => true,
        WithdrawalTiming::EndOfYear => false,
    };
    if at_start {
        steps.push(YearStep::Withdraw);
        if annual {
            steps.push(YearStep::Rebalance);
        }
    }
    steps.push(YearStep::ApplyReturns);
    steps.push(YearStep::ChargeFeesAndTax);
    if !at_start {
        steps.push(YearStep::Withdraw);
    }
    if annual {
        steps.push(YearStep::Rebalance);
    }
    steps.push(YearStep::TrackDrawdown);
    steps.push(YearStep::RecordYear);
    assert(steps@ =~= year_plan(timing, rebalance));
    steps
}

/// Every year withdraws exactly once, and its last step records the year.
pub proof fn lemma_one_withdrawal_per_year(timing: WithdrawalTiming, rebalance: RebalanceRule)
    ensures
        year_plan(timing, rebalance).filter(|s: YearStep| s == YearStep::Withdraw).len() == 1,
        year_plan(timing, rebalance).last() == YearStep::RecordYear,
{
    let p = year_plan(timing, rebalance);
    reveal_with_fuel(Seq::filter, 10);
    assert(p.filter(|s: YearStep| s == YearStep::Withdraw).len() == 1);
}

/// The bookkeeping of one path: its asset curve (`f64` year-end totals held
/// as bit patterns, starting with the initial assets) and its failure year.
pub struct PathRecord {
    pub yearly_assets: Vec<u64>,
    pub failure_year: Option<usize>,
    pub retirement_years: usize,
}

impl PathRecord {
    /// The curve holds the initial value and one value per closed year, at
    /// most one per retirement year, and a failure year lies among the years
    /// that have been entered.
    pub open spec fn wf(&self) -> bool {
        &&& 1 <= self.yearly_assets@.len() <= self.retirement_years + 1
        &&& match self.failure_year {
            Some(y) => 1 <= y <= self.yearly_assets@.len(),
            None => true,
        }
    }

    /// The number of years closed so far.
    pub open spec fn years_closed(&self) -> nat {
        (self.yearly_assets@.len() - 1) as nat
    }

    /// All retirement years are closed.
    pub open spec fn complete(&self) -> bool {
        self.yearly_assets@.len() == self.retirement_years + 1
    }

    /// A record for a path that starts with `initial_assets`.
    pub fn new(initial_assets: u64, retirement_years: usize) -> (r: Self)
        requires
            retirement_years < usize::MAX,
        ensures
            r.wf(),
            r.yearly_assets@ == seq![initial_assets],
            r.failure_year.is_none(),
            r.retirement_years == retirement_years,
    {
        let mut yearly_assets: Vec<u64> = Vec::new();
        yearly_assets.push(initial_assets);
        PathRecord { yearly_assets, failure_year: None, retirement_years }
    }

    /// Whether every retirement year has been closed.
    pub fn is_complete(&self) -> (r: bool)
        requires
            self.wf(),
        ensures
            r == self.complete(),
    {
        self.yearly_assets.len() - 1 == self.retirement_years
    }

    /// Notes the outcome of the current year's withdrawal: when it left no
    /// assets and no failure year is recorded yet, the current year (1-based)
    /// becomes the failure year. A recorded failure year is never replaced.
    pub fn note_withdrawal(&mut self, depleted: bool)
        requires
            old(self).wf(),
            !old(self).complete(),
        ensures
            final(self).wf(),
            final(self).yearly_assets@ == old(self).yearly_assets@,
            final(self).retirement_years == old(self).retirement_years,
            final(self).failure_year == (if depleted && old(self).failure_year.is_none() {
                Some((old(self).years_closed() + 1) as usize)
            } else {
                old(self).failure_year
            }),
    {
        if depleted && self.failure_year.is_none() {
            self.failure_year = Some(self.yearly_assets.len());
        }
    }

    /// Closes the current year with its year-end total.
    pub fn close_year(&mut self, total_assets: u64)
        requires
            old(self).wf(),
            !old(self).complete(),
        ensures
            final(self).wf(),
            final(self).yearly_assets@ == old(self).yearly_assets@.push(total_assets),
            final(self).failure_year == old(self).failure_year,
            final(self).retirement_years == old(self).retirement_years,
    {
        self.yearly_assets.push(total_assets);
    }
}

/// A complete record's curve has one value per retirement year plus the
/// initial one, and closing years never changes the initial value.
pub proof fn lemma_complete_curve(start: PathRecord, end: PathRecord, initial_assets: u64)
    requires
        start.wf(),
        start.yearly_assets@ == seq![initial_assets],
        end.wf(),
        end.complete(),
        end.retirement_years == start.retirement_years,
        end.yearly_assets@.subrange(0, 1) == start.yearly_assets@,
    ensures
        end.yearly_assets@.len() == start.retirement_years + 1,
        end.yearly_assets@[0] == initial_assets,
{
    assert(end.yearly_assets@.subrange(0, 1)[0] == end.yearly_assets@[0]);
}

} // verus!
