use vstd::prelude::*;

use crate::text::{dec_digits, dec_string};

verus! {

/// The journeyman discount at `level`, in percent: nothing at level 1, then
/// 20, 40, 60 and 75 percent, capped at 75 from level 5 on. Level 0 gets none.
pub open spec fn discount_pct(level: u32) -> nat {
    if level <= 1 {
        0
    } else if level == 2 {
        20
    } else if level == 3 {
        40
    } else if level == 4 {
        60
    } else {
        75
    }
}

/// `base` tokens after the discount at `level`: the discount's share,
/// rounded down, is taken off.
pub open spec fn discounted(level: u32, base: nat) -> nat {
    (base - base * discount_pct(level) / 100) as nat
}

/// The text of a savings report.
pub open spec fn savings_report_text(level: u32, total: u64, recorded: nat) -> Seq<char> {
    "Abstraction Level: "@ + dec_digits(level as nat) + "\nTotal Savings: "@ + dec_digits(
        total as nat,
    ) + " tokens\nCurrent discount: "@ + dec_digits(discount_pct(level)) + "%\nSavings recorded: "@
        + dec_digits(recorded)
}

/// Tracks how much abstraction saves over time.
#[derive(Debug, Clone)]
pub struct AbstractionSavings {
    pub abstraction_level: u32,
    pub base_cost: u64,
    pub actual_cost: u64,
    pub savings: u64,
    pub total_savings: u64,
    /// (level, cumulative_savings)
    pub savings_history: Vec<(u32, u64)>,
}

impl AbstractionSavings {
    pub fn new() -> (s: Self)
        ensures
            s.abstraction_level == 1,
            s.base_cost == 0,
            s.actual_cost == 0,
            s.savings == 0,
            s.total_savings == 0,
            s.savings_history@ == Seq::<(u32, u64)>::empty(),
    {
        AbstractionSavings {
            abstraction_level: 1,
            base_cost: 0,
            actual_cost: 0,
            savings: 0,
            total_savings: 0,
            savings_history: Vec::new(),
        }
    }

    /// Records one transaction: the level, the costs, what was saved (never
    /// below zero), the running total, and a history entry of the level and
    /// that total.
    pub fn record(&mut self, level: u32, base_cost: u64, actual_cost: u64)
        requires
            old(self).total_savings + (if actual_cost <= base_cost {
                base_cost - actual_cost
            } else {
                0
            }) <= u64::MAX,
        ensures
            final(self).abstraction_level == level,
            final(self).base_cost == base_cost,
            final(self).actual_cost == actual_cost,
            final(self).savings == (if actual_cost <= base_cost {
                base_cost - actual_cost
            } else {
                0
            }),
            final(self).total_savings == old(self).total_savings + final(self).savings,
            final(self).savings_history@ == old(self).savings_history@.push(
                (level, final(self).total_savings),
            ),
    {
        self.abstraction_level = level;
        self.base_cost = base_cost;
        self.actual_cost = actual_cost;
        self.savings = base_cost.saturating_sub(actual_cost);
        self.total_savings = self.total_savings + self.savings;
        self.savings_history.push((level, self.total_savings));
    }

    /// The discount at `level`, in percent: level 1: 0, level 2: 20, level 3:
    /// 40, level 4: 60, level 5 and above: 75.
    pub fn discount_percent_for_level(&self, level: u32) -> (pct: u64)
        ensures
            pct == discount_pct(level),
    {
        if level <= 1 {
            0
        } else if level == 2 {
            20
        } else if level == 3 {
            40
        } else if level == 4 {
            60
        } else {
            75
        }
    }

    /// Applies the journeyman discount at `level` to `base_tokens`.
    pub fn apply_discount(&self, level: u32, base_tokens: u64) -> (cost: u64)
        ensures
            cost == discounted(level, base_tokens as nat),
    {
        let pct = self.discount_percent_for_level(level);
        let saved: u128 = (base_tokens as u128) * (pct as u128) / 100;
        assert(saved <= base_tokens) by (nonlinear_arith)
            requires
                saved == (base_tokens as u128) * (pct as u128) / 100,
                pct <= 75,
        ;
        base_tokens - (saved as u64)
    }

    /// A human-readable summary: level, total savings, current discount and
    /// how many savings were recorded.
    pub fn savings_report(&self) -> (r: String)
        ensures
            r@ == savings_report_text(
                self.abstraction_level,
                self.total_savings,
                self.savings_history@.len(),
            ),
    {
        let mut r = String::from_str("Abstraction Level: ");
        r.append(dec_string(self.abstraction_level as u128).as_str());
        r.append("\nTotal Savings: ");
        r.append(dec_string(self.total_savings as u128).as_str());
        r.append(" tokens\nCurrent discount: ");
        r.append(dec_string(self.discount_percent_for_level(self.abstraction_level) as u128).as_str());
        r.append("%\nSavings recorded: ");
        r.append(dec_string(self.savings_history.len() as u128).as_str());
        r
    }
}

impl Default for AbstractionSavings {
    fn default() -> (s: Self)
        ensures
            s.abstraction_level == 1,
            s.base_cost == 0,
            s.actual_cost == 0,
            s.savings == 0,
            s.total_savings == 0,
            s.savings_history@ == Seq::<(u32, u64)>::empty(),
    {
        Self::new()
    }
}

/// A higher level never costs more: the discounted cost does not grow with
/// the level and never exceeds the base.
pub proof fn lemma_discount_monotone(l1: u32, l2: u32, base: nat)
    requires
        l1 <= l2,
    ensures
        discounted(l2, base) <= discounted(l1, base),
        discounted(l1, base) <= base,
{
    let p1 = discount_pct(l1);
    let p2 = discount_pct(l2);
    assert(base * p1 / 100 <= base * p2 / 100) by (nonlinear_arith)
        requires
            p1 <= p2,
    ;
    assert(base * p2 / 100 <= base) by (nonlinear_arith)
        requires
            p2 <= 75,
    ;
}

} // verus!
