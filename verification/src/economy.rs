use vstd::prelude::*;

use crate::budget::TokenBudget;
use crate::category::TokenCategory;
use crate::ledger::{
    cat_count, most_expensive_text, recorded, tick_count, tick_total, total_of, TokenLedger,
    TrendPoint,
};
use crate::muscle::{
    first_matching, first_named, lemma_first_named_unique, routine_cost_of,
    used_once_more, MuscleMemory, Routine,
};
use crate::savings::{discount_pct, discounted, AbstractionSavings};
use crate::text::{dec_digits, dec_string, names_task, tenths_string, tenths_text};

verus! {

/// Result of executing a task through the economy. The share of the base
/// cost that was saved is `savings / base_cost` (0 for a base cost of 0).
#[derive(Debug, Clone)]
pub struct TaskTokenResult {
    pub task: String,
    pub base_cost: u64,
    pub actual_cost: u64,
    pub savings: u64,
    pub routine_used: Option<String>,
}

/// One agent's token economy: its ledger, abstraction savings and muscle memory.
#[derive(Debug, Clone)]
pub struct TokenEconomy {
    pub ledger: TokenLedger,
    pub savings: AbstractionSavings,
    pub muscle: MuscleMemory,
    pub agent_id: String,
    pub session_count: u32,
}

/// The position of the first routine that matches `task`, if any.
pub open spec fn routine_for(routines: Seq<Routine>, task: Seq<char>) -> Option<int> {
    if exists|i: int| first_matching(routines, task, i) {
        Some(choose|i: int| first_matching(routines, task, i))
    } else {
        None
    }
}

/// What routine `r` costs once one more use is counted.
pub open spec fn cost_after_use(r: Routine) -> nat {
    routine_cost_of(Routine { times_used: (r.times_used + 1) as u32, ..r })
}

/// What `task` costs before the abstraction discount: the cost of its
/// matching routine after one more use when that is below `base`, else `base`.
pub open spec fn routine_charge(routines: Seq<Routine>, task: Seq<char>, base: u64) -> nat {
    match routine_for(routines, task) {
        Some(i) => if cost_after_use(routines[i]) < base {
            cost_after_use(routines[i])
        } else {
            base as nat
        },
        None => base as nat,
    }
}

/// Whether `routine_charge` used the matching routine's cost.
pub open spec fn routine_applies(routines: Seq<Routine>, task: Seq<char>, base: u64) -> bool {
    match routine_for(routines, task) {
        Some(i) => cost_after_use(routines[i]) < base,
        None => false,
    }
}

/// What tokens per transaction up to a tick come to, compared: `a`'s
/// figure is at least `b`'s. A point without transactions counts 0.
pub open spec fn per_tx_at_least(a: TrendPoint, b: TrendPoint) -> bool {
    if b.transactions == 0 {
        true
    } else if a.transactions == 0 {
        b.tokens == 0
    } else {
        a.tokens * b.transactions >= b.tokens * a.transactions
    }
}

/// The trend point of tick `t`.
pub open spec fn trend_point(s: Seq<crate::transaction::TokenTransaction>, t: int) -> TrendPoint {
    TrendPoint { tokens: tick_total(s, t as u64) as u64, transactions: tick_count(s, t as u64) as u64 }
}

/// The last tick a report covers: the current tick, and at least tick 1.
pub open spec fn last_report_tick(tick: u64) -> nat {
    if tick == 0 {
        1
    } else {
        tick as nat
    }
}

impl TokenEconomy {
    /// The books balance and every routine has its own name.
    pub open spec fn wf(self) -> bool {
        &&& self.ledger.balanced()
        &&& self.muscle.wf()
    }

    /// What executing `task` with `base` tokens costs: the routine charge with
    /// the current abstraction discount applied.
    pub open spec fn task_cost(self, task: Seq<char>, base: u64) -> nat {
        discounted(
            self.savings.abstraction_level,
            routine_charge(self.muscle.routines@, task, base),
        )
    }

    /// The full economy report.
    pub open spec fn report_text(self) -> Seq<char> {
        let s = self.ledger.transactions@;
        let b = self.ledger.budget;
        let tasks = if cat_count(s, TokenCategory::Compilation) == 0 {
            1
        } else {
            cat_count(s, TokenCategory::Compilation)
        };
        let util = if b.total == 0 {
            "0.0"@
        } else {
            tenths_text(b.used as nat * 100, b.total as nat)
        };
        "=== Token Economy Report ===\nAgent: "@ + self.agent_id@ + "\nSessions: "@ + dec_digits(
            self.session_count as nat,
        ) + "\nBudget: "@ + dec_digits(b.total as nat) + " / Used: "@ + dec_digits(b.used as nat)
            + " / Reserved: "@ + dec_digits(b.reserved as nat) + "\nUtilization: "@ + util
            + "%\nLevel: "@ + dec_digits(self.savings.abstraction_level as nat) + " (discount: "@
            + dec_digits(discount_pct(self.savings.abstraction_level))
            + "%)\nTotal abstraction savings: "@ + dec_digits(self.savings.total_savings as nat)
            + " tokens\nRoutines learned: "@ + dec_digits(self.muscle.routines@.len())
            + "\nTokens/task: "@ + tenths_text(total_of(s), tasks) + "\nMost expensive category: "@
            + most_expensive_text(s) + "\nJourneyman discount: "@ + tenths_text(0, 1) + "%"@
    }

    /// Tokens per transaction never rose from one tick to the next, over at
    /// least three trend points.
    pub open spec fn efficient(self) -> bool {
        let s = self.ledger.transactions@;
        let last = last_report_tick(self.ledger.tick);
        &&& last + 1 >= 3
        &&& forall|t: int|
            0 <= t < last ==> per_tx_at_least(#[trigger] trend_point(s, t), trend_point(s, t + 1))
    }

    pub fn new(agent_id: &str, budget: u64) -> (e: Self)
        ensures
            e.ledger.transactions@ == Seq::<crate::transaction::TokenTransaction>::empty(),
            e.ledger.budget == TokenBudget::new_spec(budget),
            e.ledger.tick == 0,
            e.savings.abstraction_level == 1,
            e.savings.total_savings == 0,
            e.savings.savings_history@ == Seq::<(u32, u64)>::empty(),
            e.muscle.routines@ == Seq::<Routine>::empty(),
            e.agent_id@ == agent_id@,
            e.session_count == 0,
            e.wf(),
    {
        TokenEconomy {
            ledger: TokenLedger::new(budget),
            savings: AbstractionSavings::new(),
            muscle: MuscleMemory::new(),
            agent_id: agent_id.to_owned(),
            session_count: 0,
        }
    }

    /// Executes a task: a matching routine (by name, or as `name:` prefix of
    /// the task) is used and its cost taken when below the base, then the
    /// abstraction discount applies; the savings are recorded and the cost is
    /// spent from the ledger as a `Compilation` (when the budget allows).
    pub fn execute_task(&mut self, task: &str, _domain: &str, base_tokens: u64) -> (r:
        TaskTokenResult)
        requires
            forall|i: int|
                first_matching(old(self).muscle.routines@, task@, i)
                    ==> old(self).muscle.routines@[i].times_used < u32::MAX,
            old(self).savings.total_savings + (base_tokens - old(self).task_cost(task@, base_tokens))
                <= u64::MAX,
            old(self).ledger.budget.used + old(self).ledger.budget.reserved <= u64::MAX,
        ensures
            r.task@ == task@,
            r.base_cost == base_tokens,
            r.actual_cost == old(self).task_cost(task@, base_tokens),
            r.actual_cost <= base_tokens,
            r.savings == base_tokens - r.actual_cost,
            match routine_for(old(self).muscle.routines@, task@) {
                Some(i) => {
                    &&& final(self).muscle.routines@.len() == old(self).muscle.routines@.len()
                    &&& used_once_more(
                        old(self).muscle.routines@[i],
                        final(self).muscle.routines@[i],
                    )
                    &&& forall|j: int|
                        0 <= j < old(self).muscle.routines@.len() && j != i
                            ==> final(self).muscle.routines@[j] == old(self).muscle.routines@[j]
                    &&& match r.routine_used {
                        Some(name) => routine_applies(
                            old(self).muscle.routines@,
                            task@,
                            base_tokens,
                        ) && name@ == old(self).muscle.routines@[i].name@,
                        None => !routine_applies(old(self).muscle.routines@, task@, base_tokens),
                    }
                },
                None => final(self).muscle == old(self).muscle && r.routine_used is None,
            },
            final(self).savings.abstraction_level == old(self).savings.abstraction_level,
            final(self).savings.base_cost == base_tokens,
            final(self).savings.actual_cost == r.actual_cost,
            final(self).savings.savings == r.savings,
            final(self).savings.total_savings == old(self).savings.total_savings + r.savings,
            final(self).savings.savings_history@ == old(self).savings.savings_history@.push(
                (old(self).savings.abstraction_level, final(self).savings.total_savings),
            ),
            final(self).ledger.budget == old(self).ledger.budget.after_spend(r.actual_cost),
            final(self).ledger.tick == old(self).ledger.tick,
            old(self).ledger.budget.fits(r.actual_cost) ==> {
                &&& final(self).ledger.transactions@.drop_last()
                    == old(self).ledger.transactions@
                &&& final(self).ledger.transactions@.len() == old(self).ledger.transactions@.len() + 1
                &&& recorded(
                    final(self).ledger.transactions@.last(),
                    r.actual_cost,
                    TokenCategory::Compilation,
                    task@,
                    old(self).ledger.tick,
                )
            },
            !old(self).ledger.budget.fits(r.actual_cost)
                ==> final(self).ledger.transactions@ == old(self).ledger.transactions@,
            final(self).agent_id == old(self).agent_id,
            final(self).session_count == old(self).session_count,
            old(self).wf() ==> final(self).wf(),
            old(self).ledger.ticks_recorded() ==> final(self).ledger.ticks_recorded(),
            routine_for(old(self).muscle.routines@, task@) matches Some(i) ==> (routine_applies(
                old(self).muscle.routines@,
                task@,
                base_tokens,
            ) ==> r.actual_cost == discounted(
                old(self).savings.abstraction_level,
                routine_cost_of(final(self).muscle.routines@[i]),
            )),
    {
        let ghost routines = self.muscle.routines@;
        let mut actual_cost = base_tokens;
        let mut routine_used: Option<String> = None;
        let matched = self.muscle.find_task_routine(task);
        proof {
            lemma_routine_for(routines, task@);
        }
        if let Some(i) = matched {
            proof {
                lemma_first_matching_unique(routines, task@, i as int);
            }
            let name = self.muscle.routines[i].name.clone();
            proof {
                assert forall|j: int| 0 <= j < i implies routines[j].name@ != name@ by {
                    assert(!names_task(routines[j].name@, task@));
                }
                assert(first_named(routines, name@, i as int));
                lemma_first_named_unique(routines, name@, i as int);
            }
            let cost = self.muscle.use_routine(name.as_str());
            if cost < base_tokens {
                actual_cost = cost;
                routine_used = Some(name);
            }
        }
        assert(actual_cost == routine_charge(routines, task@, base_tokens));
        let level = self.savings.abstraction_level;
        let discounted_cost = self.savings.apply_discount(level, actual_cost);
        proof {
            crate::savings::lemma_discount_monotone(level, level, actual_cost as nat);
        }
        if discounted_cost < actual_cost {
            actual_cost = discounted_cost;
        }
        let savings = base_tokens - actual_cost;
        self.savings.record(level, base_tokens, actual_cost);
        self.ledger.spend(actual_cost, TokenCategory::Compilation, task);
        TaskTokenResult {
            task: task.to_owned(),
            base_cost: base_tokens,
            actual_cost,
            savings,
            routine_used,
        }
    }

    /// Uses a learned routine directly; returns its cost after decay.
    pub fn use_muscle_memory(&mut self, routine: &str) -> (cost: u64)
        requires
            forall|j: int|
                first_named(old(self).muscle.routines@, routine@, j)
                    ==> old(self).muscle.routines@[j].times_used < u32::MAX,
        ensures
            match old(self).muscle.find_routine_spec(routine@) {
                Some(i) => {
                    &&& final(self).muscle.routines@.len() == old(self).muscle.routines@.len()
                    &&& used_once_more(
                        old(self).muscle.routines@[i],
                        final(self).muscle.routines@[i],
                    )
                    &&& cost == routine_cost_of(final(self).muscle.routines@[i])
                    &&& forall|j: int|
                        0 <= j < old(self).muscle.routines@.len() && j != i
                            ==> final(self).muscle.routines@[j] == old(self).muscle.routines@[j]
                },
                None => cost == 0 && final(self).muscle == old(self).muscle,
            },
            final(self).muscle.find_routine_spec(routine@) == old(self).muscle.find_routine_spec(
                routine@,
            ),
            final(self).ledger == old(self).ledger,
            final(self).savings == old(self).savings,
            final(self).agent_id == old(self).agent_id,
            final(self).session_count == old(self).session_count,
            old(self).wf() ==> final(self).wf(),
    {
        self.muscle.use_routine(routine)
    }

    /// Learns a new routine (replacing one of the same name).
    pub fn learn_routine(&mut self, name: &str, domain: &str, cost: u64)
        ensures
            match old(self).muscle.find_routine_spec(name@) {
                Some(i) => {
                    &&& final(self).muscle.routines@.len() == old(self).muscle.routines@.len()
                    &&& crate::muscle::fresh_routine(
                        final(self).muscle.routines@[i],
                        name@,
                        domain@,
                        cost,
                    )
                    &&& forall|j: int|
                        0 <= j < old(self).muscle.routines@.len() && j != i
                            ==> final(self).muscle.routines@[j] == old(self).muscle.routines@[j]
                },
                None => {
                    &&& final(self).muscle.routines@.len() == old(self).muscle.routines@.len() + 1
                    &&& crate::muscle::fresh_routine(
                        final(self).muscle.routines@.last(),
                        name@,
                        domain@,
                        cost,
                    )
                    &&& final(self).muscle.routines@.drop_last() == old(self).muscle.routines@
                },
            },
            final(self).ledger == old(self).ledger,
            final(self).savings == old(self).savings,
            final(self).agent_id == old(self).agent_id,
            final(self).session_count == old(self).session_count,
            old(self).wf() ==> final(self).wf(),
            final(self).muscle.find_routine_spec(name@) matches Some(i) && routine_cost_of(
                final(self).muscle.routines@[i],
            ) == cost,
    {
        self.muscle.learn(name, domain, cost);
    }

    /// The agent levels up: the abstraction level and every routine's level
    /// go up by one, capped at 5.
    pub fn promote(&mut self)
        requires
            old(self).savings.abstraction_level < u32::MAX,
            forall|j: int|
                0 <= j < old(self).muscle.routines@.len() ==> (#[trigger] old(self).muscle.routines@[j]).level < u32::MAX,
        ensures
            final(self).savings == (AbstractionSavings {
                abstraction_level: promoted(old(self).savings.abstraction_level),
                ..old(self).savings
            }),
            final(self).muscle.routines@.len() == old(self).muscle.routines@.len(),
            forall|j: int|
                0 <= j < old(self).muscle.routines@.len() ==> #[trigger] final(self).muscle.routines@[j] == (Routine {
                    level: promoted(old(self).muscle.routines@[j].level),
                    ..old(self).muscle.routines@[j]
                }),
            final(self).ledger == old(self).ledger,
            final(self).agent_id == old(self).agent_id,
            final(self).session_count == old(self).session_count,
            old(self).wf() ==> final(self).wf(),
    {
        let next = if self.savings.abstraction_level + 1 < 5 {
            self.savings.abstraction_level + 1
        } else {
            5
        };
        self.savings.abstraction_level = next;
        let n = self.muscle.routines.len();
        let mut j: usize = 0;
        while j < n
            invariant
                n == self.muscle.routines@.len(),
                n == old(self).muscle.routines@.len(),
                j <= n,
                forall|k: int|
                    0 <= k < n ==> (#[trigger] old(self).muscle.routines@[k]).level < u32::MAX,
                forall|k: int|
                    0 <= k < j ==> #[trigger] self.muscle.routines@[k] == (Routine {
                        level: promoted(old(self).muscle.routines@[k].level),
                        ..old(self).muscle.routines@[k]
                    }),
                forall|k: int|
                    j <= k < n ==> #[trigger] self.muscle.routines@[k] == old(self).muscle.routines@[k],
                self.savings == (AbstractionSavings {
                    abstraction_level: promoted(old(self).savings.abstraction_level),
                    ..old(self).savings
                }),
                self.ledger == old(self).ledger,
                self.agent_id == old(self).agent_id,
                self.session_count == old(self).session_count,
            decreases n - j,
        {
            let mut r = self.muscle.routines[j].clone_routine();
            r.level = if r.level + 1 < 5 {
                r.level + 1
            } else {
                5
            };
            self.muscle.routines.set(j, r);
            j = j + 1;
        }
        proof {
            if old(self).wf() {
                assert forall|a: int, b: int|
                    0 <= a < n && 0 <= b < n && a != b implies self.muscle.routines@[a].name@
                    != self.muscle.routines@[b].name@ by {
                    assert(self.muscle.routines@[a].name == old(self).muscle.routines@[a].name);
                    assert(self.muscle.routines@[b].name == old(self).muscle.routines@[b].name);
                }
            }
        }
    }

    /// The full economy report.
    pub fn economy_report(&self) -> (r: String)
        requires
            total_of(self.ledger.transactions@) <= u64::MAX,
        ensures
            r@ == self.report_text(),
    {
        let eff = self.ledger.efficiency_report();
        let b = &self.ledger.budget;
        let mut r = String::from_str("=== Token Economy Report ===\nAgent: ");
        r.append(self.agent_id.as_str());
        r.append("\nSessions: ");
        r.append(dec_string(self.session_count as u128).as_str());
        r.append("\nBudget: ");
        r.append(dec_string(b.total as u128).as_str());
        r.append(" / Used: ");
        r.append(dec_string(b.used as u128).as_str());
        r.append(" / Reserved: ");
        r.append(dec_string(b.reserved as u128).as_str());
        r.append("\nUtilization: ");
        if b.total == 0 {
            r.append("0.0");
        } else {
            r.append(tenths_string(b.used as u128 * 100, b.total as u128).as_str());
        }
        r.append("%\nLevel: ");
        r.append(dec_string(self.savings.abstraction_level as u128).as_str());
        r.append(" (discount: ");
        r.append(
            dec_string(
                self.savings.discount_percent_for_level(self.savings.abstraction_level) as u128,
            ).as_str(),
        );
        r.append("%)\nTotal abstraction savings: ");
        r.append(dec_string(self.savings.total_savings as u128).as_str());
        r.append(" tokens\nRoutines learned: ");
        r.append(dec_string(self.muscle.routines.len() as u128).as_str());
        r.append("\nTokens/task: ");
        r.append(tenths_string(eff.total_tokens as u128, eff.task_count as u128).as_str());
        r.append("\nMost expensive category: ");
        r.append(eff.most_expensive_category.as_str());
        r.append("\nJourneyman discount: ");
        r.append(tenths_string(eff.journeyman_discount as u128, 1).as_str());
        r.append("%");
        r
    }

    /// Whether tokens per transaction, tick by tick, never went up (with at
    /// least three points of trend to judge by).
    pub fn is_efficient(&self) -> (e: bool)
        requires
            total_of(self.ledger.transactions@) <= u64::MAX,
        ensures
            e == self.efficient(),
            e ==> forall|t: int|
                0 <= t < last_report_tick(self.ledger.tick) ==> per_tx_at_least(
                    #[trigger] trend_point(self.ledger.transactions@, t),
                    trend_point(self.ledger.transactions@, t + 1),
                ),
            (last_report_tick(self.ledger.tick) >= 2 && forall|t: int|
                0 <= t < last_report_tick(self.ledger.tick) ==> per_tx_at_least(
                    #[trigger] trend_point(self.ledger.transactions@, t),
                    trend_point(self.ledger.transactions@, t + 1),
                )) ==> e,
    {
        let report = self.ledger.efficiency_report();
        let trend = &report.efficiency_trend;
        let ghost s = self.ledger.transactions@;
        let n = trend.len();
        if n < 3 {
            return false;
        }
        let mut k: usize = 0;
        while k + 1 < n
            invariant
                n == trend@.len(),
                n == last_report_tick(self.ledger.tick) + 1,
                forall|q: int|
                    0 <= q < n ==> (#[trigger] trend@[q]).tokens == tick_total(s, q as u64)
                        && trend@[q].transactions == tick_count(s, q as u64),
                forall|q: int|
                    0 <= q < k ==> per_tx_at_least(#[trigger] trend_point(s, q), trend_point(s, q + 1)),
                k + 1 <= n,
                s == self.ledger.transactions@,
            decreases n - k,
        {
            let a = trend[k];
            let b = trend[k + 1];
            assert(trend_point(s, k as int) == a);
            assert(trend_point(s, k + 1) == b);
            if !at_least_per_tx(a, b) {
                return false;
            }
            k = k + 1;
        }
        true
    }
}

/// A level after promotion: one up, capped at 5.
pub open spec fn promoted(level: u32) -> u32 {
    if level + 1 < 5 {
        (level + 1) as u32
    } else {
        5
    }
}

/// Whether `a`'s tokens per transaction are at least `b`'s, by exact
/// cross-multiplication.
fn at_least_per_tx(a: TrendPoint, b: TrendPoint) -> (r: bool)
    ensures
        r == per_tx_at_least(a, b),
{
    if b.transactions == 0 {
        true
    } else if a.transactions == 0 {
        b.tokens == 0
    } else {
        let (x, y, z, w) = (a.tokens as u128, b.transactions as u128, b.tokens as u128, a.transactions as u128);
        assert(x * y <= 0xFFFF_FFFF_FFFF_FFFFu128 * 0xFFFF_FFFF_FFFF_FFFFu128) by (nonlinear_arith)
            requires
                x <= 0xFFFF_FFFF_FFFF_FFFFu128,
                y <= 0xFFFF_FFFF_FFFF_FFFFu128,
        ;
        assert(z * w <= 0xFFFF_FFFF_FFFF_FFFFu128 * 0xFFFF_FFFF_FFFF_FFFFu128) by (nonlinear_arith)
            requires
                z <= 0xFFFF_FFFF_FFFF_FFFFu128,
                w <= 0xFFFF_FFFF_FFFF_FFFFu128,
        ;
        x * y >= z * w
    }
}

/// `routine_for` picks the first matching routine when there is one.
pub proof fn lemma_routine_for(routines: Seq<Routine>, task: Seq<char>)
    ensures
        match routine_for(routines, task) {
            Some(i) => first_matching(routines, task, i),
            None => forall|j: int| 0 <= j < routines.len() ==> !names_task(#[trigger] routines[j].name@, task),
        },
{
    if !(exists|i: int| first_matching(routines, task, i)) {
        assert forall|j: int| 0 <= j < routines.len() implies !names_task(#[trigger] routines[j].name@, task) by {
            if names_task(routines[j].name@, task) {
                // the first one that matches would exist
                lemma_some_first_matching(routines, task, j);
            }
        }
    }
}

/// If some routine matches, a first one does.
pub proof fn lemma_some_first_matching(routines: Seq<Routine>, task: Seq<char>, j: int)
    requires
        0 <= j < routines.len(),
        names_task(routines[j].name@, task),
    ensures
        exists|i: int| first_matching(routines, task, i),
    decreases j,
{
    if forall|k: int| 0 <= k < j ==> !names_task(#[trigger] routines[k].name@, task) {
        assert(first_matching(routines, task, j));
    } else {
        let k = choose|k: int| 0 <= k < j && names_task(#[trigger] routines[k].name@, task);
        lemma_some_first_matching(routines, task, k);
    }
}

/// The first matching position is the one `routine_for` picks.
pub proof fn lemma_first_matching_unique(routines: Seq<Routine>, task: Seq<char>, i: int)
    requires
        first_matching(routines, task, i),
    ensures
        routine_for(routines, task) == Some(i),
{
    let k = choose|k: int| first_matching(routines, task, k);
    assert(first_matching(routines, task, k));
    if k < i {
        assert(names_task(routines[k].name@, task));
    } else if k > i {
        assert(names_task(routines[i].name@, task));
    }
}

/// Promotion raises a level by one up to the cap of 5 and never past it.
pub proof fn lemma_promotion_caps(level: u32)
    requires
        level < u32::MAX,
    ensures
        promoted(level) <= 5,
        level < 5 ==> promoted(level) == level + 1,
        level == 4 || level == 5 ==> promoted(level) == 5,
{
}

/// A task never costs more than its base, nor more than the base with the
/// discount alone: a routine only ever lowers the cost.
pub proof fn lemma_task_cost_bounds(e: TokenEconomy, task: Seq<char>, base: u64)
    ensures
        e.task_cost(task, base) <= discounted(e.savings.abstraction_level, base as nat),
        discounted(e.savings.abstraction_level, base as nat) <= base,
{
    let level = e.savings.abstraction_level;
    let x = routine_charge(e.muscle.routines@, task, base);
    assert(x <= base);
    let p = discount_pct(level);
    let b = base as nat;
    assert(x - x * p / 100 <= b - b * p / 100) by (nonlinear_arith)
        requires
            x <= b,
            p <= 100,
    {
        let d = (b - x) as nat;
        assert(b * p == x * p + d * p);
        assert(b * p / 100 <= x * p / 100 + d * p / 100 + 1);
        assert(d * p / 100 <= d);
        assert(b * p / 100 - x * p / 100 <= d) by {
            assert(x * p / 100 * 100 <= x * p);
            assert(b * p < (b * p / 100 + 1) * 100);
        }
    }
    crate::savings::lemma_discount_monotone(level, level, b);
}

/// A higher abstraction level never makes a task cost more.
pub proof fn lemma_task_cost_falls_with_level(e: TokenEconomy, task: Seq<char>, base: u64, higher: u32)
    requires
        e.savings.abstraction_level <= higher,
    ensures
        (TokenEconomy { savings: AbstractionSavings { abstraction_level: higher, ..e.savings }, ..e }).task_cost(task, base)
            <= e.task_cost(task, base),
{
    crate::savings::lemma_discount_monotone(
        e.savings.abstraction_level,
        higher,
        routine_charge(e.muscle.routines@, task, base),
    );
}

/// Using a routine and charging for it agree: what a task is charged for its
/// matching routine is the cost that routine has once its use is counted.
pub proof fn lemma_charge_is_use_cost(before: Routine, after: Routine)
    requires
        used_once_more(before, after),
    ensures
        cost_after_use(before) == routine_cost_of(after),
        cost_after_use(before) == after.tokens_after,
{
    assert(Routine { times_used: (before.times_used + 1) as u32, ..before }.level == after.level);
}

/// A matching routine at level 5 or above makes a task free, whatever its
/// base cost and the abstraction level.
pub proof fn lemma_level_five_routine_makes_task_free(e: TokenEconomy, task: Seq<char>, base: u64)
    requires
        routine_for(e.muscle.routines@, task) matches Some(i) && e.muscle.routines@[i].level >= 5,
    ensures
        e.task_cost(task, base) == 0,
{
}

/// When a routine's cost is below the base, the task is charged exactly that
/// cost before the discount; otherwise the base.
pub proof fn lemma_routine_charge_is_cheaper_of_two(routines: Seq<Routine>, task: Seq<char>, base: u64)
    ensures
        routine_charge(routines, task, base) <= base,
        routine_for(routines, task) matches Some(i) ==> routine_charge(routines, task, base)
            == if routine_cost_of(Routine { times_used: (routines[i].times_used + 1) as u32, ..routines[i] }) < base {
                routine_cost_of(Routine { times_used: (routines[i].times_used + 1) as u32, ..routines[i] })
            } else {
                base as nat
            },
{
}

/// If tokens per transaction rose at the last step of the trend (the step
/// into the current tick), the economy is not efficient; and it is only
/// efficient when no step of the trend rose.
pub proof fn lemma_efficiency_checks_every_step(e: TokenEconomy)
    ensures
        !per_tx_at_least(
            trend_point(e.ledger.transactions@, last_report_tick(e.ledger.tick) - 1),
            trend_point(e.ledger.transactions@, last_report_tick(e.ledger.tick) as int),
        ) ==> !e.efficient(),
        e.efficient() ==> forall|t: int|
            0 <= t < last_report_tick(e.ledger.tick) ==> per_tx_at_least(
                #[trigger] trend_point(e.ledger.transactions@, t),
                trend_point(e.ledger.transactions@, t + 1),
            ),
{
    let last = last_report_tick(e.ledger.tick);
    if e.efficient() {
        let t = last - 1;
        assert(per_tx_at_least(trend_point(e.ledger.transactions@, t), trend_point(e.ledger.transactions@, t + 1)));
    }
}

/// The economy report shows the cumulative abstraction savings: the line
/// `Total abstraction savings: N tokens` carries the total of every task's
/// savings so far.
pub proof fn lemma_report_shows_total_savings(e: TokenEconomy)
    ensures
        exists|i: int|
            0 <= i && i + total_savings_line(e.savings.total_savings).len() <= e.report_text().len()
                && #[trigger] e.report_text().subrange(
                i,
                i + total_savings_line(e.savings.total_savings).len(),
            ) == total_savings_line(e.savings.total_savings),
{
    let s = e.ledger.transactions@;
    let b = e.ledger.budget;
    let tasks = if cat_count(s, TokenCategory::Compilation) == 0 {
        1
    } else {
        cat_count(s, TokenCategory::Compilation)
    };
    let util = if b.total == 0 {
        "0.0"@
    } else {
        tenths_text(b.used as nat * 100, b.total as nat)
    };
    let pre = "=== Token Economy Report ===\nAgent: "@ + e.agent_id@ + "\nSessions: "@ + dec_digits(
        e.session_count as nat,
    ) + "\nBudget: "@ + dec_digits(b.total as nat) + " / Used: "@ + dec_digits(b.used as nat)
        + " / Reserved: "@ + dec_digits(b.reserved as nat) + "\nUtilization: "@ + util
        + "%\nLevel: "@ + dec_digits(e.savings.abstraction_level as nat) + " (discount: "@
        + dec_digits(discount_pct(e.savings.abstraction_level));
    let line = total_savings_line(e.savings.total_savings);
    let post = dec_digits(e.muscle.routines@.len())
        + "\nTokens/task: "@ + tenths_text(total_of(s), tasks) + "\nMost expensive category: "@
        + most_expensive_text(s) + "\nJourneyman discount: "@ + tenths_text(0, 1) + "%"@;
    assert(e.report_text() =~= pre + line + post);
    let i = pre.len() as int;
    assert(e.report_text().subrange(i, i + line.len()) =~= line);
}

/// The report line of the cumulative savings, with its neighbours.
pub open spec fn total_savings_line(total: u64) -> Seq<char> {
    "%)\nTotal abstraction savings: "@ + dec_digits(total as nat) + " tokens\nRoutines learned: "@
}

} // verus!
