use vstd::prelude::*;

use crate::budget::TokenBudget;
use crate::category::{category_name, TokenCategory};
use crate::transaction::{uuid_text, TokenTransaction};

verus! {

/// Tokens of all transactions together.
pub open spec fn total_of(s: Seq<TokenTransaction>) -> nat
    decreases s.len(),
{
    if s.len() == 0 {
        0
    } else {
        total_of(s.drop_last()) + s.last().tokens as nat
    }
}

/// Tokens of the transactions in category `c`.
pub open spec fn cat_total(s: Seq<TokenTransaction>, c: TokenCategory) -> nat
    decreases s.len(),
{
    if s.len() == 0 {
        0
    } else {
        cat_total(s.drop_last(), c) + if s.last().category == c {
            s.last().tokens as nat
        } else {
            0
        }
    }
}

/// How many transactions are in category `c`.
pub open spec fn cat_count(s: Seq<TokenTransaction>, c: TokenCategory) -> nat
    decreases s.len(),
{
    if s.len() == 0 {
        0
    } else {
        cat_count(s.drop_last(), c) + if s.last().category == c {
            1nat
        } else {
            0
        }
    }
}

/// The transactions in category `c`, in their order.
pub open spec fn by_category(s: Seq<TokenTransaction>, c: TokenCategory) -> Seq<TokenTransaction>
    decreases s.len(),
{
    if s.len() == 0 {
        Seq::empty()
    } else if s.last().category == c {
        by_category(s.drop_last(), c).push(s.last())
    } else {
        by_category(s.drop_last(), c)
    }
}

/// Tokens of the transactions made at tick `t` or before.
pub open spec fn tick_total(s: Seq<TokenTransaction>, t: u64) -> nat
    decreases s.len(),
{
    if s.len() == 0 {
        0
    } else {
        tick_total(s.drop_last(), t) + if s.last().tick <= t {
            s.last().tokens as nat
        } else {
            0
        }
    }
}

/// How many transactions were made at tick `t` or before.
pub open spec fn tick_count(s: Seq<TokenTransaction>, t: u64) -> nat
    decreases s.len(),
{
    if s.len() == 0 {
        0
    } else {
        tick_count(s.drop_last(), t) + if s.last().tick <= t {
            1nat
        } else {
            0
        }
    }
}

/// The categories that occur, each once, in the order they first occur.
pub open spec fn first_seen(s: Seq<TokenTransaction>) -> Seq<TokenCategory>
    decreases s.len(),
{
    if s.len() == 0 {
        Seq::empty()
    } else {
        let prev = first_seen(s.drop_last());
        if prev.contains(s.last().category) {
            prev
        } else {
            prev.push(s.last().category)
        }
    }
}

/// The position, among `cats`, of the first category with the largest total.
pub open spec fn best_index(cats: Seq<TokenCategory>, s: Seq<TokenTransaction>) -> int
    decreases cats.len(),
{
    if cats.len() <= 1 {
        0
    } else {
        let i = best_index(cats.drop_last(), s);
        if cat_total(s, cats.last()) > cat_total(s, cats[i]) {
            cats.len() - 1
        } else {
            i
        }
    }
}

/// The name of the category with the most tokens (the first one among
/// equals, in order of first occurrence), or `None` when nothing was spent.
pub open spec fn most_expensive_text(s: Seq<TokenTransaction>) -> Seq<char> {
    let cats = first_seen(s);
    if cats.len() == 0 {
        "None"@
    } else {
        category_name(cats[best_index(cats, s)])
    }
}

/// Tokens spent and transactions made up to a tick.
#[derive(Debug, Clone, Copy)]
pub struct TrendPoint {
    pub tokens: u64,
    pub transactions: u64,
}

/// Efficiency figures of a ledger, as exact integers: tokens per task is
/// `total_tokens / task_count`, and each trend point's tokens per
/// transaction is `tokens / transactions` (0 with no transactions).
#[derive(Debug, Clone)]
pub struct TokenEfficiencyReport {
    pub total_tokens: u64,
    /// Tasks (transactions in `Compilation`), at least 1.
    pub task_count: u64,
    pub tokens_saved_by_abstraction: u64,
    pub most_expensive_category: String,
    /// One point per tick from 0 to the current tick (at least to tick 1).
    pub efficiency_trend: Vec<TrendPoint>,
    /// Journeyman discount, in percent.
    pub journeyman_discount: u64,
}

/// Double-entry bookkeeping for tokens.
#[derive(Debug, Clone)]
pub struct TokenLedger {
    pub transactions: Vec<TokenTransaction>,
    pub budget: TokenBudget,
    pub tick: u64,
}

impl TokenLedger {
    /// The books balance: the transactions account for exactly the spent
    /// tokens, and spent and reserved tokens stay within the cap.
    pub open spec fn balanced(self) -> bool {
        &&& total_of(self.transactions@) == self.budget.used
        &&& self.budget.within_cap()
    }

    /// Every transaction was made at the current tick or before it.
    pub open spec fn ticks_recorded(self) -> bool {
        forall|i: int| 0 <= i < self.transactions@.len() ==> (#[trigger] self.transactions@[i]).tick <= self.tick
    }

    pub fn new(budget_total: u64) -> (l: Self)
        ensures
            l.ticks_recorded(),
            l.transactions@ == Seq::<TokenTransaction>::empty(),
            l.budget == TokenBudget::new_spec(budget_total),
            l.tick == 0,
            l.balanced(),
    {
        TokenLedger { transactions: Vec::new(), budget: TokenBudget::new(budget_total), tick: 0 }
    }

    /// Records a spend of `tokens` when the budget allows it; returns
    /// `false`, recording nothing, when it would go over budget.
    pub fn spend(&mut self, tokens: u64, category: TokenCategory, description: &str) -> (ok: bool)
        requires
            old(self).budget.used + old(self).budget.reserved <= u64::MAX,
        ensures
            ok <==> old(self).budget.fits(tokens),
            final(self).budget == old(self).budget.after_spend(tokens),
            final(self).tick == old(self).tick,
            ok ==> {
                &&& final(self).transactions@.len() == old(self).transactions@.len() + 1
                &&& final(self).transactions@.drop_last() == old(self).transactions@
                &&& recorded(final(self).transactions@.last(), tokens, category, description@, old(self).tick)
            },
            !ok ==> final(self).transactions@ == old(self).transactions@,
            old(self).balanced() ==> final(self).balanced(),
            old(self).ticks_recorded() ==> final(self).ticks_recorded(),
    {
        if !self.budget.spend(tokens) {
            return false;
        }
        let tx = TokenTransaction::new(tokens, category, description, self.tick);
        self.transactions.push(tx);
        assert(self.transactions@.drop_last() =~= old(self).transactions@);
        true
    }

    /// Spends tokens attributed to the task `task`, in the `Compilation` category.
    pub fn spend_for_task(&mut self, task: &str, tokens: u64) -> (ok: bool)
        requires
            old(self).budget.used + old(self).budget.reserved <= u64::MAX,
        ensures
            ok <==> old(self).budget.fits(tokens),
            final(self).budget == old(self).budget.after_spend(tokens),
            final(self).tick == old(self).tick,
            ok ==> {
                &&& final(self).transactions@.len() == old(self).transactions@.len() + 1
                &&& final(self).transactions@.drop_last() == old(self).transactions@
                &&& recorded(
                    final(self).transactions@.last(),
                    tokens,
                    TokenCategory::Compilation,
                    task@,
                    old(self).tick,
                )
            },
            !ok ==> final(self).transactions@ == old(self).transactions@,
            old(self).balanced() ==> final(self).balanced(),
            old(self).ticks_recorded() ==> final(self).ticks_recorded(),
    {
        self.spend(tokens, TokenCategory::Compilation, task)
    }

    /// The transactions in `category`, in the order they were made.
    pub fn transactions_by_category(&self, category: &TokenCategory) -> (r: Vec<&TokenTransaction>)
        ensures
            r@.len() == by_category(self.transactions@, *category).len(),
            r@.len() == cat_count(self.transactions@, *category),
            forall|i: int| 0 <= i < r@.len() ==> (#[trigger] r@[i]).category == *category,
            forall|i: int|
                0 <= i < r@.len() ==> *r@[i] == by_category(self.transactions@, *category)[i],
    {
        let n = self.transactions.len();
        let mut r: Vec<&TokenTransaction> = Vec::new();
        let mut i: usize = 0;
        while i < n
            invariant
                n == self.transactions@.len(),
                i <= n,
                r@.len() == by_category(self.transactions@.take(i as int), *category).len(),
                forall|k: int|
                    0 <= k < r@.len() ==> *r@[k] == by_category(
                        self.transactions@.take(i as int),
                        *category,
                    )[k],
            decreases n - i,
        {
            let tx = &self.transactions[i];
            assert(self.transactions@.take(i + 1).drop_last() =~= self.transactions@.take(i as int));
            if tx.category == *category {
                r.push(tx);
            }
            i = i + 1;
        }
        assert(self.transactions@.take(n as int) =~= self.transactions@);
        proof {
            lemma_by_category_is_the_category(self.transactions@, *category);
        }
        r
    }

    /// Tokens spent in `category`.
    pub fn total_by_category(&self, category: &TokenCategory) -> (total: u64)
        requires
            cat_total(self.transactions@, *category) <= u64::MAX,
        ensures
            total == cat_total(self.transactions@, *category),
    {
        let n = self.transactions.len();
        let mut total: u64 = 0;
        let mut i: usize = 0;
        while i < n
            invariant
                n == self.transactions@.len(),
                i <= n,
                total == cat_total(self.transactions@.take(i as int), *category),
                cat_total(self.transactions@, *category) <= u64::MAX,
            decreases n - i,
        {
            assert(self.transactions@.take(i + 1).drop_last() =~= self.transactions@.take(i as int));
            proof {
                lemma_prefix_totals(self.transactions@, i + 1);
                assert(cat_total(self.transactions@.take(i + 1), *category) <= cat_total(
                    self.transactions@,
                    *category,
                ));
            }
            if self.transactions[i].category == *category {
                total = total + self.transactions[i].tokens;
            }
            i = i + 1;
        }
        assert(self.transactions@.take(n as int) =~= self.transactions@);
        total
    }

    /// Every category that occurs, once, with its total, in the order the
    /// categories first occur.
    pub fn category_breakdown(&self) -> (b: Vec<(TokenCategory, u64)>)
        requires
            forall|c: TokenCategory| cat_total(self.transactions@, c) <= u64::MAX,
        ensures
            b@.len() == first_seen(self.transactions@).len(),
            forall|i: int|
                0 <= i < b@.len() ==> (#[trigger] b@[i]).0 == first_seen(self.transactions@)[i]
                    && b@[i].1 == cat_total(self.transactions@, b@[i].0),
    {
        let n = self.transactions.len();
        let mut b: Vec<(TokenCategory, u64)> = Vec::new();
        let mut i: usize = 0;
        while i < n
            invariant
                n == self.transactions@.len(),
                i <= n,
                forall|c: TokenCategory| cat_total(self.transactions@, c) <= u64::MAX,
                b@.len() == first_seen(self.transactions@.take(i as int)).len(),
                forall|k: int|
                    0 <= k < b@.len() ==> (#[trigger] b@[k]).0 == first_seen(
                        self.transactions@.take(i as int),
                    )[k] && b@[k].1 == cat_total(self.transactions@.take(i as int), b@[k].0),
            decreases n - i,
        {
            let ghost prev = self.transactions@.take(i as int);
            let ghost next = self.transactions@.take(i + 1);
            assert(next.drop_last() =~= prev);
            assert(next.last() == self.transactions@[i as int]);
            proof {
                lemma_prefix_totals(self.transactions@, i + 1);
            }
            let c = self.transactions[i].category;
            let t = self.transactions[i].tokens;
            let pos = position_of(&b, c);
            if let Some(j) = pos {
                assert(first_seen(prev)[j as int] == c);
                assert(first_seen(prev).contains(c));
                assert(cat_total(next, c) == cat_total(prev, c) + t);
                assert(cat_total(next, c) <= cat_total(self.transactions@, c));
                let v = b[j].1;
                b.set(j, (c, v + t));
                proof {
                    assert forall|k: int| 0 <= k < b@.len() implies (#[trigger] b@[k]).0
                        == first_seen(next)[k] && b@[k].1 == cat_total(next, b@[k].0) by {
                        if k != j {
                            assert(first_seen(prev)[k] != c) by {
                                lemma_first_seen_distinct(prev);
                            }
                        }
                    }
                }
            } else {
                assert(!first_seen(prev).contains(c)) by {
                    if first_seen(prev).contains(c) {
                        let k = choose|k: int| 0 <= k < first_seen(prev).len() && first_seen(prev)[k] == c;
                        assert(b@[k].0 == c);
                    }
                }
                assert(cat_total(next, c) == cat_total(prev, c) + t);
                assert(cat_total(prev, c) == 0) by {
                    lemma_absent_category_total(prev, c);
                }
                b.push((c, t));
                proof {
                    assert forall|k: int| 0 <= k < b@.len() implies (#[trigger] b@[k]).0
                        == first_seen(next)[k] && b@[k].1 == cat_total(next, b@[k].0) by {
                        if k < b@.len() - 1 {
                            assert(first_seen(prev)[k] != c);
                        }
                    }
                }
            }
            i = i + 1;
        }
        assert(self.transactions@.take(n as int) =~= self.transactions@);
        b
    }

    /// Efficiency figures: total tokens, tasks, the most expensive category,
    /// and for every tick from 0 to the current one (at least to tick 1) the
    /// tokens and transactions up to that tick.
    pub fn efficiency_report(&self) -> (r: TokenEfficiencyReport)
        requires
            total_of(self.transactions@) <= u64::MAX,
        ensures
            r.total_tokens == total_of(self.transactions@),
            r.task_count == (if cat_count(self.transactions@, TokenCategory::Compilation) == 0 {
                1
            } else {
                cat_count(self.transactions@, TokenCategory::Compilation)
            }),
            r.tokens_saved_by_abstraction == 0,
            r.journeyman_discount == 0,
            r.most_expensive_category@ == most_expensive_text(self.transactions@),
            r.efficiency_trend@.len() == (if self.tick == 0 { 1 } else { self.tick }) + 1,
            forall|t: int|
                0 <= t < r.efficiency_trend@.len() ==> (#[trigger] r.efficiency_trend@[t]).tokens
                    == tick_total(self.transactions@, t as u64)
                    && r.efficiency_trend@[t].transactions == tick_count(
                    self.transactions@,
                    t as u64,
                ),
            self.ticks_recorded() ==> r.efficiency_trend@.last().tokens == r.total_tokens
                && r.efficiency_trend@.last().transactions == self.transactions@.len(),
    {
        proof {
            let last_tick: u64 = if self.tick == 0 { 1 } else { self.tick };
            if self.ticks_recorded() {
                lemma_trend_at_last_tick(self.transactions@, last_tick);
            }
            assert forall|c: TokenCategory| cat_total(self.transactions@, c) <= u64::MAX by {
                lemma_totals_bounded(self.transactions@, c, 0);
            }
        }
        let n = self.transactions.len();
        // totals
        let mut total_tokens: u64 = 0;
        let mut tasks: u64 = 0;
        let mut i: usize = 0;
        while i < n
            invariant
                n == self.transactions@.len(),
                i <= n,
                total_of(self.transactions@) <= u64::MAX,
                total_tokens == total_of(self.transactions@.take(i as int)),
                tasks == cat_count(self.transactions@.take(i as int), TokenCategory::Compilation),
                tasks <= i,
            decreases n - i,
        {
            assert(self.transactions@.take(i + 1).drop_last() =~= self.transactions@.take(i as int));
            proof {
                lemma_prefix_totals(self.transactions@, i + 1);
            }
            total_tokens = total_tokens + self.transactions[i].tokens;
            if self.transactions[i].category == TokenCategory::Compilation {
                tasks = tasks + 1;
            }
            i = i + 1;
        }
        assert(self.transactions@.take(n as int) =~= self.transactions@);
        let task_count: u64 = if tasks == 0 { 1 } else { tasks };
        // most expensive category
        let breakdown = self.category_breakdown();
        let ghost cats = first_seen(self.transactions@);
        let most_expensive_category = if breakdown.len() == 0 {
            proof { reveal_strlit("None"); }
            String::from_str("None")
        } else {
            let m = breakdown.len();
            let mut best: usize = 0;
            let mut k: usize = 1;
            assert(cats.take(1).len() == 1);
            while k < m
                invariant
                    m == breakdown@.len(),
                    m == cats.len(),
                    1 <= k <= m,
                    best < k,
                    best == best_index(cats.take(k as int), self.transactions@),
                    forall|q: int|
                        0 <= q < breakdown@.len() ==> (#[trigger] breakdown@[q]).0 == cats[q]
                            && breakdown@[q].1 == cat_total(self.transactions@, breakdown@[q].0),
                decreases m - k,
            {
                let ghost prefix = cats.take(k + 1);
                assert(prefix.drop_last() =~= cats.take(k as int));
                assert(prefix.last() == cats[k as int]);
                assert(prefix[best as int] == cats[best as int]);
                if breakdown[k].1 > breakdown[best].1 {
                    best = k;
                }
                k = k + 1;
            }
            assert(cats.take(m as int) =~= cats);
            breakdown[best].0.to_string()
        };
        // trend
        let max_tick: u64 = if self.tick == 0 { 1 } else { self.tick };
        let mut trend: Vec<TrendPoint> = Vec::new();
        let mut t: u64 = 0;
        loop
            invariant_except_break
                t <= max_tick,
                trend@.len() == t,
            invariant
                total_of(self.transactions@) <= u64::MAX,
                forall|q: int|
                    0 <= q < trend@.len() ==> (#[trigger] trend@[q]).tokens == tick_total(
                        self.transactions@,
                        q as u64,
                    ) && trend@[q].transactions == tick_count(self.transactions@, q as u64),
            ensures
                trend@.len() == max_tick + 1,
            decreases max_tick - t,
        {
            let p = self.point_at(t);
            trend.push(p);
            if t == max_tick {
                break;
            }
            t = t + 1;
        }
        TokenEfficiencyReport {
            total_tokens,
            task_count,
            tokens_saved_by_abstraction: 0,
            most_expensive_category,
            efficiency_trend: trend,
            journeyman_discount: 0,
        }
    }

    /// Tokens spent and transactions made at tick `t` or before.
    fn point_at(&self, t: u64) -> (p: TrendPoint)
        requires
            total_of(self.transactions@) <= u64::MAX,
        ensures
            p.tokens == tick_total(self.transactions@, t),
            p.transactions == tick_count(self.transactions@, t),
    {
        let n = self.transactions.len();
        let mut tokens: u64 = 0;
        let mut count: u64 = 0;
        let mut i: usize = 0;
        proof {
            lemma_totals_bounded(self.transactions@, TokenCategory::Compilation, t);
        }
        while i < n
            invariant
                n == self.transactions@.len(),
                i <= n,
                tick_total(self.transactions@, t) <= u64::MAX,
                tokens == tick_total(self.transactions@.take(i as int), t),
                count == tick_count(self.transactions@.take(i as int), t),
                count <= i,
            decreases n - i,
        {
            assert(self.transactions@.take(i + 1).drop_last() =~= self.transactions@.take(i as int));
            proof {
                lemma_prefix_totals(self.transactions@, i + 1);
                assert(tick_total(self.transactions@.take(i + 1), t) <= tick_total(
                    self.transactions@,
                    t,
                ));
            }
            if self.transactions[i].tick <= t {
                tokens = tokens + self.transactions[i].tokens;
                count = count + 1;
            }
            i = i + 1;
        }
        assert(self.transactions@.take(n as int) =~= self.transactions@);
        TrendPoint { tokens, transactions: count }
    }

    /// Advances the time counter.
    pub fn tick(&mut self)
        requires
            old(self).tick < u64::MAX,
        ensures
            final(self).tick == old(self).tick + 1,
            final(self).transactions@ == old(self).transactions@,
            final(self).budget == old(self).budget,
            old(self).ticks_recorded() ==> final(self).ticks_recorded(),
    {
        self.tick = self.tick + 1;
    }
}

/// `tx` records `tokens` in `category` with `description` at `tick`, under a
/// fresh identifier.
pub open spec fn recorded(
    tx: TokenTransaction,
    tokens: u64,
    category: TokenCategory,
    description: Seq<char>,
    tick: u64,
) -> bool {
    &&& tx.tokens == tokens
    &&& tx.category == category
    &&& tx.description@ == description
    &&& tx.tick == tick
    &&& exists|ts: u128| tx.id@ == uuid_text(ts)
}

/// Every total over a prefix is at most the total over the whole.
pub proof fn lemma_prefix_totals(s: Seq<TokenTransaction>, i: int)
    requires
        0 <= i <= s.len(),
    ensures
        total_of(s.take(i)) <= total_of(s),
        forall|c: TokenCategory| #[trigger] cat_total(s.take(i), c) <= cat_total(s, c),
        forall|t: u64| #[trigger] tick_total(s.take(i), t) <= tick_total(s, t),
    decreases s.len(),
{
    if i == s.len() {
        assert(s.take(i) =~= s);
    } else {
        assert(s.take(i) =~= s.drop_last().take(i));
        lemma_prefix_totals(s.drop_last(), i);
    }
}

/// A category's total, and the total up to any tick, are at most the total
/// of all transactions.
pub proof fn lemma_totals_bounded(s: Seq<TokenTransaction>, c: TokenCategory, t: u64)
    ensures
        cat_total(s, c) <= total_of(s),
        tick_total(s, t) <= total_of(s),
    decreases s.len(),
{
    if s.len() > 0 {
        lemma_totals_bounded(s.drop_last(), c, t);
    }
}

/// The position of `c` among the breakdown's categories, if it is there.
fn position_of(b: &Vec<(TokenCategory, u64)>, c: TokenCategory) -> (pos: Option<usize>)
    ensures
        match pos {
            Some(j) => j < b@.len() && b@[j as int].0 == c,
            None => forall|k: int| 0 <= k < b@.len() ==> (#[trigger] b@[k]).0 != c,
        },
{
    let m = b.len();
    let mut j: usize = 0;
    while j < m
        invariant
            m == b@.len(),
            j <= m,
            forall|k: int| 0 <= k < j ==> (#[trigger] b@[k]).0 != c,
        decreases m - j,
    {
        if b[j].0 == c {
            return Some(j);
        }
        j = j + 1;
    }
    None
}

/// A category that never occurs has no tokens.
pub proof fn lemma_absent_category_total(s: Seq<TokenTransaction>, c: TokenCategory)
    requires
        !first_seen(s).contains(c),
    ensures
        cat_total(s, c) == 0,
    decreases s.len(),
{
    if s.len() > 0 {
        let prev = first_seen(s.drop_last());
        if prev.contains(c) {
            let k = choose|k: int| 0 <= k < prev.len() && prev[k] == c;
            if prev.contains(s.last().category) {
                assert(first_seen(s)[k] == c);
            } else {
                assert(first_seen(s)[k] == c);
            }
        }
        if s.last().category == c {
            if prev.contains(c) {
            } else {
                assert(first_seen(s).last() == c);
            }
        }
        lemma_absent_category_total(s.drop_last(), c);
    }
}

/// No category occurs twice in `first_seen`.
pub proof fn lemma_first_seen_distinct(s: Seq<TokenTransaction>)
    ensures
        forall|i: int, j: int|
            0 <= i < j < first_seen(s).len() ==> first_seen(s)[i] != first_seen(s)[j],
    decreases s.len(),
{
    if s.len() > 0 {
        lemma_first_seen_distinct(s.drop_last());
        let prev = first_seen(s.drop_last());
        if !prev.contains(s.last().category) {
            assert forall|i: int, j: int|
                0 <= i < j < first_seen(s).len() implies first_seen(s)[i] != first_seen(s)[j] by {
                if j == prev.len() {
                    assert(first_seen(s)[i] == prev[i]);
                    if prev[i] == s.last().category {
                        assert(prev.contains(s.last().category));
                    }
                }
            }
        }
    }
}

/// Tokens of the listed categories together.
pub open spec fn sum_over(cats: Seq<TokenCategory>, s: Seq<TokenTransaction>) -> nat
    decreases cats.len(),
{
    if cats.len() == 0 {
        0
    } else {
        sum_over(cats.drop_last(), s) + cat_total(s, cats.last())
    }
}

/// Adding a transaction adds its tokens to the sum over distinct categories
/// exactly when its category is among them.
proof fn lemma_sum_over_push(cats: Seq<TokenCategory>, s: Seq<TokenTransaction>, x: TokenTransaction)
    requires
        forall|i: int, j: int| 0 <= i < j < cats.len() ==> cats[i] != cats[j],
    ensures
        sum_over(cats, s.push(x)) == sum_over(cats, s) + if cats.contains(x.category) {
            x.tokens as nat
        } else {
            0
        },
    decreases cats.len(),
{
    assert(s.push(x).drop_last() =~= s);
    if cats.len() > 0 {
        let rest = cats.drop_last();
        lemma_sum_over_push(rest, s, x);
        if cats.last() == x.category {
            assert(!rest.contains(x.category)) by {
                if rest.contains(x.category) {
                    let k = choose|k: int| 0 <= k < rest.len() && rest[k] == x.category;
                    assert(cats[k] == cats[cats.len() - 1]);
                }
            }
            assert(cats.contains(x.category)) by {
                assert(cats[cats.len() - 1] == x.category);
            }
        } else {
            if rest.contains(x.category) {
                let k = choose|k: int| 0 <= k < rest.len() && rest[k] == x.category;
                assert(cats[k] == x.category);
            }
            if cats.contains(x.category) {
                let k = choose|k: int| 0 <= k < cats.len() && cats[k] == x.category;
                assert(rest[k] == x.category);
            }
        }
    }
}

/// The breakdown accounts for every token: the totals of the categories that
/// occur add up to the tokens of all transactions.
pub proof fn lemma_breakdown_accounts_for_all(s: Seq<TokenTransaction>)
    ensures
        sum_over(first_seen(s), s) == total_of(s),
    decreases s.len(),
{
    if s.len() > 0 {
        let prev = s.drop_last();
        let x = s.last();
        assert(prev.push(x) =~= s);
        lemma_breakdown_accounts_for_all(prev);
        lemma_first_seen_distinct(prev);
        let f = first_seen(prev);
        lemma_sum_over_push(f, prev, x);
        if !f.contains(x.category) {
            assert(f.push(x.category).drop_last() =~= f);
            lemma_absent_category_total(prev, x.category);
        }
    }
}

/// The category picked as most expensive has a total at least that of every
/// category that occurs.
pub proof fn lemma_most_expensive_is_max(cats: Seq<TokenCategory>, s: Seq<TokenTransaction>)
    requires
        cats.len() > 0,
    ensures
        0 <= best_index(cats, s) < cats.len(),
        forall|j: int|
            0 <= j < cats.len() ==> cat_total(s, #[trigger] cats[j]) <= cat_total(
                s,
                cats[best_index(cats, s)],
            ),
    decreases cats.len(),
{
    if cats.len() > 1 {
        let rest = cats.drop_last();
        lemma_most_expensive_is_max(rest, s);
        assert forall|j: int| 0 <= j < cats.len() implies cat_total(s, #[trigger] cats[j])
            <= cat_total(s, cats[best_index(cats, s)]) by {
            if j < cats.len() - 1 {
                assert(rest[j] == cats[j]);
            }
        }
    }
}

/// The transactions listed for a category are exactly that category's: as
/// many as it has, each in it, each taken from the ledger, and together
/// holding the category's total.
pub proof fn lemma_by_category_is_the_category(s: Seq<TokenTransaction>, c: TokenCategory)
    ensures
        by_category(s, c).len() == cat_count(s, c),
        total_of(by_category(s, c)) == cat_total(s, c),
        forall|k: int| 0 <= k < by_category(s, c).len() ==> (#[trigger] by_category(s, c)[k]).category == c,
        forall|k: int| 0 <= k < by_category(s, c).len() ==> s.contains(#[trigger] by_category(s, c)[k]),
    decreases s.len(),
{
    if s.len() > 0 {
        let prev = s.drop_last();
        lemma_by_category_is_the_category(prev, c);
        let b = by_category(prev, c);
        if s.last().category == c {
            assert(b.push(s.last()).drop_last() =~= b);
            assert forall|k: int| 0 <= k < by_category(s, c).len() implies s.contains(#[trigger] by_category(s, c)[k]) by {
                if k < b.len() {
                    assert(prev.contains(b[k]));
                    let j = choose|j: int| 0 <= j < prev.len() && prev[j] == b[k];
                    assert(s[j] == b[k]);
                } else {
                    assert(s[s.len() - 1] == s.last());
                }
            }
        } else {
            assert forall|k: int| 0 <= k < by_category(s, c).len() implies s.contains(#[trigger] by_category(s, c)[k]) by {
                assert(prev.contains(b[k]));
                let j = choose|j: int| 0 <= j < prev.len() && prev[j] == b[k];
                assert(s[j] == b[k]);
            }
        }
    }
}

/// Once every transaction is made at tick `t` or before, the trend point of
/// tick `t` holds every token and every transaction, of every category.
pub proof fn lemma_trend_at_last_tick(s: Seq<TokenTransaction>, t: u64)
    requires
        forall|i: int| 0 <= i < s.len() ==> (#[trigger] s[i]).tick <= t,
    ensures
        tick_total(s, t) == total_of(s),
        tick_count(s, t) == s.len(),
    decreases s.len(),
{
    if s.len() > 0 {
        let prev = s.drop_last();
        assert forall|i: int| 0 <= i < prev.len() implies (#[trigger] prev[i]).tick <= t by {
            assert(prev[i] == s[i]);
        }
        assert(s[s.len() - 1].tick <= t);
        lemma_trend_at_last_tick(prev, t);
    }
}

} // verus!
