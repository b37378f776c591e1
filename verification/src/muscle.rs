use vstd::prelude::*;

use crate::text::{dec_digits, dec_string, name_matches_task, names_task, str_eq};

verus! {

/// A compiled routine in muscle memory.
#[derive(Debug, Clone)]
pub struct Routine {
    pub name: String,
    pub domain: String,
    /// What the task used to cost
    pub tokens_before: u64,
    /// What it costs now
    pub tokens_after: u64,
    pub times_used: u32,
    pub level: u32,
}

/// `original` tokens after `uses` uses at 5% decay each:
/// `original × max(0, 1 − uses × 0.05)`, rounded to the nearest token
/// (halves up).
pub open spec fn decayed_cost(original: nat, uses: nat) -> nat {
    if uses >= 20 {
        0
    } else {
        (original * (20 - uses) as nat + 10) / 20
    }
}

/// What a routine costs now: its decayed cost, halved (rounding down) from
/// level 3, nothing from level 5.
pub open spec fn routine_cost_of(r: Routine) -> nat {
    if r.level >= 5 {
        0
    } else if r.level >= 3 {
        decayed_cost(r.tokens_before as nat, r.times_used as nat) / 2
    } else {
        decayed_cost(r.tokens_before as nat, r.times_used as nat)
    }
}

/// No two routines share a name.
pub open spec fn names_distinct(s: Seq<Routine>) -> bool {
    forall|i: int, j: int| 0 <= i < s.len() && 0 <= j < s.len() && i != j ==> s[i].name@ != s[j].name@
}

/// `i` is the first position of a routine called `name`.
pub open spec fn first_named(s: Seq<Routine>, name: Seq<char>, i: int) -> bool {
    &&& 0 <= i < s.len()
    &&& s[i].name@ == name
    &&& forall|j: int| 0 <= j < i ==> s[j].name@ != name
}

/// Some routine is called `name`.
pub open spec fn has_named(s: Seq<Routine>, name: Seq<char>) -> bool {
    exists|i: int| 0 <= i < s.len() && s[i].name@ == name
}

/// `i` is the first position of a routine that matches `task`.
pub open spec fn first_matching(s: Seq<Routine>, task: Seq<char>, i: int) -> bool {
    &&& 0 <= i < s.len()
    &&& names_task(s[i].name@, task)
    &&& forall|j: int| 0 <= j < i ==> !names_task(s[j].name@, task)
}

/// A routine just learned: nothing used yet, at level 1.
pub open spec fn fresh_routine(r: Routine, name: Seq<char>, domain: Seq<char>, cost: u64) -> bool {
    &&& r.name@ == name
    &&& r.domain@ == domain
    &&& r.tokens_before == cost
    &&& r.tokens_after == cost
    &&& r.times_used == 0
    &&& r.level == 1
}

/// A routine after one more use: the count goes up by one and the current
/// cost is stored.
pub open spec fn used_once_more(before: Routine, after: Routine) -> bool {
    &&& after.name == before.name
    &&& after.domain == before.domain
    &&& after.tokens_before == before.tokens_before
    &&& after.times_used == before.times_used + 1
    &&& after.level == before.level
    &&& after.tokens_after == routine_cost_of(after)
}

/// One line of the routines report.
pub open spec fn routine_line(r: Routine) -> Seq<char> {
    r.name@ + " ["@ + r.domain@ + "] | before: "@ + dec_digits(r.tokens_before as nat)
        + " | after: "@ + dec_digits(r.tokens_after as nat) + " | used: "@ + dec_digits(
        r.times_used as nat,
    ) + " | level: "@ + dec_digits(r.level as nat)
}

/// The lines of all routines, in order, joined by newlines.
pub open spec fn routine_lines(s: Seq<Routine>) -> Seq<char>
    decreases s.len(),
{
    if s.len() == 0 {
        Seq::empty()
    } else if s.len() == 1 {
        routine_line(s[0])
    } else {
        routine_lines(s.drop_last()) + "\n"@ + routine_line(s.last())
    }
}

/// The routines report: a line per routine, or a note that there are none.
pub open spec fn routines_report_text(s: Seq<Routine>) -> Seq<char> {
    if s.len() == 0 {
        "No routines learned yet."@
    } else {
        routine_lines(s)
    }
}

/// Routines that cost zero (or near-zero) context tokens.
///
/// Cost decay: starts at `original_cost`, decreases by 5% per use,
/// minimum 0.
///
/// Level milestones:
/// - Level 3 → half cost
/// - Level 5 → free
#[derive(Debug, Clone)]
pub struct MuscleMemory {
    pub routines: Vec<Routine>,
}

impl MuscleMemory {
    /// Every routine is known by a single name.
    pub open spec fn wf(self) -> bool {
        names_distinct(self.routines@)
    }

    pub fn new() -> (m: Self)
        ensures
            m.routines@ == Seq::<Routine>::empty(),
            m.wf(),
    {
        MuscleMemory { routines: Vec::new() }
    }

    /// The position of the routine called `name`, if there is one.
    pub fn find_routine(&self, name: &str) -> (i: Option<usize>)
        ensures
            match i {
                Some(i) => first_named(self.routines@, name@, i as int),
                None => !has_named(self.routines@, name@),
            },
    {
        let n = self.routines.len();
        let mut i: usize = 0;
        while i < n
            invariant
                n == self.routines@.len(),
                i <= n,
                forall|j: int| 0 <= j < i ==> self.routines@[j].name@ != name@,
            decreases n - i,
        {
            if str_eq(self.routines[i].name.as_str(), name) {
                return Some(i);
            }
            i = i + 1;
        }
        None
    }

    /// The position of the first routine that matches `task`: one with the
    /// task's own name, or whose name followed by `:` starts the task.
    pub fn find_task_routine(&self, task: &str) -> (i: Option<usize>)
        ensures
            match i {
                Some(i) => first_matching(self.routines@, task@, i as int),
                None => forall|j: int|
                    0 <= j < self.routines@.len() ==> !names_task(
                        #[trigger] self.routines@[j].name@,
                        task@,
                    ),
            },
    {
        let n = self.routines.len();
        let mut i: usize = 0;
        while i < n
            invariant
                n == self.routines@.len(),
                i <= n,
                forall|j: int| 0 <= j < i ==> !names_task(#[trigger] self.routines@[j].name@, task@),
            decreases n - i,
        {
            if name_matches_task(self.routines[i].name.as_str(), task) {
                return Some(i);
            }
            i = i + 1;
        }
        None
    }

    /// Adds a routine to memory; one of the same name is replaced.
    pub fn learn(&mut self, name: &str, domain: &str, original_cost: u64)
        ensures
            match old(self).find_routine_spec(name@) {
                Some(i) => {
                    &&& final(self).routines@.len() == old(self).routines@.len()
                    &&& fresh_routine(final(self).routines@[i], name@, domain@, original_cost)
                    &&& forall|j: int|
                        0 <= j < old(self).routines@.len() && j != i ==> final(self).routines@[j]
                            == old(self).routines@[j]
                },
                None => {
                    &&& final(self).routines@.len() == old(self).routines@.len() + 1
                    &&& fresh_routine(
                        final(self).routines@.last(),
                        name@,
                        domain@,
                        original_cost,
                    )
                    &&& final(self).routines@.drop_last() == old(self).routines@
                },
            },
            old(self).wf() ==> final(self).wf(),
            final(self).find_routine_spec(name@) matches Some(i) && fresh_routine(
                final(self).routines@[i],
                name@,
                domain@,
                original_cost,
            ) && routine_cost_of(final(self).routines@[i]) == original_cost,
    {
        let level: u32 = 1;
        let r = Routine {
            name: name.to_owned(),
            domain: domain.to_owned(),
            tokens_before: original_cost,
            tokens_after: original_cost,
            times_used: 0,
            level,
        };
        match self.find_routine(name) {
            Some(i) => {
                self.routines.set(i, r);
                assert(self.routines@[i as int].name@ == name@);
                proof {
                    lemma_first_named_unique(self.routines@, name@, i as int);
                    lemma_fresh_routine_costs_original(self.routines@[i as int], name@, domain@, original_cost);
                }
            },
            None => {
                self.routines.push(r);
                assert(self.routines@.drop_last() =~= old(self).routines@);
                let ghost last = self.routines@.len() - 1;
                assert(self.routines@[last].name@ == name@);
                proof {
                    lemma_first_named_unique(self.routines@, name@, last);
                    lemma_fresh_routine_costs_original(self.routines@[last], name@, domain@, original_cost);
                }
            },
        }
    }

    /// The position of the first routine called `name`, if any.
    pub open spec fn find_routine_spec(self, name: Seq<char>) -> Option<int> {
        if has_named(self.routines@, name) {
            Some(choose|i: int| first_named(self.routines@, name, i))
        } else {
            None
        }
    }

    /// Uses the routine called `name`: counts the use and returns its cost
    /// after decay, which is also stored as its current cost. An unknown
    /// routine costs 0 and nothing changes.
    pub fn use_routine(&mut self, name: &str) -> (cost: u64)
        requires
            forall|j: int|
                first_named(old(self).routines@, name@, j) ==> old(self).routines@[j].times_used
                    < u32::MAX,
        ensures
            match old(self).find_routine_spec(name@) {
                Some(i) => {
                    &&& final(self).routines@.len() == old(self).routines@.len()
                    &&& used_once_more(old(self).routines@[i], final(self).routines@[i])
                    &&& cost == routine_cost_of(final(self).routines@[i])
                    &&& forall|j: int|
                        0 <= j < old(self).routines@.len() && j != i ==> final(self).routines@[j]
                            == old(self).routines@[j]
                },
                None => cost == 0 && *final(self) == *old(self),
            },
            final(self).find_routine_spec(name@) == old(self).find_routine_spec(name@),
            match final(self).find_routine_spec(name@) {
                Some(i) => routine_cost_of(final(self).routines@[i]) == cost
                    && final(self).routines@[i].tokens_after == cost,
                None => cost == 0,
            },
            old(self).wf() ==> final(self).wf(),
    {
        match self.find_routine(name) {
            None => {
                proof {
                    assert(old(self).find_routine_spec(name@) is None);
                }
                0
            },
            Some(i) => {
                proof {
                    lemma_first_named_unique(self.routines@, name@, i as int);
                }
                let mut r = self.routines[i].clone_routine();
                r.times_used = r.times_used + 1;
                let cost = routine_cost_value(&r);
                r.tokens_after = cost;
                self.routines.set(i, r);
                proof {
                    assert forall|j: int| 0 <= j < i implies self.routines@[j].name@ != name@ by {
                        assert(self.routines@[j] == old(self).routines@[j]);
                    }
                    lemma_first_named_unique(self.routines@, name@, i as int);
                }
                cost
            },
        }
    }

    /// The current cost of the routine called `name` after all discounts
    /// and decay; 0 when there is none.
    pub fn routine_cost(&self, name: &str) -> (cost: u64)
        ensures
            match self.find_routine_spec(name@) {
                Some(i) => cost == routine_cost_of(self.routines@[i]),
                None => cost == 0,
            },
    {
        match self.find_routine(name) {
            None => 0,
            Some(i) => {
                proof {
                    lemma_first_named_unique(self.routines@, name@, i as int);
                }
                routine_cost_value(&self.routines[i])
            },
        }
    }

    /// Whether the routine called `name` exists and costs nothing.
    pub fn is_free(&self, name: &str) -> (free: bool)
        ensures
            free == match self.find_routine_spec(name@) {
                Some(i) => routine_cost_of(self.routines@[i]) == 0,
                None => false,
            },
    {
        match self.find_routine(name) {
            None => false,
            Some(_) => self.routine_cost(name) == 0,
        }
    }

    /// One line per routine with its name, domain, costs, uses and level.
    pub fn routines_report(&self) -> (r: String)
        ensures
            r@ == routines_report_text(self.routines@),
    {
        let n = self.routines.len();
        if n == 0 {
            return String::from_str("No routines learned yet.");
        }
        let mut out = String::new();
        let mut i: usize = 0;
        while i < n
            invariant
                n == self.routines@.len(),
                n > 0,
                i <= n,
                out@ == routine_lines(self.routines@.take(i as int)),
            decreases n - i,
        {
            let ghost before = out@;
            if i > 0 {
                out.append("\n");
            }
            let line = routine_line_string(&self.routines[i]);
            out.append(line.as_str());
            assert(self.routines@.take(i + 1).drop_last() =~= self.routines@.take(i as int));
            assert(self.routines@.take(i + 1).last() == self.routines@[i as int]);
            if i == 0 {
                assert(before =~= Seq::<char>::empty());
                assert(out@ =~= routine_line(self.routines@[0]));
            }
            i = i + 1;
        }
        assert(self.routines@.take(n as int) =~= self.routines@);
        out
    }
}

impl Default for MuscleMemory {
    fn default() -> (m: Self)
        ensures
            m.routines@ == Seq::<Routine>::empty(),
    {
        Self::new()
    }
}

impl Routine {
    /// A copy of the routine with equal fields.
    pub fn clone_routine(&self) -> (r: Routine)
        ensures
            r == *self,
    {
        Routine {
            name: self.name.clone(),
            domain: self.domain.clone(),
            tokens_before: self.tokens_before,
            tokens_after: self.tokens_after,
            times_used: self.times_used,
            level: self.level,
        }
    }
}

/// What the routine costs now.
fn routine_cost_value(r: &Routine) -> (cost: u64)
    ensures
        cost == routine_cost_of(*r),
{
    if r.level >= 5 {
        return 0;
    }
    let decayed: u64 = if r.times_used >= 20 {
        0
    } else {
        let k: u128 = (20 - r.times_used) as u128;
        let orig: u128 = r.tokens_before as u128;
        assert(orig * k <= 20 * 0xFFFF_FFFF_FFFF_FFFFu128) by (nonlinear_arith)
            requires
                k <= 20,
                orig <= 0xFFFF_FFFF_FFFF_FFFFu128,
        ;
        let d: u128 = (orig * k + 10) / 20;
        assert(d <= orig) by (nonlinear_arith)
            requires
                k <= 20,
                d == (orig * k + 10) / 20,
        ;
        d as u64
    };
    if r.level >= 3 {
        decayed / 2
    } else {
        decayed
    }
}

/// One line of the routines report.
fn routine_line_string(r: &Routine) -> (s: String)
    ensures
        s@ == routine_line(*r),
{
    let mut s = r.name.clone();
    s.append(" [");
    s.append(r.domain.as_str());
    s.append("] | before: ");
    s.append(dec_string(r.tokens_before as u128).as_str());
    s.append(" | after: ");
    s.append(dec_string(r.tokens_after as u128).as_str());
    s.append(" | used: ");
    s.append(dec_string(r.times_used as u128).as_str());
    s.append(" | level: ");
    s.append(dec_string(r.level as u128).as_str());
    s
}

/// The first position of a name is the one `find_routine_spec` picks.
pub proof fn lemma_first_named_unique(s: Seq<Routine>, name: Seq<char>, i: int)
    requires
        first_named(s, name, i),
    ensures
        has_named(s, name),
        (choose|k: int| first_named(s, name, k)) == i,
{
    assert(has_named(s, name));
    let k = choose|k: int| first_named(s, name, k);
    assert(first_named(s, name, k));
    if k < i {
        assert(s[k].name@ != name);
    } else if k > i {
        assert(s[i].name@ != name);
    }
}

/// A routine just learned costs exactly what it was learned with.
pub proof fn lemma_fresh_routine_costs_original(r: Routine, name: Seq<char>, domain: Seq<char>, cost: u64)
    requires
        fresh_routine(r, name, domain, cost),
    ensures
        routine_cost_of(r) == cost,
{
    assert((cost * 20nat + 10) / 20 == cost) by (nonlinear_arith);
}

/// Decay never raises a cost: more uses cost no more, no use costs more than
/// the original, and from 20 uses on the routine is free.
pub proof fn lemma_decay_monotone(original: nat, u1: nat, u2: nat)
    requires
        u1 <= u2,
    ensures
        decayed_cost(original, u2) <= decayed_cost(original, u1),
        decayed_cost(original, u1) <= original,
        u2 >= 20 ==> decayed_cost(original, u2) == 0,
{
    if u2 < 20 {
        let k1 = (20 - u1) as nat;
        let k2 = (20 - u2) as nat;
        assert((original * k2 + 10) / 20 <= (original * k1 + 10) / 20) by (nonlinear_arith)
            requires
                k2 <= k1,
        ;
    }
    if u1 < 20 {
        let k1 = (20 - u1) as nat;
        assert((original * k1 + 10) / 20 <= original) by (nonlinear_arith)
            requires
                k1 <= 20,
        ;
    }
}

/// Level milestones: from level 5 a routine is free, at levels 3 and 4 it
/// costs half its decayed cost, and it never costs more than it was learned
/// with.
pub proof fn lemma_routine_level_milestones(r: Routine)
    ensures
        r.level >= 5 ==> routine_cost_of(r) == 0,
        3 <= r.level < 5 ==> routine_cost_of(r) == decayed_cost(
            r.tokens_before as nat,
            r.times_used as nat,
        ) / 2,
        routine_cost_of(r) <= r.tokens_before,
{
    lemma_decay_monotone(r.tokens_before as nat, r.times_used as nat, r.times_used as nat);
}

/// Each use leaves a routine no more expensive than before it.
pub proof fn lemma_use_never_raises_cost(before: Routine, after: Routine)
    requires
        used_once_more(before, after),
    ensures
        routine_cost_of(after) <= routine_cost_of(before),
{
    lemma_decay_monotone(
        before.tokens_before as nat,
        before.times_used as nat,
        after.times_used as nat,
    );
}

} // verus!
