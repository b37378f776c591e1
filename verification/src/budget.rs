use vstd::prelude::*;

verus! {

/// The token budget for a session: a hard cap, what was spent, and what is
/// set aside for later.
#[derive(Debug, Clone, Copy)]
pub struct TokenBudget {
    pub total: u64,
    pub used: u64,
    pub reserved: u64,
}

impl TokenBudget {
    /// Tokens still free: the cap less what is spent and reserved, never below zero.
    pub open spec fn available(self) -> nat {
        if self.used + self.reserved <= self.total {
            (self.total - self.used - self.reserved) as nat
        } else {
            0
        }
    }

    /// Spent and reserved together stay within the cap.
    pub open spec fn within_cap(self) -> bool {
        self.used + self.reserved <= self.total
    }

    /// `tokens` more fit under the cap: `used + reserved + tokens <= total`.
    pub open spec fn fits(self, tokens: u64) -> bool {
        self.used + self.reserved + tokens <= self.total
    }

    /// The budget after asking to spend `tokens`: spent when they fit under
    /// the cap, unchanged otherwise.
    pub open spec fn after_spend(self, tokens: u64) -> TokenBudget {
        if self.fits(tokens) {
            TokenBudget { used: (self.used + tokens) as u64, ..self }
        } else {
            self
        }
    }

    /// The budget after asking to reserve `tokens`: set aside when they fit
    /// under the cap, unchanged otherwise.
    pub open spec fn after_reserve(self, tokens: u64) -> TokenBudget {
        if self.fits(tokens) {
            TokenBudget { reserved: (self.reserved + tokens) as u64, ..self }
        } else {
            self
        }
    }

    /// The budget after releasing `tokens` of the reservation, stopping at zero.
    pub open spec fn after_release(self, tokens: u64) -> TokenBudget {
        TokenBudget {
            reserved: if tokens <= self.reserved { (self.reserved - tokens) as u64 } else { 0 },
            ..self
        }
    }

    /// A fresh budget with the cap `total`.
    pub open spec fn new_spec(total: u64) -> TokenBudget {
        TokenBudget { total, used: 0, reserved: 0 }
    }

    pub fn new(total: u64) -> (b: Self)
        ensures
            b == TokenBudget::new_spec(total),
    {
        TokenBudget { total, used: 0, reserved: 0 }
    }

    /// Spends `tokens` when `used + reserved + tokens <= total` (spent and
    /// reserved tokens both count against the cap); otherwise changes nothing.
    pub fn spend(&mut self, tokens: u64) -> (ok: bool)
        requires
            old(self).used + old(self).reserved <= u64::MAX,
        ensures
            ok <==> old(self).fits(tokens),
            *final(self) == old(self).after_spend(tokens),
    {
        if !self.fits_exec(tokens) {
            return false;
        }
        self.used = self.used + tokens;
        true
    }

    /// Sets `tokens` aside when `used + reserved + tokens <= total`;
    /// otherwise changes nothing.
    pub fn reserve(&mut self, tokens: u64) -> (ok: bool)
        requires
            old(self).used + old(self).reserved <= u64::MAX,
        ensures
            ok <==> old(self).fits(tokens),
            *final(self) == old(self).after_reserve(tokens),
    {
        if !self.fits_exec(tokens) {
            return false;
        }
        self.reserved = self.reserved + tokens;
        true
    }

    /// Whether `tokens` more fit under the cap.
    fn fits_exec(&self, tokens: u64) -> (f: bool)
        requires
            self.used + self.reserved <= u64::MAX,
        ensures
            f == self.fits(tokens),
    {
        let committed = self.used + self.reserved;
        committed <= self.total && tokens <= self.total - committed
    }

    /// Gives reserved tokens back to the pool; releasing more than is
    /// reserved leaves nothing reserved.
    pub fn release(&mut self, tokens: u64)
        ensures
            *final(self) == old(self).after_release(tokens),
    {
        self.reserved = self.reserved.saturating_sub(tokens);
    }

    /// `total - used - reserved`, or zero when that would be negative.
    pub fn remaining(&self) -> (r: u64)
        requires
            self.used + self.reserved <= u64::MAX,
        ensures
            r == self.available(),
    {
        self.total.saturating_sub(self.used + self.reserved)
    }
}

/// A budget whose spent and reserved tokens fit within its cap keeps them
/// within the cap through any spend, reserve or release.
pub proof fn lemma_budget_within_cap_is_kept(b: TokenBudget, tokens: u64)
    requires
        b.within_cap(),
    ensures
        b.after_spend(tokens).within_cap(),
        b.after_reserve(tokens).within_cap(),
        b.after_release(tokens).within_cap(),
{
}

/// A spend succeeds exactly when `used + reserved + tokens <= total`, and a
/// successful one lowers what remains by exactly `tokens`.
pub proof fn lemma_budget_spend_rule(b: TokenBudget, tokens: u64)
    ensures
        b.fits(tokens) <==> (b.used + b.reserved + tokens <= b.total),
        b.fits(tokens) ==> tokens <= b.available(),
        b.fits(tokens) ==> b.after_spend(tokens).available() == b.available() - tokens,
        !b.fits(tokens) ==> b.after_spend(tokens) == b,
{
}

/// Releasing what a successful reservation set aside gives back the budget
/// as it was before the reservation.
pub proof fn lemma_budget_reserve_then_release(b: TokenBudget, tokens: u64)
    requires
        b.fits(tokens),
    ensures
        b.after_reserve(tokens).after_release(tokens) == b,
{
}

} // verus!
