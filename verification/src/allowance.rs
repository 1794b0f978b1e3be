//! API allowances: budgeted, permissioned access to an outside API.
//! Budgets and costs are in milli-units.

use vstd::prelude::*;
use crate::text::{milli_string, milli_text, strings_view, push_if_absent, remove_all_str};

verus! {

#[derive(Debug, Clone)]
pub struct Allowance {
    pub id: String,
    pub shell_id: String,
    pub api: String,
    pub rate_limit: u32,
    /// The budget, in milli-units.
    pub budget: i64,
    /// The part of the budget spent, in milli-units.
    pub budget_used: i64,
    pub permissions: Vec<String>,
    pub expires: Option<u64>,
}

/// The identifier of the allowance of a shell for an API.
pub open spec fn allowance_id(shell_id: Seq<char>, api: Seq<char>) -> Seq<char> {
    "allow-"@ + shell_id + "-"@ + api
}

/// The error of a use whose cost exceeds the remaining budget.
pub open spec fn budget_exceeded_message(remaining: int, cost: int) -> Seq<char> {
    "budget exceeded: remaining "@ + milli_text(remaining) + " < cost "@ + milli_text(cost)
}

impl Allowance {
    pub open spec fn perms(&self) -> Seq<Seq<char>> {
        strings_view(self.permissions@)
    }

    /// Whether the allowance has expired by `tick`: never when it has no
    /// expiry, else once the tick reaches the expiry.
    pub open spec fn spec_expired(&self, tick: u64) -> bool {
        match self.expires {
            Some(e) => tick >= e,
            None => false,
        }
    }

    pub open spec fn spec_remaining(&self) -> int {
        self.budget - self.budget_used
    }

    /// A fresh allowance: a rate limit of 100, a budget of 100 units, nothing
    /// spent, no permissions, no expiry.
    pub fn new(shell_id: &str, api: &str) -> (a: Self)
        ensures
            a.id@ == allowance_id(shell_id@, api@),
            a.shell_id@ == shell_id@,
            a.api@ == api@,
            a.rate_limit == 100,
            a.budget == 100_000,
            a.budget_used == 0,
            a.permissions@.len() == 0,
            a.expires is None,
    {
        Allowance {
            id: String::from_str("allow-").concat(shell_id).concat("-").concat(api),
            shell_id: shell_id.to_owned(),
            api: api.to_owned(),
            rate_limit: 100,
            budget: 100_000,
            budget_used: 0,
            permissions: Vec::new(),
            expires: None,
        }
    }

    /// Spends `cost` when the remaining budget covers it; otherwise fails
    /// and spends nothing. (A covered cost never pushes the amount spent
    /// above the budget; the amount spent must stay above `i64::MIN`.)
    pub fn use_api(&mut self, cost: i64) -> (r: Result<(), String>)
        requires
            old(self).spec_remaining() >= cost ==> i64::MIN <= old(self).budget_used + cost,
        ensures
            old(self).spec_remaining() >= cost ==> r is Ok && *final(self) == (Allowance {
                budget_used: (old(self).budget_used + cost) as i64,
                ..*old(self)
            }),
            old(self).spec_remaining() < cost ==> *final(self) == *old(self) && (r matches Err(e)
                && e@ == budget_exceeded_message(old(self).spec_remaining(), cost as int)),
    {
        let remaining = self.remaining_budget();
        if remaining < cost as i128 {
            let msg = String::from_str("budget exceeded: remaining ").concat(
                milli_string(remaining).as_str(),
            ).concat(" < cost ").concat(milli_string(cost as i128).as_str());
            return Err(msg);
        }
        self.budget_used = self.budget_used + cost;
        Ok(())
    }

    /// Grants `perm`; granting a permission already held changes nothing.
    pub fn grant(&mut self, perm: &str)
        ensures
            final(self).perms() == (if old(self).perms().contains(perm@) {
                old(self).perms()
            } else {
                old(self).perms().push(perm@)
            }),
            final(self).id == old(self).id,
            final(self).shell_id == old(self).shell_id,
            final(self).api == old(self).api,
            final(self).rate_limit == old(self).rate_limit,
            final(self).budget == old(self).budget,
            final(self).budget_used == old(self).budget_used,
            final(self).expires == old(self).expires,
    {
        push_if_absent(&mut self.permissions, perm);
    }

    /// Revokes every grant of `perm`, keeping the others in order.
    pub fn revoke(&mut self, perm: &str)
        ensures
            final(self).perms() == old(self).perms().filter(|q: Seq<char>| q != perm@),
            final(self).id == old(self).id,
            final(self).shell_id == old(self).shell_id,
            final(self).api == old(self).api,
            final(self).rate_limit == old(self).rate_limit,
            final(self).budget == old(self).budget,
            final(self).budget_used == old(self).budget_used,
            final(self).expires == old(self).expires,
    {
        remove_all_str(&mut self.permissions, perm);
    }

    /// Whether the allowance has expired by `current_tick`: never when it
    /// has no expiry, else once the tick reaches the expiry.
    pub fn is_expired(&self, current_tick: u64) -> (b: bool)
        ensures
            b == self.spec_expired(current_tick),
    {
        match self.expires {
            Some(e) => current_tick >= e,
            None => false,
        }
    }

    /// The budget not yet spent, in milli-units.
    pub fn remaining_budget(&self) -> (r: i128)
        ensures
            r == self.spec_remaining(),
    {
        self.budget as i128 - self.budget_used as i128
    }
}

} // verus!
