//! Closing an account: its balance goes to the signer.

use vstd::prelude::*;
use crate::error::ProgramError;
use crate::pubkey::Pubkey;

verus! {

/// The accounts of a closure: the signer, who collects, and the account that is
/// emptied, each with its balance.
#[derive(Clone, Copy, Debug, PartialEq, Eq)]
pub struct CloseGivenAccount {
    pub signer: Pubkey,
    pub signer_lamports: u64,
    pub given_account: Pubkey,
    pub given_account_lamports: u64,
}

impl CloseGivenAccount {
    /// The signer asks to close the signer's own account.
    pub open spec fn closes_itself(&self) -> bool {
        self.signer@ == self.given_account@
    }

    /// One account has one balance: where both addresses are the same, so are
    /// both balances.
    pub open spec fn wf(&self) -> bool {
        self.closes_itself() ==> self.signer_lamports == self.given_account_lamports
    }

    /// What the accounts hold together: one balance where both are the same
    /// account, the sum of both otherwise.
    pub open spec fn total(&self) -> int {
        if self.closes_itself() {
            self.signer_lamports as int
        } else {
            self.signer_lamports + self.given_account_lamports
        }
    }

    /// Moves the whole balance of the given account to the signer, who then
    /// holds all that the two held together. An account closed into itself
    /// keeps its balance. Nothing is created or lost.
    pub fn transfer_balance(&mut self)
        requires
            old(self).wf(),
            old(self).total() <= u64::MAX,
        ensures
            final(self).signer == old(self).signer,
            final(self).given_account == old(self).given_account,
            final(self).signer_lamports == old(self).total(),
            final(self).given_account_lamports == if old(self).closes_itself() {
                old(self).given_account_lamports
            } else {
                0
            },
            final(self).wf(),
            final(self).total() == old(self).total(),
    {
        if !(self.signer == self.given_account) {
            let amount = self.given_account_lamports;
            self.given_account_lamports = 0;
            self.signer_lamports = self.signer_lamports + amount;
        }
    }
}

/// Closing needs no bookkeeping beyond the transfer of the balance: accepts, and
/// changes nothing.
pub fn close_given_account_handler(ctx: &mut CloseGivenAccount) -> (r: Result<(), ProgramError>)
    ensures
        r is Ok,
        *final(ctx) == *old(ctx),
{
    Ok(())
}

/// Accepts a closure whose balance has already been moved, and changes nothing.
pub fn close_given_account(ctx: &mut CloseGivenAccount) -> (r: Result<(), ProgramError>)
    ensures
        r is Ok,
        *final(ctx) == *old(ctx),
{
    Ok(())
}

} // verus!
