use vstd::prelude::*;
use crate::account::AccountInfo;
use crate::error::ErrorCode;

verus! {

/// A forward-only view over the handle list of one invocation: each take
/// consumes a prefix of what remains, and nothing is visited twice.
pub struct AccountCursor<'a> {
    accounts: &'a [AccountInfo],
    pos: usize,
}

impl<'a> AccountCursor<'a> {
    /// The whole handle list the cursor runs over.
    pub closed spec fn accounts(&self) -> Seq<AccountInfo> {
        self.accounts@
    }

    /// How many handles have been consumed.
    pub closed spec fn consumed(&self) -> nat {
        self.pos as nat
    }

    pub open spec fn wf(&self) -> bool {
        self.consumed() <= self.accounts().len()
    }

    /// The handles not yet consumed.
    pub open spec fn remaining(&self) -> Seq<AccountInfo> {
        self.accounts().subrange(self.consumed() as int, self.accounts().len() as int)
    }

    pub fn new(accounts: &'a [AccountInfo]) -> (r: AccountCursor<'a>)
        ensures
            r.wf(),
            r.accounts() == accounts@,
            r.consumed() == 0,
    {
        AccountCursor { accounts, pos: 0 }
    }

    /// Number of handles left.
    pub fn len(&self) -> (r: usize)
        requires
            self.wf(),
        ensures
            r == self.remaining().len(),
    {
        self.accounts.len() - self.pos
    }

    pub fn is_empty(&self) -> (r: bool)
        requires
            self.wf(),
        ensures
            r == (self.remaining().len() == 0),
    {
        self.pos == self.accounts.len()
    }

    /// Takes the next handle, or fails when none is left.
    pub fn take_one(&mut self) -> (r: Result<&'a AccountInfo, ErrorCode>)
        requires
            old(self).wf(),
        ensures
            final(self).wf(),
            final(self).accounts() == old(self).accounts(),
            old(self).remaining().len() == 0 ==> r == Err::<&AccountInfo, ErrorCode>(
                ErrorCode::NotEnoughAccounts,
            ) && final(self).consumed() == old(self).consumed(),
            old(self).remaining().len() > 0 ==> r is Ok && *r->Ok_0 == old(self).remaining()[0]
                && final(self).consumed() == old(self).consumed() + 1,
    {
        if self.pos >= self.accounts.len() {
            return Err(ErrorCode::NotEnoughAccounts);
        }
        let accounts: &'a [AccountInfo] = self.accounts;
        let account = &accounts[self.pos];
        self.pos = self.pos + 1;
        Ok(account)
    }

    /// Takes the next `k` handles at once, or fails, consuming nothing, when
    /// fewer than `k` are left.
    pub fn take_n(&mut self, k: usize) -> (r: Result<&'a [AccountInfo], ErrorCode>)
        requires
            old(self).wf(),
        ensures
            final(self).wf(),
            final(self).accounts() == old(self).accounts(),
            k > old(self).remaining().len() ==> r == Err::<&[AccountInfo], ErrorCode>(
                ErrorCode::NotEnoughAccounts,
            ) && final(self).consumed() == old(self).consumed(),
            k <= old(self).remaining().len() ==> r is Ok && r->Ok_0@ == old(
                self,
            ).remaining().take(k as int) && final(self).consumed() == old(self).consumed() + k,
    {
        if k > self.accounts.len() - self.pos {
            return Err(ErrorCode::NotEnoughAccounts);
        }
        let accounts: &'a [AccountInfo] = self.accounts;
        let taken = vstd::slice::slice_subrange(accounts, self.pos, self.pos + k);
        self.pos = self.pos + k;
        assert(taken@ =~= old(self).remaining().take(k as int));
        Ok(taken)
    }
}

} // verus!
