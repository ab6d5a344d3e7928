use vstd::prelude::*;
use crate::account::{AccountInfo, AccountMeta, Pubkey, meta_of, meta_for, system_program_key};
use crate::cursor::AccountCursor;
use crate::error::ErrorCode;
use crate::registry::Reallocs;

verus! {

/// Why handle `h` cannot stand as a system account, if it cannot.
pub open spec fn system_account_error(h: AccountInfo) -> Option<ErrorCode> {
    if h.owner@ == system_program_key() {
        None
    } else {
        Some(ErrorCode::AccountNotSystemOwned)
    }
}

/// A handle owned by the system program, such as a fresh account that holds
/// no program data yet.
#[derive(Debug, Clone, Copy)]
pub struct SystemAccount<'a> {
    info: &'a AccountInfo,
}

impl<'a> View for SystemAccount<'a> {
    type V = AccountInfo;

    closed spec fn view(&self) -> AccountInfo {
        *self.info
    }
}

impl<'a> SystemAccount<'a> {
    /// Wraps `info` without checking it; `try_from` is the checked way in.
    pub fn new(info: &'a AccountInfo) -> (r: SystemAccount<'a>)
        ensures
            r@ == *info,
    {
        SystemAccount { info }
    }

    /// Accepts `info` when its owner is the system program.
    pub fn try_from(info: &'a AccountInfo) -> (r: Result<SystemAccount<'a>, ErrorCode>)
        ensures
            r is Ok <==> system_account_error(*info) is None,
            r is Ok ==> r->Ok_0@ == *info,
            r is Err ==> system_account_error(*info) == Some(r->Err_0),
    {
        let system = Pubkey::system_program();
        if !info.owner.same_as(&system) {
            return Err(ErrorCode::AccountNotSystemOwned);
        }
        Ok(SystemAccount::new(info))
    }

    /// Takes one handle from the cursor and accepts it as a system account. The
    /// handle is consumed whether or not it passes; the registries are left
    /// as they are.
    pub fn try_accounts<B>(
        _program_id: &Pubkey,
        accounts: &mut AccountCursor<'a>,
        _ix_data: &[u8],
        bumps: &mut B,
        reallocs: &mut Reallocs,
    ) -> (r: Result<SystemAccount<'a>, ErrorCode>)
        requires
            old(accounts).wf(),
        ensures
            final(accounts).wf(),
            final(accounts).accounts() == old(accounts).accounts(),
            *final(bumps) == *old(bumps),
            *final(reallocs) == *old(reallocs),
            old(accounts).remaining().len() == 0 ==> r == Err::<SystemAccount, ErrorCode>(
                ErrorCode::NotEnoughAccounts,
            ) && final(accounts).consumed() == old(accounts).consumed(),
            old(accounts).remaining().len() > 0 ==> {
                let h = old(accounts).remaining()[0];
                &&& final(accounts).consumed() == old(accounts).consumed() + 1
                &&& r is Ok <==> system_account_error(h) is None
                &&& r is Ok ==> r->Ok_0@ == h
                &&& r is Err ==> system_account_error(h) == Some(r->Err_0)
            },
    {
        let account = accounts.take_one()?;
        SystemAccount::try_from(account)
    }

    /// The exit hook: a system account holds no data to persist.
    pub fn exit(&self, _program_id: &Pubkey) -> (r: Result<(), ErrorCode>)
        ensures
            r is Ok,
    {
        Ok(())
    }

    /// One metadata entry for the handle.
    pub fn to_account_metas(&self, is_signer: Option<bool>) -> (r: Vec<AccountMeta>)
        ensures
            r@ == seq![meta_of(self@, is_signer)],
    {
        let meta = meta_for(self.info, is_signer);
        vec![meta]
    }

    /// The wrapped handle, to hand on to another invocation.
    pub fn to_account_infos(&self) -> (r: Vec<&'a AccountInfo>)
        ensures
            r@.len() == 1,
            *r@[0] == self@,
    {
        vec![self.info]
    }

    pub fn as_ref(&self) -> (r: &'a AccountInfo)
        ensures
            *r == self@,
    {
        self.info
    }

    pub fn key(&self) -> (r: Pubkey)
        ensures
            r == self@.key,
    {
        self.info.key
    }
}

} // verus!
