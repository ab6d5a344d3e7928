use vstd::prelude::*;
use crate::account::{AccountInfo, AccountMeta, Pubkey, meta_of, meta_for};
use crate::cursor::AccountCursor;
use crate::error::ErrorCode;
use crate::registry::Reallocs;

verus! {

/// Why handle `h` cannot stand as a signer, if it cannot.
pub open spec fn signer_error(h: AccountInfo) -> Option<ErrorCode> {
    if h.is_signer {
        None
    } else {
        Some(ErrorCode::AccountNotSigner)
    }
}

/// A handle that signed the transaction. Nothing else is checked: its owner
/// and its data are not looked at, and callers should not read its data.
#[derive(Debug, Clone, Copy)]
pub struct Signer<'a> {
    info: &'a AccountInfo,
}

impl<'a> View for Signer<'a> {
    type V = AccountInfo;

    closed spec fn view(&self) -> AccountInfo {
        *self.info
    }
}

impl<'a> Signer<'a> {
    fn new(info: &'a AccountInfo) -> (r: Signer<'a>)
        ensures
            r@ == *info,
    {
        Signer { info }
    }

    /// Accepts `info` as a signer when its signer flag is set.
    pub fn try_from(info: &'a AccountInfo) -> (r: Result<Signer<'a>, ErrorCode>)
        ensures
            r is Ok <==> signer_error(*info) is None,
            r is Ok ==> r->Ok_0@ == *info,
            r is Err ==> signer_error(*info) == Some(r->Err_0),
    {
        if !info.is_signer {
            return Err(ErrorCode::AccountNotSigner);
        }
        Ok(Signer::new(info))
    }

    /// Takes one handle from the cursor and accepts it as a signer. The
    /// handle is consumed whether or not it passes; the registries are left
    /// as they are.
    pub fn try_accounts<B>(
        _program_id: &Pubkey,
        accounts: &mut AccountCursor<'a>,
        _ix_data: &[u8],
        bumps: &mut B,
        reallocs: &mut Reallocs,
    ) -> (r: Result<Signer<'a>, ErrorCode>)
        requires
            old(accounts).wf(),
        ensures
            final(accounts).wf(),
            final(accounts).accounts() == old(accounts).accounts(),
            *final(bumps) == *old(bumps),
            *final(reallocs) == *old(reallocs),
            old(accounts).remaining().len() == 0 ==> r == Err::<Signer, ErrorCode>(
                ErrorCode::NotEnoughAccounts,
            ) && final(accounts).consumed() == old(accounts).consumed(),
            old(accounts).remaining().len() > 0 ==> {
                let h = old(accounts).remaining()[0];
                &&& final(accounts).consumed() == old(accounts).consumed() + 1
                &&& r is Ok <==> signer_error(h) is None
                &&& r is Ok ==> r->Ok_0@ == h
                &&& r is Err ==> signer_error(h) == Some(r->Err_0)
            },
    {
        let account = accounts.take_one()?;
        Signer::try_from(account)
    }

    /// The exit hook: a signer holds no data to persist.
    pub fn exit(&self, _program_id: &Pubkey) -> (r: Result<(), ErrorCode>)
        ensures
            r is Ok,
    {
        Ok(())
    }

    /// One metadata entry for the handle.
    pub fn to_account_metas(&self, is_signer: Option<bool>) -> (r: Vec<AccountMeta>)
        ensures
            r@ == seq![meta_of(self@, is_signer)],
    {
        let meta = meta_for(self.info, is_signer);
        vec![meta]
    }

    /// The wrapped handle, to hand on to another invocation.
    pub fn to_account_infos(&self) -> (r: Vec<&'a AccountInfo>)
        ensures
            r@.len() == 1,
            *r@[0] == self@,
    {
        vec![self.info]
    }

    pub fn as_ref(&self) -> (r: &'a AccountInfo)
        ensures
            *r == self@,
    {
        self.info
    }

    pub fn key(&self) -> (r: Pubkey)
        ensures
            r == self@.key,
    {
        self.info.key
    }
}

} // verus!
