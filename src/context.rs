use vstd::prelude::*;
use crate::account::{AccountInfo, AccountMeta, Pubkey, meta_of};
use crate::cursor::AccountCursor;
use crate::error::ErrorCode;
use crate::registry::Reallocs;
use crate::signer::{Signer, signer_error};
use crate::system_account::{SystemAccount, system_account_error};

verus! {

/// The validator a declared field asks for.
#[derive(Debug, Clone, Copy, PartialEq, Eq, Structural)]
pub enum AccountKind {
    Signer,
    SystemAccount,
}

/// One declared field of a context: its validator and whether the operation
/// may mutate it.
#[derive(Debug, Clone, Copy, PartialEq, Eq, Structural)]
pub struct FieldSpec {
    pub kind: AccountKind,
    pub is_mut: bool,
}

/// Why handle `h` cannot stand in a field of kind `kind`, if it cannot.
pub open spec fn kind_error(kind: AccountKind, h: AccountInfo) -> Option<ErrorCode> {
    match kind {
        AccountKind::Signer => signer_error(h),
        AccountKind::SystemAccount => system_account_error(h),
    }
}

/// Field `i` is mutable and an earlier mutable field holds the same address.
pub open spec fn duplicates_earlier(schema: Seq<FieldSpec>, hs: Seq<AccountInfo>, i: int) -> bool {
    &&& schema[i].is_mut
    &&& exists|j: int| 0 <= j < i && schema[j].is_mut && #[trigger] hs[j].key@ == hs[i].key@
}

/// The failure of field `i` when it takes handle `hs[i]`, if it fails. Every
/// field takes exactly one handle, so field `i` takes the `i`-th one left.
pub open spec fn field_error(schema: Seq<FieldSpec>, hs: Seq<AccountInfo>, i: int) -> Option<
    ErrorCode,
> {
    if i >= hs.len() {
        Some(ErrorCode::NotEnoughAccounts)
    } else if kind_error(schema[i].kind, hs[i]) is Some {
        kind_error(schema[i].kind, hs[i])
    } else if duplicates_earlier(schema, hs, i) {
        Some(ErrorCode::AccountDuplicateReuse)
    } else {
        None
    }
}

/// The first failure among the first `n` fields of `schema` built over the
/// handles `hs`, in declaration order; `None` when all of them pass.
pub open spec fn compose_error(schema: Seq<FieldSpec>, hs: Seq<AccountInfo>, n: int) -> Option<
    ErrorCode,
>
    decreases n,
{
    if n <= 0 {
        None
    } else {
        match compose_error(schema, hs, n - 1) {
            Some(e) => Some(e),
            None => field_error(schema, hs, n - 1),
        }
    }
}

/// Once a prefix of the fields fails, every longer prefix fails the same way.
pub proof fn lemma_compose_error_sticks(schema: Seq<FieldSpec>, hs: Seq<AccountInfo>, a: int, b: int)
    requires
        a <= b,
        compose_error(schema, hs, a) is Some,
    ensures
        compose_error(schema, hs, b) == compose_error(schema, hs, a),
    decreases b - a,
{
    if a < b {
        lemma_compose_error_sticks(schema, hs, a, b - 1);
    }
}

/// The metadata of a sequence of handles, one entry each, in order.
pub open spec fn metas_of(hs: Seq<AccountInfo>, is_signer: Option<bool>) -> Seq<AccountMeta> {
    hs.map_values(|h: AccountInfo| meta_of(h, is_signer))
}

/// A validated field: a witness that its handle passed its kind's check.
#[derive(Debug, Clone, Copy)]
pub enum Validator<'a> {
    Signer(Signer<'a>),
    SystemAccount(SystemAccount<'a>),
}

impl<'a> View for Validator<'a> {
    type V = AccountInfo;

    open spec fn view(&self) -> AccountInfo {
        match self {
            Validator::Signer(s) => s@,
            Validator::SystemAccount(s) => s@,
        }
    }
}

impl<'a> Validator<'a> {
    /// Takes one handle from the cursor and checks it as `kind` asks.
    pub fn try_accounts<B>(
        kind: AccountKind,
        program_id: &Pubkey,
        accounts: &mut AccountCursor<'a>,
        ix_data: &[u8],
        bumps: &mut B,
        reallocs: &mut Reallocs,
    ) -> (r: Result<Validator<'a>, ErrorCode>)
        requires
            old(accounts).wf(),
        ensures
            final(accounts).wf(),
            final(accounts).accounts() == old(accounts).accounts(),
            *final(bumps) == *old(bumps),
            *final(reallocs) == *old(reallocs),
            old(accounts).remaining().len() == 0 ==> r == Err::<Validator, ErrorCode>(
                ErrorCode::NotEnoughAccounts,
            ) && final(accounts).consumed() == old(accounts).consumed(),
            old(accounts).remaining().len() > 0 ==> {
                let h = old(accounts).remaining()[0];
                &&& final(accounts).consumed() == old(accounts).consumed() + 1
                &&& r is Ok <==> kind_error(kind, h) is None
                &&& r is Ok ==> r->Ok_0@ == h
                &&& r is Err ==> kind_error(kind, h) == Some(r->Err_0)
            },
    {
        match kind {
            AccountKind::Signer => {
                let s = Signer::try_accounts(program_id, accounts, ix_data, bumps, reallocs)?;
                Ok(Validator::Signer(s))
            },
            AccountKind::SystemAccount => {
                let s = SystemAccount::try_accounts(program_id, accounts, ix_data, bumps, reallocs)?;
                Ok(Validator::SystemAccount(s))
            },
        }
    }

    pub fn key(&self) -> (r: Pubkey)
        ensures
            r == self@.key,
    {
        match self {
            Validator::Signer(s) => s.key(),
            Validator::SystemAccount(s) => s.key(),
        }
    }

    pub fn to_account_metas(&self, is_signer: Option<bool>) -> (r: Vec<AccountMeta>)
        ensures
            r@ == seq![meta_of(self@, is_signer)],
    {
        match self {
            Validator::Signer(s) => s.to_account_metas(is_signer),
            Validator::SystemAccount(s) => s.to_account_metas(is_signer),
        }
    }

    pub fn as_ref(&self) -> (r: &'a AccountInfo)
        ensures
            *r == self@,
    {
        match self {
            Validator::Signer(s) => s.as_ref(),
            Validator::SystemAccount(s) => s.as_ref(),
        }
    }

    /// The exit hook; neither kind holds data to persist.
    pub fn exit(&self, program_id: &Pubkey) -> (r: Result<(), ErrorCode>)
        ensures
            r is Ok,
    {
        match self {
            Validator::Signer(s) => s.exit(program_id),
            Validator::SystemAccount(s) => s.exit(program_id),
        }
    }
}

/// The validated fields of one operation, in declaration order.
pub struct Context<'a> {
    schema: Vec<FieldSpec>,
    fields: Vec<Validator<'a>>,
}

impl<'a> View for Context<'a> {
    type V = Seq<AccountInfo>;

    /// The handles of the fields, in declaration order.
    closed spec fn view(&self) -> Seq<AccountInfo> {
        self.fields@.map_values(|v: Validator<'a>| v@)
    }
}

impl<'a> Context<'a> {
    /// The declared fields.
    pub closed spec fn schema(&self) -> Seq<FieldSpec> {
        self.schema@
    }

    pub closed spec fn wf(&self) -> bool {
        self.schema@.len() == self.fields@.len()
    }

    /// Builds every declared field, in order, from one shared cursor,
    /// stopping at the first failure. On success the cursor has moved past
    /// exactly one handle per field; on failure it is never rewound.
    pub fn try_accounts<B>(
        schema: &Vec<FieldSpec>,
        program_id: &Pubkey,
        accounts: &mut AccountCursor<'a>,
        ix_data: &[u8],
        bumps: &mut B,
        reallocs: &mut Reallocs,
    ) -> (r: Result<Context<'a>, ErrorCode>)
        requires
            old(accounts).wf(),
        ensures
            final(accounts).wf(),
            final(accounts).accounts() == old(accounts).accounts(),
            final(accounts).consumed() >= old(accounts).consumed(),
            *final(bumps) == *old(bumps),
            *final(reallocs) == *old(reallocs),
            r is Ok <==> compose_error(schema@, old(accounts).remaining(), schema@.len() as int) is None,
            r is Err ==> compose_error(schema@, old(accounts).remaining(), schema@.len() as int)
                == Some(r->Err_0),
            r is Err ==> {
                let d = final(accounts).consumed() - old(accounts).consumed();
                let i = if r->Err_0 == ErrorCode::NotEnoughAccounts { d } else { d - 1 };
                &&& 0 <= i < schema@.len()
                &&& compose_error(schema@, old(accounts).remaining(), i) is None
                &&& field_error(schema@, old(accounts).remaining(), i) == Some(r->Err_0)
            },
            r is Ok ==> {
                let c = r->Ok_0;
                &&& c.wf()
                &&& c.schema() == schema@
                &&& c@ == old(accounts).remaining().take(schema@.len() as int)
                &&& final(accounts).consumed() == old(accounts).consumed() + schema@.len()
            },
    {
        let ghost hs = old(accounts).remaining();
        let ghost start = old(accounts).consumed();
        let ghost n = schema@.len() as int;
        let mut kinds: Vec<FieldSpec> = Vec::new();
        let mut fields: Vec<Validator<'a>> = Vec::new();
        let mut i: usize = 0;
        while i < schema.len()
            invariant
                i <= schema@.len(),
                n == schema@.len(),
                accounts.wf(),
                accounts.accounts() == old(accounts).accounts(),
                hs == old(accounts).remaining(),
                start == old(accounts).consumed(),
                accounts.consumed() == start + i,
                i <= hs.len(),
                *bumps == *old(bumps),
                *reallocs == *old(reallocs),
                compose_error(schema@, hs, i as int) is None,
                kinds@ == schema@.take(i as int),
                fields@.len() == i,
                forall|j: int| 0 <= j < i ==> (#[trigger] fields@[j])@ == hs[j],
            decreases schema@.len() - i,
        {
            let f = schema[i];
            assert(accounts.remaining().len() == hs.len() - i);
            let v = match Validator::try_accounts(f.kind, program_id, accounts, ix_data, bumps, reallocs) {
                Ok(v) => v,
                Err(e) => {
                    proof {
                        if i < hs.len() {
                            assert(accounts.remaining().len() > 0 ==> hs[i as int] == old(accounts).accounts()[start + i]);
                        }
                        assert(field_error(schema@, hs, i as int) == Some(e));
                        lemma_compose_error_sticks(schema@, hs, i + 1, n);
                    }
                    return Err(e);
                },
            };
            assert(v@ == hs[i as int]);
            if f.is_mut {
                let key = v.key();
                let mut j: usize = 0;
                #[verifier::loop_isolation(false)]
                while j < i
                    invariant
                        j <= i,
                        i < schema@.len(),
                        i < hs.len(),
                        n == schema@.len(),
                        key == hs[i as int].key,
                        fields@.len() == i,
                        schema@[i as int] == f,
                        forall|k: int| 0 <= k < i ==> (#[trigger] fields@[k])@ == hs[k],
                        kinds@ == schema@.take(i as int),
                        forall|k: int|
                            0 <= k < j ==> !(schema@[k].is_mut && #[trigger] hs[k].key@ == key@),
                    decreases i - j,
                {
                    if kinds[j].is_mut && fields[j].key().same_as(&key) {
                        proof {
                            assert(kinds@[j as int] == schema@[j as int]);
                            assert(hs[j as int].key@ == hs[i as int].key@);
                            assert(duplicates_earlier(schema@, hs, i as int));
                            lemma_compose_error_sticks(schema@, hs, i + 1, n);
                        }
                        return Err(ErrorCode::AccountDuplicateReuse);
                    }
                    j = j + 1;
                }
            }
            kinds.push(f);
            fields.push(v);
            i = i + 1;
        }
        let c = Context { schema: kinds, fields };
        assert(kinds@ =~= schema@);
        assert(c@ =~= hs.take(n));
        Ok(c)
    }

    /// The number of fields.
    pub fn len(&self) -> (r: usize)
        requires
            self.wf(),
        ensures
            r == self@.len(),
    {
        self.fields.len()
    }

    /// The declared kind and mutability of field `i`.
    pub fn field_spec(&self, i: usize) -> (r: FieldSpec)
        requires
            self.wf(),
            i < self@.len(),
        ensures
            r == self.schema()[i as int],
    {
        self.schema[i]
    }

    /// Field `i`.
    pub fn field(&self, i: usize) -> (r: &Validator<'a>)
        requires
            self.wf(),
            i < self@.len(),
        ensures
            r@ == self@[i as int],
    {
        &self.fields[i]
    }

    /// The metadata of every field, in declaration order, one entry each.
    pub fn to_account_metas(&self, is_signer: Option<bool>) -> (r: Vec<AccountMeta>)
        ensures
            r@ == metas_of(self@, is_signer),
    {
        let mut r: Vec<AccountMeta> = Vec::new();
        let mut i: usize = 0;
        while i < self.fields.len()
            invariant
                i <= self.fields@.len(),
                r@ == metas_of(self@.take(i as int), is_signer),
            decreases self.fields@.len() - i,
        {
            let mut m = self.fields[i].to_account_metas(is_signer);
            r.append(&mut m);
            assert(self@.take(i + 1) =~= self@.take(i as int).push(self@[i as int]));
            assert(metas_of(self@.take(i + 1), is_signer) =~= metas_of(self@.take(i as int), is_signer)
                + seq![meta_of(self@[i as int], is_signer)]);
            i = i + 1;
        }
        assert(self@.take(i as int) =~= self@);
        r
    }

    /// The handles of every field, in declaration order, to hand on to
    /// another invocation.
    pub fn to_account_infos(&self) -> (r: Vec<&'a AccountInfo>)
        ensures
            r@.len() == self@.len(),
            forall|i: int| 0 <= i < self@.len() ==> *#[trigger] r@[i] == self@[i],
    {
        let mut r: Vec<&'a AccountInfo> = Vec::new();
        let mut i: usize = 0;
        while i < self.fields.len()
            invariant
                i <= self.fields@.len(),
                r@.len() == i,
                forall|j: int| 0 <= j < i ==> *#[trigger] r@[j] == self@[j],
            decreases self.fields@.len() - i,
        {
            r.push(self.fields[i].as_ref());
            i = i + 1;
        }
        r
    }

    /// The outcomes of the exit hooks of the mutable fields among the first
    /// `n`, in declaration order.
    pub closed spec fn hook_outcomes(&self, n: int) -> Seq<Result<(), ErrorCode>>
        decreases n,
    {
        if n <= 0 {
            Seq::empty()
        } else if self.schema@[n - 1].is_mut {
            self.hook_outcomes(n - 1).push(Ok(()))
        } else {
            self.hook_outcomes(n - 1)
        }
    }

    /// Runs the exit hooks of the mutable fields in declaration order,
    /// stopping at the first that fails.
    pub fn exit(&self, program_id: &Pubkey) -> (r: ExitReport)
        requires
            self.wf(),
        ensures
            r.ran == exits_run(self.hook_outcomes(self@.len() as int)),
            r.result == exit_result(self.hook_outcomes(self@.len() as int)),
            r.result is Ok,
    {
        let mut ran: usize = 0;
        let mut i: usize = 0;
        while i < self.fields.len()
            invariant
                self.wf(),
                i <= self.fields@.len(),
                ran <= i,
                ran == self.hook_outcomes(i as int).len(),
                first_failure(self.hook_outcomes(i as int)) == ran,
            decreases self.fields@.len() - i,
        {
            if self.schema[i].is_mut {
                let outcome = self.fields[i].exit(program_id);
                ran = ran + 1;
                assert(self.hook_outcomes(i + 1) == self.hook_outcomes(i as int).push(Ok(())));
                assert(self.hook_outcomes(i + 1).drop_last() =~= self.hook_outcomes(i as int));
                if outcome.is_err() {
                    return ExitReport { ran, result: outcome };
                }
            }
            i = i + 1;
        }
        ExitReport { ran, result: Ok(()) }
    }

    /// Ends an invocation: when the operation succeeded, runs the exit pass;
    /// when it failed, runs no hook at all and surfaces its error.
    pub fn complete(&self, program_id: &Pubkey, outcome: Result<(), ErrorCode>) -> (r: ExitReport)
        requires
            self.wf(),
        ensures
            outcome is Err ==> r == (ExitReport { ran: 0, result: outcome }),
            outcome is Ok ==> r.ran == exits_run(self.hook_outcomes(self@.len() as int))
                && r.result == exit_result(self.hook_outcomes(self@.len() as int)),
    {
        if outcome.is_err() {
            return ExitReport { ran: 0, result: outcome };
        }
        self.exit(program_id)
    }
}

/// What the exit pass did: how many hooks ran, and the error it surfaced.
#[derive(Debug, Clone, Copy)]
pub struct ExitReport {
    pub ran: usize,
    pub result: Result<(), ErrorCode>,
}

/// The index of the first failed hook outcome, or the length when none failed.
pub open spec fn first_failure(outcomes: Seq<Result<(), ErrorCode>>) -> nat
    decreases outcomes.len(),
{
    if outcomes.len() == 0 {
        0
    } else {
        let before = outcomes.drop_last();
        if first_failure(before) < before.len() {
            first_failure(before)
        } else if outcomes.last() is Err {
            before.len()
        } else {
            outcomes.len()
        }
    }
}

/// How many hooks an exit pass runs: every one up to and including the first
/// that fails.
pub open spec fn exits_run(outcomes: Seq<Result<(), ErrorCode>>) -> nat {
    if first_failure(outcomes) < outcomes.len() {
        first_failure(outcomes) + 1
    } else {
        outcomes.len()
    }
}

/// What an exit pass surfaces: the first failure, if any.
pub open spec fn exit_result(outcomes: Seq<Result<(), ErrorCode>>) -> Result<(), ErrorCode> {
    if first_failure(outcomes) < outcomes.len() {
        outcomes[first_failure(outcomes) as int]
    } else {
        Ok(())
    }
}

} // verus!
