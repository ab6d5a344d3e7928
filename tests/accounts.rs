use anchor_accounts::account::{AccountInfo, AccountMeta, Pubkey};
use anchor_accounts::context::{AccountKind, Context, FieldSpec};
use anchor_accounts::cursor::AccountCursor;
use anchor_accounts::error::ErrorCode;
use anchor_accounts::registry::{Bumps, Reallocs};
use anchor_accounts::signer::Signer;
use anchor_accounts::system_account::SystemAccount;

fn key(b: u8) -> Pubkey {
    Pubkey::new_from_array([b; 32])
}

fn handle(addr: u8, owner: Pubkey, is_signer: bool, is_writable: bool) -> AccountInfo {
    AccountInfo {
        key: key(addr),
        owner,
        is_signer,
        is_writable,
        lamports: 1_000,
        data: vec![1, 2, 3],
    }
}

fn other_program() -> Pubkey {
    key(0xAB)
}

fn field(kind: AccountKind, is_mut: bool) -> FieldSpec {
    FieldSpec { kind, is_mut }
}

fn same(a: &Pubkey, b: &Pubkey) -> bool {
    a.to_bytes() == b.to_bytes()
}

#[test]
fn system_program_is_all_zero_bytes() {
    assert_eq!(Pubkey::system_program().to_bytes(), [0u8; 32]);
}

#[test]
fn same_as_compares_bytes() {
    let mut bytes = [7u8; 32];
    assert!(key(7).same_as(&Pubkey::new_from_array(bytes)));
    bytes[31] = 8;
    assert!(!key(7).same_as(&Pubkey::new_from_array(bytes)));
}

#[test]
fn signer_try_from_accepts_signed_handle() {
    let h = handle(1, other_program(), true, false);
    let s = Signer::try_from(&h).unwrap();
    assert!(same(&s.key(), &key(1)));
}

#[test]
fn signer_try_from_rejects_unsigned_handle() {
    let h = handle(1, other_program(), false, true);
    assert!(matches!(Signer::try_from(&h), Err(ErrorCode::AccountNotSigner)));
}

#[test]
fn signer_failure_still_consumes_head() {
    let hs = vec![
        handle(1, other_program(), false, true),
        handle(2, other_program(), true, true),
    ];
    let mut cursor = AccountCursor::new(&hs);
    let mut bumps = ();
    let mut reallocs = Reallocs::new();
    let r = Signer::try_accounts(&key(9), &mut cursor, &[], &mut bumps, &mut reallocs);
    assert!(matches!(r, Err(ErrorCode::AccountNotSigner)));
    assert_eq!(cursor.len(), 1);
    let r = Signer::try_accounts(&key(9), &mut cursor, &[], &mut bumps, &mut reallocs);
    assert!(same(&r.unwrap().key(), &key(2)));
    assert!(cursor.is_empty());
}

#[test]
fn signer_on_empty_cursor_is_not_enough_accounts() {
    let hs: Vec<AccountInfo> = vec![];
    let mut cursor = AccountCursor::new(&hs);
    let mut bumps = ();
    let mut reallocs = Reallocs::new();
    let r = Signer::try_accounts(&key(9), &mut cursor, &[], &mut bumps, &mut reallocs);
    assert!(matches!(r, Err(ErrorCode::NotEnoughAccounts)));
    assert_eq!(cursor.len(), 0);
}

#[test]
fn system_account_accepts_system_owned() {
    let h = handle(3, Pubkey::system_program(), false, true);
    let s = SystemAccount::try_from(&h).unwrap();
    assert!(same(&s.key(), &key(3)));
}

#[test]
fn system_account_rejects_other_owner() {
    let h = handle(3, other_program(), true, true);
    assert!(matches!(SystemAccount::try_from(&h), Err(ErrorCode::AccountNotSystemOwned)));
}

#[test]
fn system_account_new_wraps_unchecked() {
    let h = handle(3, other_program(), true, true);
    let s = SystemAccount::new(&h);
    assert!(same(&s.as_ref().owner, &other_program()));
}

#[test]
fn signer_metas_follow_handle_flags() {
    let h = handle(4, other_program(), true, false);
    let s = Signer::try_from(&h).unwrap();
    let m = s.to_account_metas(None);
    assert_eq!(m.len(), 1);
    assert!(same(&m[0].pubkey, &key(4)));
    assert!(m[0].is_signer);
    assert!(!m[0].is_writable);
    let m = s.to_account_metas(Some(false));
    assert!(!m[0].is_signer);
    assert!(!m[0].is_writable);
}

#[test]
fn system_account_metas_writable() {
    let h = handle(5, Pubkey::system_program(), false, true);
    let s = SystemAccount::try_from(&h).unwrap();
    let m = s.to_account_metas(Some(true));
    assert!(same(&m[0].pubkey, &key(5)));
    assert!(m[0].is_signer);
    assert!(m[0].is_writable);
    assert_eq!(s.to_account_infos().len(), 1);
    assert!(same(&s.to_account_infos()[0].key, &key(5)));
}

#[test]
fn account_meta_constructors() {
    let w = AccountMeta::new(key(1), false);
    let r = AccountMeta::new_readonly(key(1), true);
    assert!(w.is_writable && !w.is_signer);
    assert!(!r.is_writable && r.is_signer);
}

#[test]
fn cursor_take_n() {
    let hs = vec![
        handle(1, other_program(), true, true),
        handle(2, other_program(), true, true),
        handle(3, other_program(), true, true),
    ];
    let mut cursor = AccountCursor::new(&hs);
    assert!(matches!(cursor.take_n(4), Err(ErrorCode::NotEnoughAccounts)));
    assert_eq!(cursor.len(), 3);
    let two = cursor.take_n(2).unwrap();
    assert_eq!(two.len(), 2);
    assert!(same(&two[1].key, &key(2)));
    assert!(same(&cursor.take_one().unwrap().key, &key(3)));
    assert!(matches!(cursor.take_one(), Err(ErrorCode::NotEnoughAccounts)));
}

#[test]
fn reallocs_hold_each_key_once() {
    let mut r = Reallocs::new();
    assert!(r.insert(key(1)));
    assert!(r.insert(key(2)));
    assert!(!r.insert(key(1)));
    assert_eq!(r.len(), 2);
    assert!(r.contains(&key(2)));
    assert!(!r.contains(&key(3)));
}

fn build<'a>(
    schema: &Vec<FieldSpec>,
    cursor: &mut AccountCursor<'a>,
) -> Result<Context<'a>, ErrorCode> {
    let mut bumps = ();
    let mut reallocs = Reallocs::new();
    Context::try_accounts(schema, &key(9), cursor, &[], &mut bumps, &mut reallocs)
}

#[test]
fn context_single_signer_succeeds() {
    let hs = vec![handle(1, other_program(), true, true)];
    let mut cursor = AccountCursor::new(&hs);
    let ctx = build(&vec![field(AccountKind::Signer, false)], &mut cursor).unwrap();
    let m = ctx.to_account_metas(None);
    assert_eq!(m.len(), 1);
    assert!(same(&m[0].pubkey, &key(1)));
    assert!(m[0].is_signer);
    assert!(m[0].is_writable);
}

#[test]
fn context_signer_over_empty_list_fails() {
    let hs: Vec<AccountInfo> = vec![];
    let mut cursor = AccountCursor::new(&hs);
    let r = build(&vec![field(AccountKind::Signer, false)], &mut cursor);
    assert!(matches!(r, Err(ErrorCode::NotEnoughAccounts)));
}

#[test]
fn context_system_account_owner_decides() {
    let ok = vec![handle(1, Pubkey::system_program(), false, true)];
    let mut cursor = AccountCursor::new(&ok);
    assert!(build(&vec![field(AccountKind::SystemAccount, false)], &mut cursor).is_ok());
    let bad = vec![handle(1, other_program(), false, true)];
    let mut cursor = AccountCursor::new(&bad);
    let r = build(&vec![field(AccountKind::SystemAccount, false)], &mut cursor);
    assert!(matches!(r, Err(ErrorCode::AccountNotSystemOwned)));
}

#[test]
fn context_two_mutable_fields_same_address_fail() {
    let hs = vec![
        handle(1, other_program(), true, true),
        handle(1, other_program(), true, true),
    ];
    let mut cursor = AccountCursor::new(&hs);
    let schema = vec![field(AccountKind::Signer, true), field(AccountKind::Signer, true)];
    let r = build(&schema, &mut cursor);
    assert!(matches!(r, Err(ErrorCode::AccountDuplicateReuse)));
}

#[test]
fn context_same_address_allowed_when_one_is_read_only() {
    let hs = vec![
        handle(1, other_program(), true, true),
        handle(1, other_program(), true, true),
    ];
    let mut cursor = AccountCursor::new(&hs);
    let schema = vec![field(AccountKind::Signer, true), field(AccountKind::Signer, false)];
    assert!(build(&schema, &mut cursor).is_ok());
}

#[test]
fn context_consumes_exactly_its_prefix() {
    let hs = vec![
        handle(1, other_program(), true, false),
        handle(2, Pubkey::system_program(), false, true),
        handle(3, other_program(), true, true),
    ];
    let mut cursor = AccountCursor::new(&hs);
    let schema = vec![field(AccountKind::Signer, false), field(AccountKind::SystemAccount, true)];
    let ctx = build(&schema, &mut cursor).unwrap();
    assert_eq!(ctx.len(), 2);
    assert_eq!(cursor.len(), 1);
    assert!(same(&cursor.take_one().unwrap().key, &key(3)));
}

#[test]
fn context_failure_at_second_field_keeps_cursor_advanced() {
    let hs = vec![
        handle(1, other_program(), true, false),
        handle(2, other_program(), false, true),
        handle(3, other_program(), true, true),
    ];
    let mut cursor = AccountCursor::new(&hs);
    let schema = vec![
        field(AccountKind::Signer, false),
        field(AccountKind::Signer, false),
        field(AccountKind::Signer, false),
    ];
    let r = build(&schema, &mut cursor);
    assert!(matches!(r, Err(ErrorCode::AccountNotSigner)));
    assert_eq!(cursor.len(), 1);
}

#[test]
fn context_metadata_round_trip() {
    let hs = vec![
        handle(1, other_program(), true, false),
        handle(2, Pubkey::system_program(), false, true),
    ];
    let mut cursor = AccountCursor::new(&hs);
    let schema = vec![field(AccountKind::Signer, false), field(AccountKind::SystemAccount, true)];
    let ctx = build(&schema, &mut cursor).unwrap();
    let m = ctx.to_account_metas(None);
    let infos = ctx.to_account_infos();
    assert_eq!(m.len(), 2);
    assert_eq!(infos.len(), 2);
    for i in 0..2 {
        assert!(same(&m[i].pubkey, &hs[i].key));
        assert_eq!(m[i].is_writable, hs[i].is_writable);
        assert_eq!(m[i].is_signer, hs[i].is_signer);
        assert!(same(&infos[i].key, &hs[i].key));
    }
    let over = ctx.to_account_metas(Some(true));
    assert!(over[0].is_signer && over[1].is_signer);
    assert!(!over[0].is_writable && over[1].is_writable);
}

#[test]
fn context_metadata_twice_is_identical() {
    let hs = vec![
        handle(1, other_program(), true, false),
        handle(2, Pubkey::system_program(), false, true),
    ];
    let mut cursor = AccountCursor::new(&hs);
    let schema = vec![field(AccountKind::Signer, false), field(AccountKind::SystemAccount, true)];
    let ctx = build(&schema, &mut cursor).unwrap();
    let a = ctx.to_account_metas(None);
    let b = ctx.to_account_metas(None);
    assert_eq!(a.len(), b.len());
    for i in 0..a.len() {
        assert!(same(&a[i].pubkey, &b[i].pubkey));
        assert_eq!(a[i].is_signer, b[i].is_signer);
        assert_eq!(a[i].is_writable, b[i].is_writable);
    }
}

#[test]
fn exit_runs_every_mutable_hook() {
    let hs = vec![
        handle(1, other_program(), true, true),
        handle(2, Pubkey::system_program(), false, true),
        handle(3, other_program(), true, true),
    ];
    let mut cursor = AccountCursor::new(&hs);
    let schema = vec![
        field(AccountKind::Signer, true),
        field(AccountKind::SystemAccount, false),
        field(AccountKind::Signer, true),
    ];
    let ctx = build(&schema, &mut cursor).unwrap();
    let report = ctx.exit(&key(9));
    assert_eq!(report.ran, 2);
    assert!(report.result.is_ok());
    assert!(ctx.field_spec(1) == field(AccountKind::SystemAccount, false));
    assert!(same(&ctx.field(2).key(), &key(3)));
}

#[test]
fn failed_operation_runs_no_exit_hook() {
    let hs = vec![handle(1, other_program(), true, true)];
    let mut cursor = AccountCursor::new(&hs);
    let ctx = build(&vec![field(AccountKind::Signer, true)], &mut cursor).unwrap();
    let report = ctx.complete(&key(9), Err(ErrorCode::ExitHookFailed));
    assert_eq!(report.ran, 0);
    assert!(matches!(report.result, Err(ErrorCode::ExitHookFailed)));
    let report = ctx.complete(&key(9), Ok(()));
    assert_eq!(report.ran, 1);
    assert!(report.result.is_ok());
}

#[test]
fn bumps_record_once() {
    let mut b = Bumps::new();
    assert_eq!(b.get(&key(1)), None);
    assert!(b.insert(key(1), 254));
    assert!(b.insert(key(2), 255));
    assert!(!b.insert(key(1), 7));
    assert_eq!(b.get(&key(1)), Some(254));
    assert_eq!(b.get(&key(2)), Some(255));
    assert_eq!(b.get(&key(3)), None);
}

#[test]
fn context_leaves_registries_untouched() {
    let hs = vec![handle(1, other_program(), true, true)];
    let mut cursor = AccountCursor::new(&hs);
    let mut bumps = Bumps::new();
    bumps.insert(key(5), 9);
    let mut reallocs = Reallocs::new();
    reallocs.insert(key(6));
    let schema = vec![field(AccountKind::Signer, true)];
    let ctx = Context::try_accounts(&schema, &key(9), &mut cursor, &[1, 2], &mut bumps, &mut reallocs);
    assert!(ctx.is_ok());
    assert_eq!(bumps.get(&key(5)), Some(9));
    assert_eq!(bumps.get(&key(1)), None);
    assert_eq!(reallocs.len(), 1);
    assert!(reallocs.contains(&key(6)));
}
