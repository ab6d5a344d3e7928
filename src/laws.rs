use vstd::prelude::*;
use crate::account::{AccountInfo, AccountMeta};
use crate::context::{
    FieldSpec, compose_error, exit_result, exits_run, field_error, first_failure, kind_error,
    lemma_compose_error_sticks, metas_of,
};
use crate::error::ErrorCode;

verus! {

/// A context that builds over `hs` has no more fields than handles.
pub proof fn lemma_success_fits(schema: Seq<FieldSpec>, hs: Seq<AccountInfo>, n: int)
    requires
        0 < n,
        compose_error(schema, hs, n) is None,
    ensures
        n <= hs.len(),
{
    assert(field_error(schema, hs, n - 1) is None);
}

/// Serializing a successfully built context gives one entry per field, in
/// declaration order, whose address and writable flag are those of the
/// handle the field took, the `i`-th handle given; the signer flag is the
/// handle's own unless `is_signer` overrides it.
pub proof fn lemma_metas_match_handles(
    schema: Seq<FieldSpec>,
    hs: Seq<AccountInfo>,
    is_signer: Option<bool>,
)
    requires
        compose_error(schema, hs, schema.len() as int) is None,
    ensures
        schema.len() <= hs.len(),
        metas_of(hs.take(schema.len() as int), is_signer).len() == schema.len(),
        forall|i: int|
            0 <= i < schema.len() ==> {
                let m = #[trigger] metas_of(hs.take(schema.len() as int), is_signer)[i];
                &&& m.pubkey == hs[i].key
                &&& m.is_writable == hs[i].is_writable
                &&& m.is_signer == match is_signer {
                    Some(s) => s,
                    None => hs[i].is_signer,
                }
            },
{
    if schema.len() > 0 {
        lemma_success_fits(schema, hs, schema.len() as int);
    }
}

/// Serializing the same fields twice with the same override gives the same
/// metadata.
pub proof fn lemma_metas_idempotent(
    hs: Seq<AccountInfo>,
    is_signer: Option<bool>,
    first: Seq<AccountMeta>,
    second: Seq<AccountMeta>,
)
    requires
        first == metas_of(hs, is_signer),
        second == metas_of(hs, is_signer),
    ensures
        first == second,
{
}

/// With no failure among the first `k` outcomes, none is found in them.
proof fn lemma_no_failure_in_prefix(outcomes: Seq<Result<(), ErrorCode>>, k: int)
    requires
        0 <= k <= outcomes.len(),
        forall|j: int| 0 <= j < k ==> outcomes[j] is Ok,
    ensures
        first_failure(outcomes.take(k)) == k,
    decreases k,
{
    if k > 0 {
        lemma_no_failure_in_prefix(outcomes, k - 1);
        assert(outcomes.take(k).drop_last() =~= outcomes.take(k - 1));
    }
}

/// The first failure at `b` stays the first failure of every longer prefix.
proof fn lemma_failure_stays_first(outcomes: Seq<Result<(), ErrorCode>>, b: int, k: int)
    requires
        0 <= b < k <= outcomes.len(),
        outcomes[b] is Err,
        forall|j: int| 0 <= j < b ==> outcomes[j] is Ok,
    ensures
        first_failure(outcomes.take(k)) == b,
    decreases k,
{
    if k == b + 1 {
        lemma_no_failure_in_prefix(outcomes, b);
        assert(outcomes.take(k).drop_last() =~= outcomes.take(b));
    } else {
        lemma_failure_stays_first(outcomes, b, k - 1);
        assert(outcomes.take(k).drop_last() =~= outcomes.take(k - 1));
    }
}

/// When the exit hook at position `b` of the mutable fields fails and every
/// earlier one succeeds, the hooks before `b` have run, the pass stops after
/// `b` so no later hook runs, and `b`'s error is what the pass surfaces.
pub proof fn lemma_exit_stops_at_first_failure(outcomes: Seq<Result<(), ErrorCode>>, b: int)
    requires
        0 <= b < outcomes.len(),
        outcomes[b] is Err,
        forall|j: int| 0 <= j < b ==> outcomes[j] is Ok,
    ensures
        exits_run(outcomes) == b + 1,
        exit_result(outcomes) == outcomes[b],
{
    lemma_failure_stays_first(outcomes, b, outcomes.len() as int);
    assert(outcomes.take(outcomes.len() as int) =~= outcomes);
}

/// When every exit hook succeeds, all of them run and the pass succeeds.
pub proof fn lemma_exit_runs_all(outcomes: Seq<Result<(), ErrorCode>>)
    requires
        forall|j: int| 0 <= j < outcomes.len() ==> outcomes[j] is Ok,
    ensures
        exits_run(outcomes) == outcomes.len(),
        exit_result(outcomes) == Ok::<(), ErrorCode>(()),
{
    lemma_no_failure_in_prefix(outcomes, outcomes.len() as int);
    assert(outcomes.take(outcomes.len() as int) =~= outcomes);
}

/// Two mutable fields, `j` before `i`, over handles with the same address
/// never build: construction fails, and when nothing up to field `i` has
/// failed otherwise, it fails at `i` with `AccountDuplicateReuse`.
pub proof fn lemma_duplicate_mutable_fields_fail(
    schema: Seq<FieldSpec>,
    hs: Seq<AccountInfo>,
    j: int,
    i: int,
)
    requires
        0 <= j < i < schema.len(),
        i < hs.len(),
        schema[j].is_mut,
        schema[i].is_mut,
        hs[j].key@ == hs[i].key@,
    ensures
        compose_error(schema, hs, schema.len() as int) is Some,
        compose_error(schema, hs, i) is None && kind_error(schema[i].kind, hs[i]) is None
            ==> compose_error(schema, hs, schema.len() as int) == Some(
            ErrorCode::AccountDuplicateReuse,
        ),
{
    assert(compose_error(schema, hs, i + 1) is Some);
    lemma_compose_error_sticks(schema, hs, i + 1, schema.len() as int);
}

} // verus!
