//! The laws of the ledger: supply conservation, capped debits, cross-operator
//! approval pruning, grant-time bounds on approvals, and full revocation.
//! Each law is a proof function over the model; the executable operations'
//! contracts tie their results to the same model functions.

use vstd::prelude::*;

use crate::model::{
    active_token_approval, approve_all_result, approve_stored_amount, approve_token_result,
    authorize_all_result, authorize_result, balance_or_zero, batch_result, burn_batch_result,
    burn_result, credit_result, debit_result, effective_from, has_live_operator_approval,
    lemma_debit_finite, min_u128, prune_entry, prune_result, revoke_all_result,
    revoke_token_result, send_batch_result, send_result, supply_add_result, supply_or_zero,
    supply_sub_result, LedgerView,
};
use crate::types::{BlockInfo, ContractError, Expiration, TokenApproval};

verus! {

broadcast use vstd::set::group_set_axioms;

/// The sum of all quantities a finite map holds.
pub open spec fn map_sum<K>(m: Map<K, u128>) -> int
    decreases m.dom().len(),
    when m.dom().finite()
{
    if m.dom().finite() && m.dom().len() > 0 {
        let k = m.dom().choose();
        m[k] + map_sum(m.remove(k))
    } else {
        0
    }
}

/// Removing one record subtracts exactly its quantity from the sum.
pub proof fn lemma_map_sum_remove<K>(m: Map<K, u128>, k: K)
    requires
        m.dom().finite(),
        m.dom().contains(k),
    ensures
        map_sum(m) == map_sum(m.remove(k)) + m[k],
    decreases m.dom().len(),
{
    let k0 = m.dom().choose();
    assert(m.dom().len() > 0);
    if k0 == k {
    } else {
        let m1 = m.remove(k0);
        let m2 = m.remove(k);
        lemma_map_sum_remove(m1, k);
        lemma_map_sum_remove(m2, k0);
        assert(m1.remove(k) =~= m2.remove(k0));
    }
}

/// Writing one record changes the sum by the difference between the new
/// quantity and the one it replaces (zero when the key was absent).
pub proof fn lemma_map_sum_insert<K>(m: Map<K, u128>, k: K, v: u128)
    requires
        m.dom().finite(),
    ensures
        map_sum(m.insert(k, v)) == map_sum(m) + v - (if m.dom().contains(k) {
            m[k] as int
        } else {
            0
        }),
{
    let m1 = m.insert(k, v);
    lemma_map_sum_remove(m1, k);
    if m.dom().contains(k) {
        lemma_map_sum_remove(m, k);
        assert(m1.remove(k) =~= m.remove(k));
    } else {
        assert(m1.remove(k) =~= m);
    }
}

/// An empty map sums to zero.
pub proof fn lemma_map_sum_empty<K>()
    ensures
        map_sum(Map::<K, u128>::empty()) == 0,
{
}

/// The balance records of one token type, across every owner.
pub open spec fn balances_for_token(
    b: Map<(Seq<char>, Seq<char>), u128>,
    token: Seq<char>,
) -> Map<(Seq<char>, Seq<char>), u128> {
    Map::new(|k: (Seq<char>, Seq<char>)| b.contains_key(k) && k.1 == token, |k| b[k])
}

/// The total quantity of one token type held across every owner.
pub open spec fn circulating(b: Map<(Seq<char>, Seq<char>), u128>, token: Seq<char>) -> int {
    map_sum(balances_for_token(b, token))
}

/// Restricting a finite balance region to one token type stays finite.
pub proof fn lemma_balances_for_token_finite(b: Map<(Seq<char>, Seq<char>), u128>, token: Seq<char>)
    requires
        b.dom().finite(),
    ensures
        balances_for_token(b, token).dom().finite(),
{
    assert(balances_for_token(b, token).dom().subset_of(b.dom()));
    vstd::set_lib::lemma_set_subset_finite(b.dom(), balances_for_token(b, token).dom());
}

/// Writing one balance record changes the total of its token type by the
/// difference, and the total of every other token type not at all.
pub proof fn lemma_circulating_insert(
    b: Map<(Seq<char>, Seq<char>), u128>,
    owner: Seq<char>,
    tok: Seq<char>,
    v: u128,
    token: Seq<char>,
)
    requires
        b.dom().finite(),
    ensures
        tok == token ==> circulating(b.insert((owner, tok), v), token) == circulating(b, token) + v
            - balance_or_zero(b, owner, tok),
        tok != token ==> circulating(b.insert((owner, tok), v), token) == circulating(b, token),
{
    lemma_balances_for_token_finite(b, token);
    if tok == token {
        assert(balances_for_token(b.insert((owner, tok), v), token) =~= balances_for_token(
            b,
            token,
        ).insert((owner, tok), v));
        lemma_map_sum_insert(balances_for_token(b, token), (owner, tok), v);
    } else {
        assert(balances_for_token(b.insert((owner, tok), v), token) =~= balances_for_token(
            b,
            token,
        ));
    }
}

/// The total quantity of one token type a batch names.
pub open spec fn entries_total(entries: Seq<(Seq<char>, u128)>, token: Seq<char>) -> int
    decreases entries.len(),
{
    if entries.len() == 0 {
        0
    } else {
        (if entries[0].0 == token {
            entries[0].1 as int
        } else {
            0
        }) + entries_total(entries.skip(1), token)
    }
}

/// A successful debit lowers each token type's total held quantity by exactly
/// what the batch names for it.
pub proof fn lemma_debit_circulating(
    b: Map<(Seq<char>, Seq<char>), u128>,
    owner: Seq<char>,
    entries: Seq<(Seq<char>, u128)>,
    token: Seq<char>,
)
    requires
        b.dom().finite(),
        debit_result(b, owner, entries) is Ok,
    ensures
        circulating(debit_result(b, owner, entries)->Ok_0, token) == circulating(b, token)
            - entries_total(entries, token),
    decreases entries.len(),
{
    if entries.len() > 0 {
        let t = entries[0].0;
        let a = entries[0].1;
        let b1 = b.insert((owner, t), (b[(owner, t)] - a) as u128);
        lemma_circulating_insert(b, owner, t, (b[(owner, t)] - a) as u128, token);
        lemma_debit_circulating(b1, owner, entries.skip(1), token);
    }
}

/// A successful credit raises each token type's total held quantity by
/// exactly what the batch names for it.
pub proof fn lemma_credit_circulating(
    b: Map<(Seq<char>, Seq<char>), u128>,
    owner: Seq<char>,
    entries: Seq<(Seq<char>, u128)>,
    token: Seq<char>,
)
    requires
        b.dom().finite(),
        credit_result(b, owner, entries) is Ok,
    ensures
        circulating(credit_result(b, owner, entries)->Ok_0, token) == circulating(b, token)
            + entries_total(entries, token),
    decreases entries.len(),
{
    if entries.len() > 0 {
        let t = entries[0].0;
        let a = entries[0].1;
        let cur = balance_or_zero(b, owner, t);
        let b1 = b.insert((owner, t), (cur + a) as u128);
        lemma_circulating_insert(b, owner, t, (cur + a) as u128, token);
        lemma_credit_circulating(b1, owner, entries.skip(1), token);
    }
}

/// A successful supply increment raises each token type's counter by exactly
/// what the batch names for it.
pub proof fn lemma_supply_add(
    s: Map<Seq<char>, u128>,
    entries: Seq<(Seq<char>, u128)>,
    token: Seq<char>,
)
    requires
        supply_add_result(s, entries) is Ok,
    ensures
        supply_or_zero(supply_add_result(s, entries)->Ok_0, token) == supply_or_zero(s, token)
            + entries_total(entries, token),
    decreases entries.len(),
{
    if entries.len() > 0 {
        let t = entries[0].0;
        let a = entries[0].1;
        let cur = supply_or_zero(s, t);
        lemma_supply_add(s.insert(t, (cur + a) as u128), entries.skip(1), token);
    }
}

/// A successful supply decrement lowers each token type's counter by exactly
/// what the batch names for it.
pub proof fn lemma_supply_sub(
    s: Map<Seq<char>, u128>,
    entries: Seq<(Seq<char>, u128)>,
    token: Seq<char>,
)
    requires
        supply_sub_result(s, entries) is Ok,
    ensures
        supply_or_zero(supply_sub_result(s, entries)->Ok_0, token) == supply_or_zero(s, token)
            - entries_total(entries, token),
    decreases entries.len(),
{
    if entries.len() > 0 {
        let t = entries[0].0;
        let a = entries[0].1;
        let cur = supply_or_zero(s, t);
        lemma_supply_sub(s.insert(t, (cur - a) as u128), entries.skip(1), token);
    }
}

/// For every token type, the quantities held across all owners sum to the
/// issued supply.
pub open spec fn supply_consistent(v: LedgerView) -> bool {
    forall|token: Seq<char>| #![trigger supply_or_zero(v.supplies, token)]
        supply_or_zero(v.supplies, token) == circulating(v.balances, token)
}

/// The freshly opened ledger is supply-consistent: nothing is held and
/// nothing is issued.
pub proof fn lemma_empty_supply_consistent()
    ensures
        supply_consistent(LedgerView::empty()),
{
    assert forall|token: Seq<char>|
        supply_or_zero(LedgerView::empty().supplies, token) == circulating(
            LedgerView::empty().balances,
            token,
        ) by {
        assert(balances_for_token(LedgerView::empty().balances, token) =~= Map::<
            (Seq<char>, Seq<char>),
            u128,
        >::empty());
        lemma_map_sum_empty::<(Seq<char>, Seq<char>)>();
    }
}

/// Supply conservation: every successful batch update — every mint, transfer
/// and burn — keeps each token type's issued supply equal to the sum of that
/// token type's balances over all owners. A transfer moves quantities between
/// owners and leaves both sides unchanged; a mint raises both by the minted
/// amounts; a burn lowers both by the burned amounts.
pub proof fn lemma_batch_preserves_supply_consistency(
    v: LedgerView,
    block: BlockInfo,
    from: Option<Seq<char>>,
    to: Option<Seq<char>>,
    entries: Seq<(Seq<char>, u128)>,
)
    requires
        v.wf(),
        supply_consistent(v),
        batch_result(v, block, from, to, entries) is Ok,
    ensures
        supply_consistent(batch_result(v, block, from, to, entries)->Ok_0),
{
    let w = batch_result(v, block, from, to, entries)->Ok_0;
    assert forall|token: Seq<char>|
        supply_or_zero(w.supplies, token) == circulating(w.balances, token) by {
        match from {
            Some(f) => {
                lemma_debit_circulating(v.balances, f, entries, token);
                lemma_debit_finite(v.balances, f, entries);
                let b1 = debit_result(v.balances, f, entries)->Ok_0;
                match to {
                    Some(t) => {
                        lemma_credit_circulating(b1, t, entries, token);
                    },
                    None => {
                        lemma_supply_sub(v.supplies, entries, token);
                    },
                }
            },
            None => {
                match to {
                    Some(t) => {
                        lemma_credit_circulating(v.balances, t, entries, token);
                        lemma_supply_add(v.supplies, entries, token);
                    },
                    None => {},
                }
            },
        }
    }
}

/// Supply conservation across the caller-facing transfer and burn
/// operations, single or batched: whatever authorization decided, a
/// successful call keeps every token type's issued supply equal to the sum
/// of its balances over all owners.
pub proof fn lemma_ops_preserve_supply_consistency(
    v: LedgerView,
    block: BlockInfo,
    sender: Seq<char>,
    from: Option<Seq<char>>,
    to: Seq<char>,
    token: Seq<char>,
    amount: u128,
    entries: Seq<(Seq<char>, u128)>,
)
    requires
        v.wf(),
        supply_consistent(v),
    ensures
        send_result(v, block, sender, from, to, token, amount) matches Ok(w)
            ==> supply_consistent(w),
        burn_result(v, block, sender, from, token, amount) matches Ok(w) ==> supply_consistent(w),
        send_batch_result(v, block, sender, from, to, entries) matches Ok(w)
            ==> supply_consistent(w),
        burn_batch_result(v, block, sender, from, entries) matches Ok(w) ==> supply_consistent(w),
{
    let f = effective_from(from, sender);
    if send_result(v, block, sender, from, to, token, amount) is Ok {
        let a = authorize_result(v, block, sender, f, token, amount)->Ok_0;
        lemma_batch_preserves_supply_consistency(v, block, Some(f), Some(to), seq![(token, a)]);
    }
    if burn_result(v, block, sender, from, token, amount) is Ok {
        let a = authorize_result(v, block, sender, f, token, amount)->Ok_0;
        lemma_batch_preserves_supply_consistency(v, block, Some(f), None, seq![(token, a)]);
    }
    if send_batch_result(v, block, sender, from, to, entries) is Ok {
        let authorized = authorize_all_result(v, block, sender, f, entries)->Ok_0;
        lemma_batch_preserves_supply_consistency(v, block, Some(f), Some(to), authorized);
    }
    if burn_batch_result(v, block, sender, from, entries) is Ok {
        let authorized = authorize_all_result(v, block, sender, f, entries)->Ok_0;
        lemma_batch_preserves_supply_consistency(v, block, Some(f), None, authorized);
    }
}

/// Granting or revoking an approval — scoped or blanket — never changes a
/// balance or a supply counter, so supply consistency is kept.
pub proof fn lemma_approval_ops_preserve_supply_consistency(
    v: LedgerView,
    block: BlockInfo,
    sender: Seq<char>,
    operator: Seq<char>,
    token: Seq<char>,
    amount: Option<u128>,
    expiration: Option<Expiration>,
)
    requires
        supply_consistent(v),
    ensures
        approve_token_result(v, block, sender, operator, token, amount, expiration) matches Ok(w)
            ==> supply_consistent(w),
        approve_all_result(v, block, sender, operator, expiration) matches Ok(w)
            ==> supply_consistent(w),
        revoke_token_result(v, sender, operator, token, amount) matches Ok(w)
            ==> supply_consistent(w),
        supply_consistent(revoke_all_result(v, sender, operator)),
{
}

/// Capped debits: an authorized debit never exceeds the owner's current
/// balance (so the post-debit balance is never negative), never exceeds the
/// request, and a request beyond the balance is reduced to it — not rejected
/// — whenever the sender is the owner or holds a live blanket approval. A
/// debit of the authorized amount against an existing balance record always
/// succeeds.
pub proof fn lemma_authorize_caps(
    v: LedgerView,
    block: BlockInfo,
    operator: Seq<char>,
    owner: Seq<char>,
    token: Seq<char>,
    amount: u128,
)
    ensures
        authorize_result(v, block, operator, owner, token, amount) matches Ok(a) ==> a
            <= balance_or_zero(v.balances, owner, token) && a <= amount,
        (operator == owner || has_live_operator_approval(v, block, owner, operator))
            ==> authorize_result(v, block, operator, owner, token, amount) == Ok::<
            u128,
            ContractError,
        >(min_u128(amount, balance_or_zero(v.balances, owner, token))),
        authorize_result(v, block, operator, owner, token, amount) is Ok
            && v.balances.contains_key((owner, token)) ==> debit_result(
            v.balances,
            owner,
            seq![(token, authorize_result(v, block, operator, owner, token, amount)->Ok_0)],
        ) is Ok,
{
    if authorize_result(v, block, operator, owner, token, amount) is Ok && v.balances.contains_key(
        (owner, token),
    ) {
        let a = authorize_result(v, block, operator, owner, token, amount)->Ok_0;
        let b1 = v.balances.insert((owner, token), (v.balances[(owner, token)] - a) as u128);
        assert(seq![(token, a)].skip(1) =~= Seq::<(Seq<char>, u128)>::empty());
        assert(debit_result(b1, owner, seq![(token, a)].skip(1)) == Ok::<
            Map<(Seq<char>, Seq<char>), u128>,
            ContractError,
        >(b1));
    }
}

/// Cross-operator pruning: a successful batch that debits `amount` of
/// `token` from `from` prunes the scoped approval of *every* operator for
/// (token, from) — not only the initiating operator's: an approval that is
/// expired, or whose remaining amount does not exceed the debit, is deleted;
/// any other is decremented by exactly the debited amount.
pub proof fn lemma_debit_prunes_every_operator(
    v: LedgerView,
    block: BlockInfo,
    from: Seq<char>,
    to: Option<Seq<char>>,
    token: Seq<char>,
    amount: u128,
    operator: Seq<char>,
)
    requires
        batch_result(v, block, Some(from), to, seq![(token, amount)]) is Ok,
        v.token_approvals.contains_key((token, from, operator)),
    ensures
        ({
            let w = batch_result(v, block, Some(from), to, seq![(token, amount)])->Ok_0;
            let app = v.token_approvals[(token, from, operator)];
            if app.expiration.spec_is_expired(block) || app.amount <= amount {
                !w.token_approvals.contains_key((token, from, operator))
            } else {
                w.token_approvals.contains_key((token, from, operator))
                    && w.token_approvals[(token, from, operator)] == (TokenApproval {
                    amount: (app.amount - amount) as u128,
                    expiration: app.expiration,
                })
            }
        }),
{
    let entries: Seq<(Seq<char>, u128)> = seq![(token, amount)];
    assert(entries.skip(1) =~= Seq::<(Seq<char>, u128)>::empty());
    let pruned = prune_entry(v.token_approvals, block, from, token, amount);
    assert(prune_result(pruned, block, from, entries.skip(1)) == pruned);
}

/// Grant-time bound: a scoped approval's stored amount never exceeds the
/// owner's balance of the token type at the moment the approval is created.
/// Later balance changes do not re-validate it.
pub proof fn lemma_approval_bounded_at_grant(
    v: LedgerView,
    block: BlockInfo,
    sender: Seq<char>,
    operator: Seq<char>,
    token: Seq<char>,
    amount: Option<u128>,
    expiration: Option<Expiration>,
)
    ensures
        approve_token_result(v, block, sender, operator, token, amount, expiration) matches Ok(w)
            ==> w.token_approvals[(token, sender, operator)].amount <= balance_or_zero(
            v.balances,
            sender,
            token,
        ),
        approve_stored_amount(v, sender, token, amount) <= balance_or_zero(v.balances, sender, token),
{
}

/// Full revocation: revoking a scoped approval without naming an amount
/// removes the whole record, so a following approval query for the same
/// (owner, operator, token) key finds none, and no authority through that
/// key remains.
pub proof fn lemma_revoke_full_then_none(
    v: LedgerView,
    block: BlockInfo,
    sender: Seq<char>,
    operator: Seq<char>,
    token: Seq<char>,
)
    requires
        v.token_approvals.contains_key((token, sender, operator)),
    ensures
        revoke_token_result(v, sender, operator, token, None) is Ok,
        !(revoke_token_result(v, sender, operator, token, None)->Ok_0).token_approvals.contains_key(
            (token, sender, operator),
        ),
        active_token_approval(
            revoke_token_result(v, sender, operator, token, None)->Ok_0,
            block,
            sender,
            operator,
            token,
        ) is None,
{
}

} // verus!
