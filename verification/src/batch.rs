//! The staged steps of the atomic batch update: debits, credits, approval
//! pruning and supply adjustment, each a loop over the batch entries working
//! on a staged copy of one region.

use vstd::prelude::*;

use crate::model::{
    credit_result, debit_result, entry_pairs_skip_one, prune_entry, prune_kills, prune_result,
    pruned_value, supply_add_result, supply_sub_result,
};
use crate::store::{
    balances_of, fits_key_component, list_token_approvals, load_balance, load_supply,
    remove_token_approval, save_balance, save_supply, save_token_approval, supplies_of,
    token_approvals_of,
};
use crate::types::{entry_pairs, BlockInfo, ContractError, TokenAmount, TokenApproval};

verus! {

/// Debits every entry of the batch from `owner`'s balances, in order, exactly
/// as [`debit_result`] describes; on failure the staged store is abandoned by
/// the caller.
pub(crate) fn apply_debits(
    bal: &mut cosmwasm_std::MemoryStorage,
    owner: &String,
    entries: &Vec<TokenAmount>,
) -> (r: Result<(), ContractError>)
    requires
        fits_key_component(owner@),
    ensures
        match r {
            Ok(_) => debit_result(balances_of(*old(bal)), owner@, entry_pairs(entries@))
                == Ok::<Map<(Seq<char>, Seq<char>), u128>, ContractError>(
                balances_of(*final(bal)),
            ),
            Err(e) => debit_result(balances_of(*old(bal)), owner@, entry_pairs(entries@))
                == Err::<Map<(Seq<char>, Seq<char>), u128>, ContractError>(e),
        },
{
    proof {
        assert(entry_pairs(entries@).skip(0) =~= entry_pairs(entries@));
    }
    let n = entries.len();
    for i in 0..n
        invariant
            n == entries.len(),
            fits_key_component(owner@),
            debit_result(balances_of(*old(bal)), owner@, entry_pairs(entries@)) == debit_result(
                balances_of(*bal),
                owner@,
                entry_pairs(entries@).skip(i as int),
            ),
    {
        let e = &entries[i];
        proof {
            entry_pairs_skip_one(entries@, i as int);
        }
        match load_balance(bal, owner, &e.token_id) {
            None => {
                return Err(ContractError::NotFound);
            },
            Some(cur) => {
                if cur < e.amount {
                    return Err(ContractError::InsufficientBalance);
                }
                save_balance(bal, owner, &e.token_id, cur - e.amount);
            },
        }
    }
    proof {
        assert(entry_pairs(entries@).skip(n as int) =~= Seq::<(Seq<char>, u128)>::empty());
    }
    Ok(())
}

/// Credits every entry of the batch to `owner`'s balances, in order, exactly
/// as [`credit_result`] describes.
pub(crate) fn apply_credits(
    bal: &mut cosmwasm_std::MemoryStorage,
    owner: &String,
    entries: &Vec<TokenAmount>,
) -> (r: Result<(), ContractError>)
    requires
        fits_key_component(owner@),
    ensures
        match r {
            Ok(_) => credit_result(balances_of(*old(bal)), owner@, entry_pairs(entries@))
                == Ok::<Map<(Seq<char>, Seq<char>), u128>, ContractError>(
                balances_of(*final(bal)),
            ),
            Err(e) => credit_result(balances_of(*old(bal)), owner@, entry_pairs(entries@))
                == Err::<Map<(Seq<char>, Seq<char>), u128>, ContractError>(e),
        },
{
    proof {
        assert(entry_pairs(entries@).skip(0) =~= entry_pairs(entries@));
    }
    let n = entries.len();
    for i in 0..n
        invariant
            n == entries.len(),
            fits_key_component(owner@),
            credit_result(balances_of(*old(bal)), owner@, entry_pairs(entries@)) == credit_result(
                balances_of(*bal),
                owner@,
                entry_pairs(entries@).skip(i as int),
            ),
    {
        let e = &entries[i];
        proof {
            entry_pairs_skip_one(entries@, i as int);
        }
        let cur = match load_balance(bal, owner, &e.token_id) {
            Some(a) => a,
            None => 0,
        };
        if cur > u128::MAX - e.amount {
            return Err(ContractError::Overflow);
        }
        save_balance(bal, owner, &e.token_id, cur + e.amount);
    }
    proof {
        assert(entry_pairs(entries@).skip(n as int) =~= Seq::<(Seq<char>, u128)>::empty());
    }
    Ok(())
}

/// Increments the supply counter of every entry's token type, in order,
/// exactly as [`supply_add_result`] describes.
pub(crate) fn apply_supply_add(
    sup: &mut cosmwasm_std::MemoryStorage,
    entries: &Vec<TokenAmount>,
) -> (r: Result<(), ContractError>)
    ensures
        match r {
            Ok(_) => supply_add_result(supplies_of(*old(sup)), entry_pairs(entries@)) == Ok::<
                Map<Seq<char>, u128>,
                ContractError,
            >(supplies_of(*final(sup))),
            Err(e) => supply_add_result(supplies_of(*old(sup)), entry_pairs(entries@)) == Err::<
                Map<Seq<char>, u128>,
                ContractError,
            >(e),
        },
{
    proof {
        assert(entry_pairs(entries@).skip(0) =~= entry_pairs(entries@));
    }
    let n = entries.len();
    for i in 0..n
        invariant
            n == entries.len(),
            supply_add_result(supplies_of(*old(sup)), entry_pairs(entries@)) == supply_add_result(
                supplies_of(*sup),
                entry_pairs(entries@).skip(i as int),
            ),
    {
        let e = &entries[i];
        proof {
            entry_pairs_skip_one(entries@, i as int);
        }
        let cur = match load_supply(sup, &e.token_id) {
            Some(a) => a,
            None => 0,
        };
        if cur > u128::MAX - e.amount {
            return Err(ContractError::Overflow);
        }
        save_supply(sup, &e.token_id, cur + e.amount);
    }
    proof {
        assert(entry_pairs(entries@).skip(n as int) =~= Seq::<(Seq<char>, u128)>::empty());
    }
    Ok(())
}

/// Decrements the supply counter of every entry's token type, in order,
/// exactly as [`supply_sub_result`] describes.
pub(crate) fn apply_supply_sub(
    sup: &mut cosmwasm_std::MemoryStorage,
    entries: &Vec<TokenAmount>,
) -> (r: Result<(), ContractError>)
    ensures
        match r {
            Ok(_) => supply_sub_result(supplies_of(*old(sup)), entry_pairs(entries@)) == Ok::<
                Map<Seq<char>, u128>,
                ContractError,
            >(supplies_of(*final(sup))),
            Err(e) => supply_sub_result(supplies_of(*old(sup)), entry_pairs(entries@)) == Err::<
                Map<Seq<char>, u128>,
                ContractError,
            >(e),
        },
{
    proof {
        assert(entry_pairs(entries@).skip(0) =~= entry_pairs(entries@));
    }
    let n = entries.len();
    for i in 0..n
        invariant
            n == entries.len(),
            supply_sub_result(supplies_of(*old(sup)), entry_pairs(entries@)) == supply_sub_result(
                supplies_of(*sup),
                entry_pairs(entries@).skip(i as int),
            ),
    {
        let e = &entries[i];
        proof {
            entry_pairs_skip_one(entries@, i as int);
        }
        let cur = match load_supply(sup, &e.token_id) {
            Some(a) => a,
            None => 0,
        };
        if cur < e.amount {
            return Err(ContractError::Overflow);
        }
        save_supply(sup, &e.token_id, cur - e.amount);
    }
    proof {
        assert(entry_pairs(entries@).skip(n as int) =~= Seq::<(Seq<char>, u128)>::empty());
    }
    Ok(())
}

/// Prunes the scoped approvals of `owner` for one debited entry: every
/// operator's approval of the debited token type is deleted when expired or
/// not larger than the debit, and decremented by the debited amount
/// otherwise, exactly as [`prune_entry`] describes.
#[verifier::loop_isolation(false)]
pub(crate) fn prune_token(
    apps: &mut cosmwasm_std::MemoryStorage,
    block: &BlockInfo,
    owner: &String,
    token_id: &String,
    amount: u128,
)
    requires
        fits_key_component(owner@),
        fits_key_component(token_id@),
    ensures
        token_approvals_of(*final(apps)) == prune_entry(
            token_approvals_of(*old(apps)),
            *block,
            owner@,
            token_id@,
            amount,
        ),
{
    let list = list_token_approvals(apps, token_id, owner);
    let ghost m0 = token_approvals_of(*apps);
    let n = list.len();
    for j in 0..n
        invariant
            n == list@.len(),
            // what the listing said of the starting region
            forall|l: int| #![trigger list@[l]]
                0 <= l < list@.len() ==> m0.contains_key((token_id@, owner@, list@[l].0@))
                    && list@[l].1 == m0[(token_id@, owner@, list@[l].0@)],
            forall|l: int, l2: int| 0 <= l < l2 < list@.len() ==> list@[l].0@ != list@[l2].0@,
            forall|k: (Seq<char>, Seq<char>, Seq<char>)|
                #[trigger] m0.contains_key(k) && k.0 == token_id@ && k.1 == owner@ ==> listed(
                    list@,
                    list@.len() as int,
                    k.2,
                ),
            // keys whose operator was not processed yet are unchanged
            forall|k: (Seq<char>, Seq<char>, Seq<char>)|
                #![trigger m0.contains_key(k)]
                #![trigger token_approvals_of(*apps).contains_key(k)]
                !(k.0 == token_id@ && k.1 == owner@ && listed(list@, j as int, k.2)) ==> (
                token_approvals_of(*apps).contains_key(k) == m0.contains_key(k) && (
                m0.contains_key(k) ==> token_approvals_of(*apps)[k] == m0[k])),
            // processed operators carry the pruned outcome
            forall|l: int| #![trigger list@[l]]
                0 <= l < j ==> {
                    let k = (token_id@, owner@, list@[l].0@);
                    if prune_kills(m0[k], *block, amount) {
                        !token_approvals_of(*apps).contains_key(k)
                    } else {
                        token_approvals_of(*apps).contains_key(k) && token_approvals_of(*apps)[k]
                            == pruned_value(m0[k], amount)
                    }
                },
    {
        let op = &list[j].0;
        let app = &list[j].1;
        if app.expiration.is_expired(block) || app.amount <= amount {
            remove_token_approval(apps, token_id, owner, op);
        } else {
            save_token_approval(
                apps,
                token_id,
                owner,
                op,
                TokenApproval { amount: app.amount - amount, expiration: app.expiration },
            );
        }
        proof {
            assert(listed(list@, j as int + 1, list@[j as int].0@));
        }
    }
    proof {
        let cur = token_approvals_of(*apps);
        let target = prune_entry(m0, *block, owner@, token_id@, amount);
        assert forall|k: (Seq<char>, Seq<char>, Seq<char>)|
            #[trigger] m0.contains_key(k) && k.0 == token_id@ && k.1 == owner@ implies {
            &&& cur.contains_key(k) == target.contains_key(k)
            &&& target.contains_key(k) ==> cur[k] == target[k]
        } by {
            let l = choose|l: int|
                #![trigger list@[l]]
                0 <= l < list@.len() && list@[l].0@ == k.2;
            assert(list@[l].1 == m0[k]);
        }
        assert(cur =~= target);
    }
}

/// Whether one of the first `j` listed operators is `op`.
spec fn listed(list: Seq<(String, TokenApproval)>, j: int, op: Seq<char>) -> bool {
    exists|l: int| #![trigger list[l]] 0 <= l < j && list[l].0@ == op
}

/// Prunes the scoped approvals of `owner` for every entry of the batch, in
/// order, exactly as [`prune_result`] describes.
pub(crate) fn prune_batch(
    apps: &mut cosmwasm_std::MemoryStorage,
    block: &BlockInfo,
    owner: &String,
    entries: &Vec<TokenAmount>,
)
    requires
        fits_key_component(owner@),
        forall|i: int| #![trigger entries@[i]]
            0 <= i < entries@.len() ==> fits_key_component(entries@[i].token_id@),
    ensures
        token_approvals_of(*final(apps)) == prune_result(
            token_approvals_of(*old(apps)),
            *block,
            owner@,
            entry_pairs(entries@),
        ),
{
    proof {
        assert(entry_pairs(entries@).skip(0) =~= entry_pairs(entries@));
    }
    let n = entries.len();
    for i in 0..n
        invariant
            n == entries.len(),
            fits_key_component(owner@),
            forall|l: int| #![trigger entries@[l]]
                0 <= l < entries@.len() ==> fits_key_component(entries@[l].token_id@),
            prune_result(token_approvals_of(*old(apps)), *block, owner@, entry_pairs(entries@))
                == prune_result(
                token_approvals_of(*apps),
                *block,
                owner@,
                entry_pairs(entries@).skip(i as int),
            ),
    {
        let e = &entries[i];
        proof {
            entry_pairs_skip_one(entries@, i as int);
        }
        prune_token(apps, block, owner, &e.token_id, e.amount);
    }
    proof {
        assert(entry_pairs(entries@).skip(n as int) =~= Seq::<(Seq<char>, u128)>::empty());
    }
}

} // verus!
