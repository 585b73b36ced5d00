//! The mathematical model of the ledger.
//!
//! A [`LedgerView`] abstracts the four persisted regions as maps over plain
//! values. Every operation of the ledger is specified here as a function from
//! a view (and the call's inputs) to either the resulting view or the error
//! the operation reports; the executable code's contracts are stated against
//! these functions.

use vstd::prelude::*;

use crate::types::{
    entry_pairs, BlockInfo, ContractError, Cw1155MintMsg, Expiration, LedgerEvent, TokenAmount,
    TokenApproval, TokenInfo,
};

verus! {

/// Stepping through a batch: the pairs of the entries from position `i`
/// start with entry `i`'s pair and continue with the pairs from `i + 1`.
pub proof fn entry_pairs_skip_one(entries: Seq<TokenAmount>, i: int)
    requires
        0 <= i < entries.len(),
    ensures
        entry_pairs(entries).skip(i).len() == entries.len() - i,
        entry_pairs(entries).skip(i)[0] == (entries[i].token_id@, entries[i].amount),
        entry_pairs(entries).skip(i).skip(1) == entry_pairs(entries).skip(i + 1),
{
    assert(entry_pairs(entries).skip(i).skip(1) =~= entry_pairs(entries).skip(i + 1));
}

/// The abstract state of the ledger: the four key-value regions.
pub ghost struct LedgerView {
    /// (owner, token type) to quantity held.
    pub balances: Map<(Seq<char>, Seq<char>), u128>,
    /// (token type, owner, operator) to scoped approval record.
    pub token_approvals: Map<(Seq<char>, Seq<char>, Seq<char>), TokenApproval>,
    /// (owner, operator) to blanket approval expiration.
    pub operator_approvals: Map<(Seq<char>, Seq<char>), Expiration>,
    /// Token type to issued quantity.
    pub supplies: Map<Seq<char>, u128>,
}

impl LedgerView {
    /// Every region holds finitely many records.
    pub open spec fn wf(self) -> bool {
        &&& self.balances.dom().finite()
        &&& self.token_approvals.dom().finite()
        &&& self.operator_approvals.dom().finite()
        &&& self.supplies.dom().finite()
    }

    /// The ledger with no records at all.
    pub open spec fn empty() -> LedgerView {
        LedgerView {
            balances: Map::empty(),
            token_approvals: Map::empty(),
            operator_approvals: Map::empty(),
            supplies: Map::empty(),
        }
    }
}

/// The smaller of two quantities.
pub open spec fn min_u128(a: u128, b: u128) -> u128 {
    if a <= b {
        a
    } else {
        b
    }
}

/// An owner's balance of a token type, with a missing record read as zero.
pub open spec fn balance_or_zero(
    b: Map<(Seq<char>, Seq<char>), u128>,
    owner: Seq<char>,
    token: Seq<char>,
) -> u128 {
    if b.contains_key((owner, token)) {
        b[(owner, token)]
    } else {
        0
    }
}

/// The issued supply of a token type, with a missing record read as zero.
pub open spec fn supply_or_zero(s: Map<Seq<char>, u128>, token: Seq<char>) -> u128 {
    if s.contains_key(token) {
        s[token]
    } else {
        0
    }
}

/// The view of an optional identity.
pub open spec fn opt_str_view(o: Option<String>) -> Option<Seq<char>> {
    match o {
        Some(s) => Some(s@),
        None => None,
    }
}

/// Debits every entry of a batch, in order, from one owner's balances.
/// Fails with `NotFound` when the owner has no balance record of an entry's
/// token type, and with `InsufficientBalance` when the record cannot cover
/// the entry's amount.
pub open spec fn debit_result(
    b: Map<(Seq<char>, Seq<char>), u128>,
    owner: Seq<char>,
    entries: Seq<(Seq<char>, u128)>,
) -> Result<Map<(Seq<char>, Seq<char>), u128>, ContractError>
    decreases entries.len(),
{
    if entries.len() == 0 {
        Ok(b)
    } else {
        let t = entries[0].0;
        let a = entries[0].1;
        if !b.contains_key((owner, t)) {
            Err(ContractError::NotFound)
        } else if b[(owner, t)] < a {
            Err(ContractError::InsufficientBalance)
        } else {
            debit_result(
                b.insert((owner, t), (b[(owner, t)] - a) as u128),
                owner,
                entries.skip(1),
            )
        }
    }
}

/// Credits every entry of a batch, in order, to one owner's balances,
/// creating a record at zero on first credit. Fails with `Overflow` when a
/// credit would exceed the quantity type.
pub open spec fn credit_result(
    b: Map<(Seq<char>, Seq<char>), u128>,
    owner: Seq<char>,
    entries: Seq<(Seq<char>, u128)>,
) -> Result<Map<(Seq<char>, Seq<char>), u128>, ContractError>
    decreases entries.len(),
{
    if entries.len() == 0 {
        Ok(b)
    } else {
        let t = entries[0].0;
        let a = entries[0].1;
        let cur = balance_or_zero(b, owner, t);
        if cur + a > u128::MAX {
            Err(ContractError::Overflow)
        } else {
            credit_result(b.insert((owner, t), (cur + a) as u128), owner, entries.skip(1))
        }
    }
}

/// Whether a debit of `amount` deletes a scoped approval outright: it is
/// already expired, or the debit consumes its whole remaining amount.
pub open spec fn prune_kills(app: TokenApproval, block: BlockInfo, amount: u128) -> bool {
    app.expiration.spec_is_expired(block) || app.amount <= amount
}

/// A scoped approval after a debit of `amount` that does not delete it.
pub open spec fn pruned_value(app: TokenApproval, amount: u128) -> TokenApproval {
    TokenApproval { amount: (app.amount - amount) as u128, expiration: app.expiration }
}

/// Prunes the scoped approvals after one debit of `amount` of `token` from
/// `owner`: for every operator, the approval keyed (token, owner, operator)
/// is deleted when expired or not larger than the debit, and decremented by
/// the debited amount otherwise. Approvals under other keys are untouched.
pub open spec fn prune_entry(
    apps: Map<(Seq<char>, Seq<char>, Seq<char>), TokenApproval>,
    block: BlockInfo,
    owner: Seq<char>,
    token: Seq<char>,
    amount: u128,
) -> Map<(Seq<char>, Seq<char>, Seq<char>), TokenApproval> {
    Map::new(
        |k: (Seq<char>, Seq<char>, Seq<char>)|
            apps.contains_key(k) && !(k.0 == token && k.1 == owner && prune_kills(
                apps[k],
                block,
                amount,
            )),
        |k: (Seq<char>, Seq<char>, Seq<char>)|
            if k.0 == token && k.1 == owner {
                pruned_value(apps[k], amount)
            } else {
                apps[k]
            },
    )
}

/// Prunes the scoped approvals for every entry of a batch, in order.
pub open spec fn prune_result(
    apps: Map<(Seq<char>, Seq<char>, Seq<char>), TokenApproval>,
    block: BlockInfo,
    owner: Seq<char>,
    entries: Seq<(Seq<char>, u128)>,
) -> Map<(Seq<char>, Seq<char>, Seq<char>), TokenApproval>
    decreases entries.len(),
{
    if entries.len() == 0 {
        apps
    } else {
        prune_result(
            prune_entry(apps, block, owner, entries[0].0, entries[0].1),
            block,
            owner,
            entries.skip(1),
        )
    }
}

/// Increments the supply of every entry's token type, in order. Fails with
/// `Overflow` when a counter would exceed the quantity type.
pub open spec fn supply_add_result(
    s: Map<Seq<char>, u128>,
    entries: Seq<(Seq<char>, u128)>,
) -> Result<Map<Seq<char>, u128>, ContractError>
    decreases entries.len(),
{
    if entries.len() == 0 {
        Ok(s)
    } else {
        let t = entries[0].0;
        let a = entries[0].1;
        let cur = supply_or_zero(s, t);
        if cur + a > u128::MAX {
            Err(ContractError::Overflow)
        } else {
            supply_add_result(s.insert(t, (cur + a) as u128), entries.skip(1))
        }
    }
}

/// Decrements the supply of every entry's token type, in order. Fails with
/// `Overflow` when a counter would fall below zero.
pub open spec fn supply_sub_result(
    s: Map<Seq<char>, u128>,
    entries: Seq<(Seq<char>, u128)>,
) -> Result<Map<Seq<char>, u128>, ContractError>
    decreases entries.len(),
{
    if entries.len() == 0 {
        Ok(s)
    } else {
        let t = entries[0].0;
        let a = entries[0].1;
        let cur = supply_or_zero(s, t);
        if cur < a {
            Err(ContractError::Overflow)
        } else {
            supply_sub_result(s.insert(t, (cur - a) as u128), entries.skip(1))
        }
    }
}

/// The atomic batch update. Debits `from` (when present), credits `to` (when
/// present), prunes every scoped approval of a debited owner, and adjusts the
/// supply counters when the batch is a mint or a burn. Either every step of
/// every entry succeeds and the resulting view is returned, or the first
/// failure's error is reported and the ledger is unchanged.
pub open spec fn batch_result(
    v: LedgerView,
    block: BlockInfo,
    from: Option<Seq<char>>,
    to: Option<Seq<char>>,
    entries: Seq<(Seq<char>, u128)>,
) -> Result<LedgerView, ContractError> {
    let debited = match from {
        Some(f) => debit_result(v.balances, f, entries),
        None => Ok(v.balances),
    };
    match debited {
        Err(e) => Err(e),
        Ok(b1) => {
            let credited = match to {
                Some(t) => credit_result(b1, t, entries),
                None => Ok(b1),
            };
            match credited {
                Err(e) => Err(e),
                Ok(b2) => {
                    let apps = match from {
                        Some(f) => prune_result(v.token_approvals, block, f, entries),
                        None => v.token_approvals,
                    };
                    let supplied = if from is Some && to is None {
                        supply_sub_result(v.supplies, entries)
                    } else if from is None && to is Some {
                        supply_add_result(v.supplies, entries)
                    } else {
                        Ok(v.supplies)
                    };
                    match supplied {
                        Err(e) => Err(e),
                        Ok(sp) => Ok(
                            LedgerView {
                                balances: b2,
                                token_approvals: apps,
                                operator_approvals: v.operator_approvals,
                                supplies: sp,
                            },
                        ),
                    }
                },
            }
        },
    }
}

/// Whether the registry already holds metadata for a token type.
pub open spec fn has_meta(tokens: Seq<TokenInfo>, token: Seq<char>) -> bool {
    exists|i: int| 0 <= i < tokens.len() && tokens[i].token_id@ == token
}

/// The metadata record a mint request registers.
pub open spec fn msg_token_info(msg: Cw1155MintMsg) -> TokenInfo {
    TokenInfo { token_id: msg.token_id, token_uri: msg.token_uri, extension: msg.extension }
}

/// The metadata registry after a batch of mint requests: each request whose
/// token type was not seen before appends its record; metadata already
/// registered is never changed.
pub open spec fn register_result(
    tokens: Seq<TokenInfo>,
    msgs: Seq<Cw1155MintMsg>,
) -> Seq<TokenInfo>
    decreases msgs.len(),
{
    if msgs.len() == 0 {
        tokens
    } else {
        let grown = if has_meta(tokens, msgs[0].token_id@) {
            tokens
        } else {
            tokens.push(msg_token_info(msgs[0]))
        };
        register_result(grown, msgs.skip(1))
    }
}

/// The event a successful batch reports: a transfer when both owners are
/// present, a burn when only the debited owner is, a mint when only the
/// credited owner is.
pub open spec fn batch_event(
    from: Option<String>,
    to: Option<String>,
    entries: Vec<TokenAmount>,
) -> LedgerEvent
    recommends
        from is Some || to is Some,
{
    match (from, to) {
        (Some(f), Some(t)) => LedgerEvent::Transfer { from: f, to: t, entries },
        (Some(f), None) => LedgerEvent::Burn { from: f, entries },
        (None, Some(t)) => LedgerEvent::Mint { to: t, entries },
        (None, None) => vstd::pervasive::arbitrary(),
    }
}

/// Debiting keeps the balance region finite.
pub proof fn lemma_debit_finite(
    b: Map<(Seq<char>, Seq<char>), u128>,
    owner: Seq<char>,
    entries: Seq<(Seq<char>, u128)>,
)
    requires
        b.dom().finite(),
        debit_result(b, owner, entries) is Ok,
    ensures
        (debit_result(b, owner, entries)->Ok_0).dom().finite(),
    decreases entries.len(),
{
    if entries.len() > 0 {
        let t = entries[0].0;
        let a = entries[0].1;
        lemma_debit_finite(
            b.insert((owner, t), (b[(owner, t)] - a) as u128),
            owner,
            entries.skip(1),
        );
    }
}

/// Crediting keeps the balance region finite.
pub proof fn lemma_credit_finite(
    b: Map<(Seq<char>, Seq<char>), u128>,
    owner: Seq<char>,
    entries: Seq<(Seq<char>, u128)>,
)
    requires
        b.dom().finite(),
        credit_result(b, owner, entries) is Ok,
    ensures
        (credit_result(b, owner, entries)->Ok_0).dom().finite(),
    decreases entries.len(),
{
    if entries.len() > 0 {
        let t = entries[0].0;
        let a = entries[0].1;
        let cur = balance_or_zero(b, owner, t);
        lemma_credit_finite(b.insert((owner, t), (cur + a) as u128), owner, entries.skip(1));
    }
}

/// Supply increments keep the supply region finite.
pub proof fn lemma_supply_add_finite(s: Map<Seq<char>, u128>, entries: Seq<(Seq<char>, u128)>)
    requires
        s.dom().finite(),
        supply_add_result(s, entries) is Ok,
    ensures
        (supply_add_result(s, entries)->Ok_0).dom().finite(),
    decreases entries.len(),
{
    if entries.len() > 0 {
        let t = entries[0].0;
        let a = entries[0].1;
        let cur = supply_or_zero(s, t);
        lemma_supply_add_finite(s.insert(t, (cur + a) as u128), entries.skip(1));
    }
}

/// Supply decrements keep the supply region finite.
pub proof fn lemma_supply_sub_finite(s: Map<Seq<char>, u128>, entries: Seq<(Seq<char>, u128)>)
    requires
        s.dom().finite(),
        supply_sub_result(s, entries) is Ok,
    ensures
        (supply_sub_result(s, entries)->Ok_0).dom().finite(),
    decreases entries.len(),
{
    if entries.len() > 0 {
        let t = entries[0].0;
        let a = entries[0].1;
        let cur = supply_or_zero(s, t);
        lemma_supply_sub_finite(s.insert(t, (cur - a) as u128), entries.skip(1));
    }
}

/// Pruning for one entry keeps the scoped approval region finite: it only
/// ever removes or rewrites records.
pub proof fn lemma_prune_entry_finite(
    apps: Map<(Seq<char>, Seq<char>, Seq<char>), TokenApproval>,
    block: BlockInfo,
    owner: Seq<char>,
    token: Seq<char>,
    amount: u128,
)
    requires
        apps.dom().finite(),
    ensures
        prune_entry(apps, block, owner, token, amount).dom().finite(),
{
    let pruned = prune_entry(apps, block, owner, token, amount);
    assert(pruned.dom().subset_of(apps.dom()));
    vstd::set_lib::lemma_set_subset_finite(apps.dom(), pruned.dom());
}

/// Pruning a whole batch keeps the scoped approval region finite.
pub proof fn lemma_prune_result_finite(
    apps: Map<(Seq<char>, Seq<char>, Seq<char>), TokenApproval>,
    block: BlockInfo,
    owner: Seq<char>,
    entries: Seq<(Seq<char>, u128)>,
)
    requires
        apps.dom().finite(),
    ensures
        prune_result(apps, block, owner, entries).dom().finite(),
    decreases entries.len(),
{
    if entries.len() > 0 {
        lemma_prune_entry_finite(apps, block, owner, entries[0].0, entries[0].1);
        lemma_prune_result_finite(
            prune_entry(apps, block, owner, entries[0].0, entries[0].1),
            block,
            owner,
            entries.skip(1),
        );
    }
}

/// A successful batch update preserves well-formedness of the view.
pub proof fn lemma_batch_wf(
    v: LedgerView,
    block: BlockInfo,
    from: Option<Seq<char>>,
    to: Option<Seq<char>>,
    entries: Seq<(Seq<char>, u128)>,
)
    requires
        v.wf(),
        batch_result(v, block, from, to, entries) is Ok,
    ensures
        (batch_result(v, block, from, to, entries)->Ok_0).wf(),
{
    let b1 = match from {
        Some(f) => {
            lemma_debit_finite(v.balances, f, entries);
            debit_result(v.balances, f, entries)->Ok_0
        },
        None => v.balances,
    };
    if to is Some {
        lemma_credit_finite(b1, to->0, entries);
    }
    if from is Some {
        lemma_prune_result_finite(v.token_approvals, block, from->0, entries);
    }
    if from is Some && to is None {
        lemma_supply_sub_finite(v.supplies, entries);
    }
    if from is None && to is Some {
        lemma_supply_add_finite(v.supplies, entries);
    }
}

/// Whether a live (unexpired) blanket approval lets `operator` act for
/// `owner`.
pub open spec fn has_live_operator_approval(
    v: LedgerView,
    block: BlockInfo,
    owner: Seq<char>,
    operator: Seq<char>,
) -> bool {
    v.operator_approvals.contains_key((owner, operator))
        && !v.operator_approvals[(owner, operator)].spec_is_expired(block)
}

/// The live (unexpired) scoped approval for (token, owner, operator), if any.
pub open spec fn active_token_approval(
    v: LedgerView,
    block: BlockInfo,
    owner: Seq<char>,
    operator: Seq<char>,
    token: Seq<char>,
) -> Option<TokenApproval> {
    if v.token_approvals.contains_key((token, owner, operator))
        && !v.token_approvals[(token, owner, operator)].expiration.spec_is_expired(block) {
        Some(v.token_approvals[(token, owner, operator)])
    } else {
        None
    }
}

/// The approval verification of one requested debit. The candidate amount is
/// first capped at the owner's current balance (a missing record reads as
/// zero), so a request beyond the balance is reduced, never rejected. The
/// owner itself and a holder of a live blanket approval get the capped
/// amount; a holder of a live scoped approval gets the capped amount further
/// capped at the approval's remaining amount; anyone else is `Unauthorized`.
pub open spec fn authorize_result(
    v: LedgerView,
    block: BlockInfo,
    operator: Seq<char>,
    owner: Seq<char>,
    token: Seq<char>,
    amount: u128,
) -> Result<u128, ContractError> {
    let capped = min_u128(amount, balance_or_zero(v.balances, owner, token));
    if operator == owner {
        Ok(capped)
    } else if has_live_operator_approval(v, block, owner, operator) {
        Ok(capped)
    } else {
        match active_token_approval(v, block, owner, operator, token) {
            Some(app) => Ok(min_u128(capped, app.amount)),
            None => Err(ContractError::Unauthorized),
        }
    }
}

/// The approval verification of a whole batch: every entry is verified
/// independently; the batch succeeds, with each entry capped on its own, only
/// when every entry is authorized.
pub open spec fn authorize_all_result(
    v: LedgerView,
    block: BlockInfo,
    operator: Seq<char>,
    owner: Seq<char>,
    entries: Seq<(Seq<char>, u128)>,
) -> Result<Seq<(Seq<char>, u128)>, ContractError> {
    if forall|i: int|
        0 <= i < entries.len() ==> authorize_result(
            v,
            block,
            operator,
            owner,
            #[trigger] entries[i].0,
            entries[i].1,
        ) is Ok {
        Ok(
            Seq::new(
                entries.len(),
                |i: int|
                    (
                        entries[i].0,
                        authorize_result(v, block, operator, owner, entries[i].0, entries[i].1)
                            ->Ok_0,
                    ),
            ),
        )
    } else {
        Err(ContractError::Unauthorized)
    }
}

/// The debited owner of a transfer or burn: the one named, or the sender.
pub open spec fn effective_from(from: Option<Seq<char>>, sender: Seq<char>) -> Seq<char> {
    match from {
        Some(f) => f,
        None => sender,
    }
}

/// The expiration actually granted: the one supplied, or no expiration.
pub open spec fn effective_expiration(e: Option<Expiration>) -> Expiration {
    match e {
        Some(x) => x,
        None => Expiration::Never,
    }
}

/// The amount stored by a scoped approval grant: the requested amount (or,
/// unbounded, the largest quantity) capped at the owner's current balance of
/// the token type at grant time.
pub open spec fn approve_stored_amount(
    v: LedgerView,
    sender: Seq<char>,
    token: Seq<char>,
    amount: Option<u128>,
) -> u128 {
    min_u128(
        match amount {
            Some(a) => a,
            None => u128::MAX,
        },
        balance_or_zero(v.balances, sender, token),
    )
}

/// A scoped approval grant. Fails with `Expired` when the supplied expiration
/// is already past; otherwise overwrites the (token, sender, operator) record
/// with the capped amount and the effective expiration.
pub open spec fn approve_token_result(
    v: LedgerView,
    block: BlockInfo,
    sender: Seq<char>,
    operator: Seq<char>,
    token: Seq<char>,
    amount: Option<u128>,
    expiration: Option<Expiration>,
) -> Result<LedgerView, ContractError> {
    let exp = effective_expiration(expiration);
    if exp.spec_is_expired(block) {
        Err(ContractError::Expired)
    } else {
        Ok(
            LedgerView {
                token_approvals: v.token_approvals.insert(
                    (token, sender, operator),
                    TokenApproval {
                        amount: approve_stored_amount(v, sender, token, amount),
                        expiration: exp,
                    },
                ),
                ..v
            },
        )
    }
}

/// A blanket approval grant. Fails with `Expired` when the supplied
/// expiration is already past; otherwise overwrites the (sender, operator)
/// record with the effective expiration.
pub open spec fn approve_all_result(
    v: LedgerView,
    block: BlockInfo,
    sender: Seq<char>,
    operator: Seq<char>,
    expiration: Option<Expiration>,
) -> Result<LedgerView, ContractError> {
    let exp = effective_expiration(expiration);
    if exp.spec_is_expired(block) {
        Err(ContractError::Expired)
    } else {
        Ok(
            LedgerView {
                operator_approvals: v.operator_approvals.insert((sender, operator), exp),
                ..v
            },
        )
    }
}

/// The amount removed by a scoped revoke: the requested amount (or, when
/// unbounded, the whole remaining amount) capped at the remaining amount.
pub open spec fn revoke_removed_amount(
    v: LedgerView,
    sender: Seq<char>,
    operator: Seq<char>,
    token: Seq<char>,
    amount: Option<u128>,
) -> u128 {
    min_u128(
        match amount {
            Some(a) => a,
            None => u128::MAX,
        },
        v.token_approvals[(token, sender, operator)].amount,
    )
}

/// A scoped revoke. Fails with `NotFound` when no (token, sender, operator)
/// approval exists; otherwise deletes the record when the whole remaining
/// amount is revoked, and decrements it by the revoked amount otherwise.
pub open spec fn revoke_token_result(
    v: LedgerView,
    sender: Seq<char>,
    operator: Seq<char>,
    token: Seq<char>,
    amount: Option<u128>,
) -> Result<LedgerView, ContractError> {
    if !v.token_approvals.contains_key((token, sender, operator)) {
        Err(ContractError::NotFound)
    } else {
        let prev = v.token_approvals[(token, sender, operator)];
        let removed = revoke_removed_amount(v, sender, operator, token, amount);
        if removed == prev.amount {
            Ok(
                LedgerView {
                    token_approvals: v.token_approvals.remove((token, sender, operator)),
                    ..v
                },
            )
        } else {
            Ok(
                LedgerView {
                    token_approvals: v.token_approvals.insert(
                        (token, sender, operator),
                        TokenApproval {
                            amount: (prev.amount - removed) as u128,
                            expiration: prev.expiration,
                        },
                    ),
                    ..v
                },
            )
        }
    }
}

/// A blanket revoke: deletes the (sender, operator) blanket approval;
/// revoking an absent approval is not an error.
pub open spec fn revoke_all_result(
    v: LedgerView,
    sender: Seq<char>,
    operator: Seq<char>,
) -> LedgerView {
    LedgerView { operator_approvals: v.operator_approvals.remove((sender, operator)), ..v }
}

/// A transfer of one entry: the sender is verified against the debited
/// owner's approvals, and the batch update then moves the authorized
/// (possibly down-capped) amount.
pub open spec fn send_result(
    v: LedgerView,
    block: BlockInfo,
    sender: Seq<char>,
    from: Option<Seq<char>>,
    to: Seq<char>,
    token: Seq<char>,
    amount: u128,
) -> Result<LedgerView, ContractError> {
    let f = effective_from(from, sender);
    match authorize_result(v, block, sender, f, token, amount) {
        Err(e) => Err(e),
        Ok(a) => batch_result(v, block, Some(f), Some(to), seq![(token, a)]),
    }
}

/// A burn of one entry: verified exactly as a transfer (whoever can transfer
/// can burn), then applied with no credited owner.
pub open spec fn burn_result(
    v: LedgerView,
    block: BlockInfo,
    sender: Seq<char>,
    from: Option<Seq<char>>,
    token: Seq<char>,
    amount: u128,
) -> Result<LedgerView, ContractError> {
    let f = effective_from(from, sender);
    match authorize_result(v, block, sender, f, token, amount) {
        Err(e) => Err(e),
        Ok(a) => batch_result(v, block, Some(f), None, seq![(token, a)]),
    }
}

/// A batched transfer: every entry is verified, then the batch update moves
/// the authorized amounts.
pub open spec fn send_batch_result(
    v: LedgerView,
    block: BlockInfo,
    sender: Seq<char>,
    from: Option<Seq<char>>,
    to: Seq<char>,
    entries: Seq<(Seq<char>, u128)>,
) -> Result<LedgerView, ContractError> {
    let f = effective_from(from, sender);
    match authorize_all_result(v, block, sender, f, entries) {
        Err(e) => Err(e),
        Ok(authorized) => batch_result(v, block, Some(f), Some(to), authorized),
    }
}

/// A batched burn: every entry is verified, then the batch update debits the
/// authorized amounts with no credited owner.
pub open spec fn burn_batch_result(
    v: LedgerView,
    block: BlockInfo,
    sender: Seq<char>,
    from: Option<Seq<char>>,
    entries: Seq<(Seq<char>, u128)>,
) -> Result<LedgerView, ContractError> {
    let f = effective_from(from, sender);
    match authorize_all_result(v, block, sender, f, entries) {
        Err(e) => Err(e),
        Ok(authorized) => batch_result(v, block, Some(f), None, authorized),
    }
}

} // verus!
