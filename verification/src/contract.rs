//! The executable ledger: a contract value holding the four persisted
//! regions, with every operation verified against the model.

use vstd::prelude::*;

use crate::batch::{
    apply_credits, apply_debits, apply_supply_add, apply_supply_sub, prune_batch,
};
use crate::laws::{lemma_batch_preserves_supply_consistency, supply_consistent};
use crate::model::{
    active_token_approval, approve_all_result, approve_stored_amount, approve_token_result,
    authorize_all_result, authorize_result, balance_or_zero, batch_event, batch_result,
    burn_batch_result, burn_result, effective_from, has_live_operator_approval, has_meta,
    lemma_batch_wf, msg_token_info, opt_str_view, register_result, revoke_removed_amount,
    revoke_token_result, send_batch_result, send_result, supply_or_zero, LedgerView,
};
use crate::store::{
    balances_of, fits_key_component, load_balance, load_operator_approval, load_supply,
    load_token_approval, new_store, operator_approvals_of, remove_operator_approval,
    remove_token_approval, save_operator_approval, save_token_approval, snapshot_store,
    supplies_of, token_approvals_of,
};
use crate::types::{
    entry_pairs, ApprovalResponse, BlockInfo, ContractError, ContractInfo, Cw1155MintMsg,
    ExecuteEnv, Expiration, LedgerEvent, TokenAmount, TokenApproval, TokenInfo,
};

verus! {

/// The ledger contract: balances, scoped and blanket approvals, per-type
/// supply, the token metadata registered on first mints, and the contract's
/// own description. All state is owned by this value; every balance change
/// passes through [`Cw1155Contract::update_balances`].
pub struct Cw1155Contract {
    balances: cosmwasm_std::MemoryStorage,
    token_approvals: cosmwasm_std::MemoryStorage,
    operator_approvals: cosmwasm_std::MemoryStorage,
    supplies: cosmwasm_std::MemoryStorage,
    tokens: Vec<TokenInfo>,
    info: ContractInfo,
}

impl View for Cw1155Contract {
    type V = LedgerView;

    closed spec fn view(&self) -> LedgerView {
        LedgerView {
            balances: balances_of(self.balances),
            token_approvals: token_approvals_of(self.token_approvals),
            operator_approvals: operator_approvals_of(self.operator_approvals),
            supplies: supplies_of(self.supplies),
        }
    }
}

impl Cw1155Contract {
    /// The token metadata records registered so far, in registration order.
    pub closed spec fn token_infos(&self) -> Seq<TokenInfo> {
        self.tokens@
    }

    /// Whether metadata was registered for a token type.
    pub open spec fn has_token_info(&self, token: Seq<char>) -> bool {
        has_meta(self.token_infos(), token)
    }

    /// The contract's own description.
    pub closed spec fn spec_contract_info(&self) -> &ContractInfo {
        &self.info
    }

    /// Internal well-formedness: finite regions, and at most one metadata
    /// record per token type.
    pub closed spec fn wf(&self) -> bool {
        &&& self@.wf()
        &&& forall|i: int, j: int|
            0 <= i < j < self.tokens@.len() ==> self.tokens@[i].token_id@
                != self.tokens@[j].token_id@
    }

    /// Opens a fresh, empty ledger described by a name and a symbol.
    pub fn instantiate(name: String, symbol: String) -> (r: Cw1155Contract)
        ensures
            r.wf(),
            r@ == LedgerView::empty(),
            r.token_infos() == Seq::<TokenInfo>::empty(),
            r.spec_contract_info().name == name,
            r.spec_contract_info().symbol == symbol,
    {
        let c = Cw1155Contract {
            balances: new_store(),
            token_approvals: new_store(),
            operator_approvals: new_store(),
            supplies: new_store(),
            tokens: Vec::new(),
            info: ContractInfo { name, symbol },
        };
        proof {
            assert(c@ =~= LedgerView::empty());
        }
        c
    }

    /// The contract's own description.
    pub fn contract_info(&self) -> (r: &ContractInfo)
        ensures
            r == self.spec_contract_info(),
    {
        &self.info
    }

    /// An owner's balance of a token type; a missing record reads as zero.
    pub fn query_balance(&self, owner: &String, token_id: &String) -> (r: u128)
        requires
            fits_key_component(owner@),
        ensures
            r == balance_or_zero(self@.balances, owner@, token_id@),
    {
        match load_balance(&self.balances, owner, token_id) {
            Some(a) => a,
            None => 0,
        }
    }

    /// The issued supply of a token type; a missing record reads as zero.
    pub fn query_supply(&self, token_id: &String) -> (r: u128)
        ensures
            r == supply_or_zero(self@.supplies, token_id@),
    {
        match load_supply(&self.supplies, token_id) {
            Some(a) => a,
            None => 0,
        }
    }

    /// The approval record stored for the queried key: the scoped approval
    /// for (token, owner, operator) when a token type is given, the blanket
    /// approval for (owner, operator) otherwise; nothing when no such record
    /// exists.
    pub fn query_approval(&self, owner: &String, operator: &String, token_id: &Option<String>) -> (r:
        Option<ApprovalResponse>)
        requires
            fits_key_component(owner@),
            *token_id matches Some(t) ==> fits_key_component(t@),
        ensures
            match *token_id {
                Some(t) => r == if self@.token_approvals.contains_key((t@, owner@, operator@)) {
                    Some(
                        ApprovalResponse::Scoped {
                            amount: self@.token_approvals[(t@, owner@, operator@)].amount,
                            expiration: self@.token_approvals[(
                                t@,
                                owner@,
                                operator@,
                            )].expiration,
                        },
                    )
                } else {
                    None::<ApprovalResponse>
                },
                None => r == if self@.operator_approvals.contains_key((owner@, operator@)) {
                    Some(
                        ApprovalResponse::Blanket {
                            expiration: self@.operator_approvals[(owner@, operator@)],
                        },
                    )
                } else {
                    None::<ApprovalResponse>
                },
            },
    {
        match token_id {
            Some(t) => match load_token_approval(&self.token_approvals, t, owner, operator) {
                Some(app) => Some(
                    ApprovalResponse::Scoped { amount: app.amount, expiration: app.expiration },
                ),
                None => None,
            },
            None => match load_operator_approval(&self.operator_approvals, owner, operator) {
                Some(exp) => Some(ApprovalResponse::Blanket { expiration: exp }),
                None => None,
            },
        }
    }

    /// The metadata registered for a token type on its first mint, if any.
    pub fn query_token_info(&self, token_id: &String) -> (r: Option<&TokenInfo>)
        ensures
            match r {
                Some(info) => self.has_token_info(token_id@) && info.token_id@ == token_id@
                    && exists|i: int|
                    0 <= i < self.token_infos().len() && self.token_infos()[i] == *info,
                None => !self.has_token_info(token_id@),
            },
    {
        let n = self.tokens.len();
        for i in 0..n
            invariant
                n == self.tokens@.len(),
                forall|l: int| #![trigger self.tokens@[l]]
                    0 <= l < i ==> self.tokens@[l].token_id@ != token_id@,
        {
            if self.tokens[i].token_id.eq(token_id) {
                return Some(&self.tokens[i]);
            }
        }
        None
    }

    /// Whether a live (unexpired) blanket approval lets `operator` act for
    /// `owner`.
    pub fn verify_all_approval(&self, block: &BlockInfo, owner: &String, operator: &String) -> (r:
        bool)
        requires
            fits_key_component(owner@),
        ensures
            r == has_live_operator_approval(self@, *block, owner@, operator@),
    {
        match load_operator_approval(&self.operator_approvals, owner, operator) {
            Some(exp) => !exp.is_expired(block),
            None => false,
        }
    }

    /// The live (unexpired) scoped approval for (token, owner, operator), if
    /// any.
    pub fn get_active_token_approval(
        &self,
        block: &BlockInfo,
        owner: &String,
        operator: &String,
        token_id: &String,
    ) -> (r: Option<TokenApproval>)
        requires
            fits_key_component(owner@),
            fits_key_component(token_id@),
        ensures
            r == active_token_approval(self@, *block, owner@, operator@, token_id@),
    {
        match load_token_approval(&self.token_approvals, token_id, owner, operator) {
            Some(app) => if !app.expiration.is_expired(block) {
                Some(app)
            } else {
                None
            },
            None => None,
        }
    }

    /// Grants `operator` a scoped approval over the sender's balance of one
    /// token type. Rejects an already-past expiration with `Expired`; the
    /// stored amount is the requested amount (unbounded when absent) capped
    /// at the sender's current balance of the token type. Overwrites any
    /// prior approval under the same key.
    pub fn approve_token(
        &mut self,
        env: &ExecuteEnv,
        operator: String,
        token_id: String,
        amount: Option<u128>,
        expiration: Option<Expiration>,
    ) -> (r: Result<LedgerEvent, ContractError>)
        requires
            old(self).wf(),
            fits_key_component(env.sender@),
            fits_key_component(token_id@),
        ensures
            final(self).wf(),
            final(self).token_infos() == old(self).token_infos(),
            final(self).spec_contract_info() == old(self).spec_contract_info(),
            match r {
                Ok(ev) => approve_token_result(
                    old(self)@,
                    env.block,
                    env.sender@,
                    operator@,
                    token_id@,
                    amount,
                    expiration,
                ) == Ok::<LedgerView, ContractError>(final(self)@) && ev == (LedgerEvent::Approve {
                    sender: env.sender,
                    operator,
                    token_id,
                    amount: approve_stored_amount(old(self)@, env.sender@, token_id@, amount),
                }),
                Err(e) => final(self)@ == old(self)@ && approve_token_result(
                    old(self)@,
                    env.block,
                    env.sender@,
                    operator@,
                    token_id@,
                    amount,
                    expiration,
                ) == Err::<LedgerView, ContractError>(e),
            },
    {
        let exp = match &expiration {
            Some(e) => *e,
            None => Expiration::Never,
        };
        if exp.is_expired(&env.block) {
            return Err(ContractError::Expired);
        }
        let bal = self.query_balance(&env.sender, &token_id);
        let requested = match &amount {
            Some(a) => *a,
            None => u128::MAX,
        };
        let stored = if requested <= bal {
            requested
        } else {
            bal
        };
        save_token_approval(
            &mut self.token_approvals,
            &token_id,
            &env.sender,
            &operator,
            TokenApproval { amount: stored, expiration: exp },
        );
        let ev = LedgerEvent::Approve {
            sender: env.sender.clone(),
            operator,
            token_id,
            amount: stored,
        };
        Ok(ev)
    }

    /// Grants `operator` a blanket approval over all of the sender's
    /// balances, limited only by the expiration. Rejects an already-past
    /// expiration with `Expired`; overwrites any prior blanket approval.
    pub fn approve_all(
        &mut self,
        env: &ExecuteEnv,
        operator: String,
        expires: Option<Expiration>,
    ) -> (r: Result<LedgerEvent, ContractError>)
        requires
            old(self).wf(),
            fits_key_component(env.sender@),
        ensures
            final(self).wf(),
            final(self).token_infos() == old(self).token_infos(),
            final(self).spec_contract_info() == old(self).spec_contract_info(),
            match r {
                Ok(ev) => approve_all_result(
                    old(self)@,
                    env.block,
                    env.sender@,
                    operator@,
                    expires,
                ) == Ok::<LedgerView, ContractError>(final(self)@) && ev
                    == (LedgerEvent::ApproveAll { sender: env.sender, operator }),
                Err(e) => final(self)@ == old(self)@ && approve_all_result(
                    old(self)@,
                    env.block,
                    env.sender@,
                    operator@,
                    expires,
                ) == Err::<LedgerView, ContractError>(e),
            },
    {
        let exp = match &expires {
            Some(e) => *e,
            None => Expiration::Never,
        };
        if exp.is_expired(&env.block) {
            return Err(ContractError::Expired);
        }
        save_operator_approval(&mut self.operator_approvals, &env.sender, &operator, exp);
        let ev = LedgerEvent::ApproveAll { sender: env.sender.clone(), operator };
        Ok(ev)
    }

    /// Revokes part or all of a scoped approval the sender granted. Fails
    /// with `NotFound` when no approval exists under the key; revoking the
    /// whole remaining amount (the default) deletes the record, a smaller
    /// amount decrements it.
    pub fn revoke_token(
        &mut self,
        env: &ExecuteEnv,
        operator: String,
        token_id: String,
        amount: Option<u128>,
    ) -> (r: Result<LedgerEvent, ContractError>)
        requires
            old(self).wf(),
            fits_key_component(env.sender@),
            fits_key_component(token_id@),
        ensures
            final(self).wf(),
            final(self).token_infos() == old(self).token_infos(),
            final(self).spec_contract_info() == old(self).spec_contract_info(),
            match r {
                Ok(ev) => revoke_token_result(
                    old(self)@,
                    env.sender@,
                    operator@,
                    token_id@,
                    amount,
                ) == Ok::<LedgerView, ContractError>(final(self)@) && ev == (LedgerEvent::Revoke {
                    sender: env.sender,
                    operator,
                    token_id,
                    amount: revoke_removed_amount(
                        old(self)@,
                        env.sender@,
                        operator@,
                        token_id@,
                        amount,
                    ),
                }),
                Err(e) => final(self)@ == old(self)@ && revoke_token_result(
                    old(self)@,
                    env.sender@,
                    operator@,
                    token_id@,
                    amount,
                ) == Err::<LedgerView, ContractError>(e),
            },
    {
        let prev = match load_token_approval(
            &self.token_approvals,
            &token_id,
            &env.sender,
            &operator,
        ) {
            Some(p) => p,
            None => {
                return Err(ContractError::NotFound);
            },
        };
        let requested = match &amount {
            Some(a) => *a,
            None => u128::MAX,
        };
        let removed = if requested <= prev.amount {
            requested
        } else {
            prev.amount
        };
        if removed == prev.amount {
            remove_token_approval(&mut self.token_approvals, &token_id, &env.sender, &operator);
        } else {
            save_token_approval(
                &mut self.token_approvals,
                &token_id,
                &env.sender,
                &operator,
                TokenApproval { amount: prev.amount - removed, expiration: prev.expiration },
            );
        }
        let ev = LedgerEvent::Revoke {
            sender: env.sender.clone(),
            operator,
            token_id,
            amount: removed,
        };
        Ok(ev)
    }

    /// Deletes the blanket approval the sender granted to `operator`.
    /// Revoking an absent approval is not an error.
    pub fn revoke_all(&mut self, env: &ExecuteEnv, operator: String) -> (r: LedgerEvent)
        requires
            old(self).wf(),
            fits_key_component(env.sender@),
        ensures
            final(self).wf(),
            final(self).token_infos() == old(self).token_infos(),
            final(self).spec_contract_info() == old(self).spec_contract_info(),
            final(self)@ == crate::model::revoke_all_result(old(self)@, env.sender@, operator@),
            r == (LedgerEvent::RevokeAll { sender: env.sender, operator }),
    {
        remove_operator_approval(&mut self.operator_approvals, &env.sender, &operator);
        LedgerEvent::RevokeAll { sender: env.sender.clone(), operator }
    }

    /// The atomic batch update, the single choke point through which every
    /// balance change passes. With `from` present the entries are debited
    /// from `from` and every scoped approval of `from` for a debited token
    /// type is pruned; with `to` present the entries are credited to `to`;
    /// a mint (no `from`) increments and a burn (no `to`) decrements the
    /// supply counters. Either the whole batch applies, or the first
    /// failure's error is returned and nothing changes. The caller is
    /// responsible for prior authorization; no authorization is checked
    /// here.
    pub fn update_balances(
        &mut self,
        block: &BlockInfo,
        from: Option<String>,
        to: Option<String>,
        entries: Vec<TokenAmount>,
    ) -> (r: Result<LedgerEvent, ContractError>)
        requires
            old(self).wf(),
            from is Some || to is Some,
            from matches Some(f) ==> fits_key_component(f@),
            to matches Some(t) ==> fits_key_component(t@),
            from is Some ==> forall|i: int| #![trigger entries@[i]]
                0 <= i < entries@.len() ==> fits_key_component(entries@[i].token_id@),
        ensures
            final(self).wf(),
            final(self).token_infos() == old(self).token_infos(),
            final(self).spec_contract_info() == old(self).spec_contract_info(),
            r is Ok && supply_consistent(old(self)@) ==> supply_consistent(final(self)@),
            match r {
                Ok(ev) => batch_result(
                    old(self)@,
                    *block,
                    opt_str_view(from),
                    opt_str_view(to),
                    entry_pairs(entries@),
                ) == Ok::<LedgerView, ContractError>(final(self)@) && ev == batch_event(
                    from,
                    to,
                    entries,
                ),
                Err(e) => final(self)@ == old(self)@ && batch_result(
                    old(self)@,
                    *block,
                    opt_str_view(from),
                    opt_str_view(to),
                    entry_pairs(entries@),
                ) == Err::<LedgerView, ContractError>(e),
            },
    {
        let mut bal = snapshot_store(&self.balances);
        let mut apps = snapshot_store(&self.token_approvals);
        let mut sup = snapshot_store(&self.supplies);

        if let Some(f) = &from {
            match apply_debits(&mut bal, f, &entries) {
                Ok(_) => {},
                Err(e) => {
                    return Err(e);
                },
            }
        }
        if let Some(t) = &to {
            match apply_credits(&mut bal, t, &entries) {
                Ok(_) => {},
                Err(e) => {
                    return Err(e);
                },
            }
        }
        if let Some(f) = &from {
            prune_batch(&mut apps, block, f, &entries);
            if to.is_none() {
                match apply_supply_sub(&mut sup, &entries) {
                    Ok(_) => {},
                    Err(e) => {
                        return Err(e);
                    },
                }
            }
        } else {
            match apply_supply_add(&mut sup, &entries) {
                Ok(_) => {},
                Err(e) => {
                    return Err(e);
                },
            }
        }
        self.balances = bal;
        self.token_approvals = apps;
        self.supplies = sup;
        proof {
            lemma_batch_wf(
                old(self)@,
                *block,
                opt_str_view(from),
                opt_str_view(to),
                entry_pairs(entries@),
            );
            if supply_consistent(old(self)@) {
                lemma_batch_preserves_supply_consistency(
                    old(self)@,
                    *block,
                    opt_str_view(from),
                    opt_str_view(to),
                    entry_pairs(entries@),
                );
            }
        }
        let ev = match (from, to) {
            (Some(f), Some(t)) => LedgerEvent::Transfer { from: f, to: t, entries },
            (Some(f), None) => LedgerEvent::Burn { from: f, entries },
            (None, Some(t)) => LedgerEvent::Mint { to: t, entries },
            (None, None) => vstd::pervasive::unreached(),
        };
        Ok(ev)
    }

    /// Whether metadata was registered for a token type.
    fn has_token(&self, token_id: &String) -> (r: bool)
        ensures
            r == self.has_token_info(token_id@),
    {
        let n = self.tokens.len();
        for i in 0..n
            invariant
                n == self.tokens@.len(),
                forall|l: int| #![trigger self.tokens@[l]]
                    0 <= l < i ==> self.tokens@[l].token_id@ != token_id@,
        {
            if self.tokens[i].token_id.eq(token_id) {
                return true;
            }
        }
        false
    }

    /// The amount the sender may move of `owner`'s balance of one token
    /// type: the requested amount capped at the balance, further capped at a
    /// live scoped approval's remaining amount when that is the sender's only
    /// authority; `Unauthorized` when the sender has none.
    pub fn verify_approval(
        &self,
        env: &ExecuteEnv,
        owner: &String,
        token_id: &String,
        amount: u128,
    ) -> (r: Result<TokenAmount, ContractError>)
        requires
            fits_key_component(owner@),
            fits_key_component(token_id@),
        ensures
            match r {
                Ok(ta) => authorize_result(self@, env.block, env.sender@, owner@, token_id@, amount)
                    == Ok::<u128, ContractError>(ta.amount) && ta.token_id@ == token_id@,
                Err(e) => authorize_result(
                    self@,
                    env.block,
                    env.sender@,
                    owner@,
                    token_id@,
                    amount,
                ) == Err::<u128, ContractError>(e),
            },
    {
        let operator = &env.sender;
        let bal = self.query_balance(owner, token_id);
        let capped = if amount <= bal {
            amount
        } else {
            bal
        };
        if operator.eq(owner) || self.verify_all_approval(&env.block, owner, operator) {
            return Ok(TokenAmount { token_id: token_id.clone(), amount: capped });
        }
        match self.get_active_token_approval(&env.block, owner, operator, token_id) {
            Some(app) => {
                let a = if capped <= app.amount {
                    capped
                } else {
                    app.amount
                };
                Ok(TokenAmount { token_id: token_id.clone(), amount: a })
            },
            None => Err(ContractError::Unauthorized),
        }
    }

    /// Verifies a whole batch: every entry independently, each capped on its
    /// own; fails with `Unauthorized` as soon as one entry is not authorized.
    pub fn verify_approvals(
        &self,
        env: &ExecuteEnv,
        owner: &String,
        tokens: &Vec<TokenAmount>,
    ) -> (r: Result<Vec<TokenAmount>, ContractError>)
        requires
            fits_key_component(owner@),
            forall|i: int| #![trigger tokens@[i]]
                0 <= i < tokens@.len() ==> fits_key_component(tokens@[i].token_id@),
        ensures
            match r {
                Ok(v) => authorize_all_result(
                    self@,
                    env.block,
                    env.sender@,
                    owner@,
                    entry_pairs(tokens@),
                ) == Ok::<Seq<(Seq<char>, u128)>, ContractError>(entry_pairs(v@)) && v@.len()
                    == tokens@.len() && (forall|i: int| #![trigger v@[i]]
                    0 <= i < v@.len() ==> v@[i].token_id@ == tokens@[i].token_id@),
                Err(e) => authorize_all_result(
                    self@,
                    env.block,
                    env.sender@,
                    owner@,
                    entry_pairs(tokens@),
                ) == Err::<Seq<(Seq<char>, u128)>, ContractError>(e),
            },
    {
        let mut out: Vec<TokenAmount> = Vec::new();
        let n = tokens.len();
        for i in 0..n
            invariant
                n == tokens@.len(),
                fits_key_component(owner@),
                forall|l: int| #![trigger tokens@[l]]
                    0 <= l < tokens@.len() ==> fits_key_component(tokens@[l].token_id@),
                out@.len() == i,
                forall|l: int| #![trigger out@[l]]
                    0 <= l < i ==> authorize_result(
                        self@,
                        env.block,
                        env.sender@,
                        owner@,
                        tokens@[l].token_id@,
                        tokens@[l].amount,
                    ) == Ok::<u128, ContractError>(out@[l].amount) && out@[l].token_id@
                        == tokens@[l].token_id@,
        {
            let e = &tokens[i];
            match self.verify_approval(env, owner, &e.token_id, e.amount) {
                Ok(v) => out.push(v),
                Err(err) => {
                    proof {
                        let pairs = entry_pairs(tokens@);
                        assert(pairs[i as int].0 == tokens@[i as int].token_id@);
                        assert(authorize_result(
                            self@,
                            env.block,
                            env.sender@,
                            owner@,
                            pairs[i as int].0,
                            pairs[i as int].1,
                        ) is Err);
                    }
                    return Err(err);
                },
            }
        }
        proof {
            let pairs = entry_pairs(tokens@);
            assert forall|i: int|
                0 <= i < pairs.len() implies authorize_result(
                self@,
                env.block,
                env.sender@,
                owner@,
                #[trigger] pairs[i].0,
                pairs[i].1,
            ) is Ok by {
                assert(out@[i].token_id@ == tokens@[i].token_id@);
            }
            assert(entry_pairs(out@) =~= authorize_all_result(
                self@,
                env.block,
                env.sender@,
                owner@,
                entry_pairs(tokens@),
            )->Ok_0);
        }
        Ok(out)
    }

    /// Mints new tokens of one token type to a recipient, and registers the
    /// request's metadata when the token type has not been seen before.
    /// Authority over minting is the caller's concern, not the ledger's.
    pub fn mint(&mut self, env: &ExecuteEnv, recipient: String, msg: Cw1155MintMsg) -> (r: Result<
        LedgerEvent,
        ContractError,
    >)
        requires
            old(self).wf(),
            fits_key_component(recipient@),
        ensures
            final(self).wf(),
            final(self).spec_contract_info() == old(self).spec_contract_info(),
            match r {
                Ok(ev) => {
                    &&& batch_result(
                        old(self)@,
                        env.block,
                        None,
                        Some(recipient@),
                        seq![(msg.token_id@, msg.amount)],
                    ) == Ok::<LedgerView, ContractError>(final(self)@)
                    &&& final(self).token_infos() == register_result(
                        old(self).token_infos(),
                        seq![msg],
                    )
                    &&& ev matches LedgerEvent::Mint { to: evt_to, entries: evt_entries }
                        && evt_to == recipient && entry_pairs(evt_entries@) == seq![
                        (msg.token_id@, msg.amount),
                    ]
                },
                Err(e) => {
                    &&& final(self)@ == old(self)@
                    &&& final(self).token_infos() == old(self).token_infos()
                    &&& batch_result(
                        old(self)@,
                        env.block,
                        None,
                        Some(recipient@),
                        seq![(msg.token_id@, msg.amount)],
                    ) == Err::<LedgerView, ContractError>(e)
                },
            },
    {
        let mut entries: Vec<TokenAmount> = Vec::new();
        entries.push(TokenAmount { token_id: msg.token_id.clone(), amount: msg.amount });
        proof {
            assert(entry_pairs(entries@) =~= seq![(msg.token_id@, msg.amount)]);
        }
        let ev = match self.update_balances(&env.block, None, Some(recipient), entries) {
            Ok(ev) => ev,
            Err(e) => {
                return Err(e);
            },
        };
        if !self.has_token(&msg.token_id) {
            self.tokens.push(
                TokenInfo {
                    token_id: msg.token_id,
                    token_uri: msg.token_uri,
                    extension: msg.extension,
                },
            );
        }
        proof {
            let msgs1: Seq<Cw1155MintMsg> = seq![msg];
            assert(msgs1.len() == 1 && msgs1[0] == msg);
            assert(msgs1.skip(1) =~= Seq::<Cw1155MintMsg>::empty());
            let grown = if has_meta(old(self).token_infos(), msg.token_id@) {
                old(self).token_infos()
            } else {
                old(self).token_infos().push(msg_token_info(msg))
            };
            assert(register_result(grown, msgs1.skip(1)) == grown);
            assert(register_result(old(self).token_infos(), msgs1) == grown);
        }
        Ok(ev)
    }

    /// Mints a whole batch of token types to one recipient, registering the
    /// metadata of every token type not seen before. Authority over minting
    /// is the caller's concern, not the ledger's.
    pub fn mint_batch(&mut self, env: &ExecuteEnv, recipient: String, msgs: Vec<Cw1155MintMsg>) -> (r:
        Result<LedgerEvent, ContractError>)
        requires
            old(self).wf(),
            fits_key_component(recipient@),
        ensures
            final(self).wf(),
            final(self).spec_contract_info() == old(self).spec_contract_info(),
            match r {
                Ok(ev) => {
                    &&& batch_result(
                        old(self)@,
                        env.block,
                        None,
                        Some(recipient@),
                        mint_pairs(msgs@),
                    ) == Ok::<LedgerView, ContractError>(final(self)@)
                    &&& final(self).token_infos() == register_result(
                        old(self).token_infos(),
                        msgs@,
                    )
                    &&& ev matches LedgerEvent::Mint { to: evt_to, entries: evt_entries }
                        && evt_to == recipient && entry_pairs(evt_entries@) == mint_pairs(msgs@)
                },
                Err(e) => {
                    &&& final(self)@ == old(self)@
                    &&& final(self).token_infos() == old(self).token_infos()
                    &&& batch_result(
                        old(self)@,
                        env.block,
                        None,
                        Some(recipient@),
                        mint_pairs(msgs@),
                    ) == Err::<LedgerView, ContractError>(e)
                },
            },
    {
        let mut entries: Vec<TokenAmount> = Vec::new();
        let n = msgs.len();
        for i in 0..n
            invariant
                n == msgs@.len(),
                entries@.len() == i,
                forall|l: int| #![trigger entries@[l]]
                    0 <= l < i ==> entries@[l].token_id@ == msgs@[l].token_id@ && entries@[l].amount
                        == msgs@[l].amount,
        {
            let m = &msgs[i];
            entries.push(TokenAmount { token_id: m.token_id.clone(), amount: m.amount });
        }
        proof {
            assert(entry_pairs(entries@) =~= mint_pairs(msgs@));
        }
        let ev = match self.update_balances(&env.block, None, Some(recipient), entries) {
            Ok(ev) => ev,
            Err(e) => {
                return Err(e);
            },
        };
        let ghost tokens_mid = self.token_infos();
        let ghost view_mid = self@;
        let ghost msgs0 = msgs@;
        let mut rest = msgs;
        while rest.len() > 0
            invariant
                self.wf(),
                self@ == view_mid,
                self.spec_contract_info() == old(self).spec_contract_info(),
                register_result(tokens_mid, msgs0) == register_result(self.token_infos(), rest@),
            decreases rest.len(),
        {
            let ghost rest_pre = rest@;
            let m = rest.remove(0);
            proof {
                assert(rest@ =~= rest_pre.skip(1));
            }
            if !self.has_token(&m.token_id) {
                self.tokens.push(
                    TokenInfo {
                        token_id: m.token_id,
                        token_uri: m.token_uri,
                        extension: m.extension,
                    },
                );
            }
        }
        proof {
            assert(register_result(self.token_infos(), rest@) == self.token_infos());
        }
        Ok(ev)
    }

    /// Transfers an amount of one token type from `from` (the sender when
    /// absent) to `to`. The sender is verified against the debited owner's
    /// approvals, and the authorized (possibly down-capped) amount is moved,
    /// not the requested one.
    pub fn send(
        &mut self,
        env: &ExecuteEnv,
        from: Option<String>,
        to: String,
        token_id: String,
        amount: u128,
    ) -> (r: Result<LedgerEvent, ContractError>)
        requires
            old(self).wf(),
            fits_key_component(effective_from(opt_str_view(from), env.sender@)),
            fits_key_component(to@),
            fits_key_component(token_id@),
        ensures
            final(self).wf(),
            final(self).token_infos() == old(self).token_infos(),
            final(self).spec_contract_info() == old(self).spec_contract_info(),
            match r {
                Ok(ev) => {
                    &&& send_result(
                        old(self)@,
                        env.block,
                        env.sender@,
                        opt_str_view(from),
                        to@,
                        token_id@,
                        amount,
                    ) == Ok::<LedgerView, ContractError>(final(self)@)
                    &&& ev matches LedgerEvent::Transfer {
                        from: evt_from,
                        to: evt_to,
                        entries: evt_entries,
                    } && evt_from@ == effective_from(opt_str_view(from), env.sender@) && evt_to
                        == to && entry_pairs(evt_entries@) == seq![
                        (
                            token_id@,
                            authorize_result(
                                old(self)@,
                                env.block,
                                env.sender@,
                                effective_from(opt_str_view(from), env.sender@),
                                token_id@,
                                amount,
                            )->Ok_0,
                        ),
                    ]
                },
                Err(e) => final(self)@ == old(self)@ && send_result(
                    old(self)@,
                    env.block,
                    env.sender@,
                    opt_str_view(from),
                    to@,
                    token_id@,
                    amount,
                ) == Err::<LedgerView, ContractError>(e),
            },
    {
        let f = match from {
            Some(ff) => ff,
            None => env.sender.clone(),
        };
        let verified = match self.verify_approval(env, &f, &token_id, amount) {
            Ok(v) => v,
            Err(e) => {
                return Err(e);
            },
        };
        let ghost p = verified.pair();
        let mut entries: Vec<TokenAmount> = Vec::new();
        entries.push(verified);
        proof {
            assert(entry_pairs(entries@) =~= seq![p]);
        }
        self.update_balances(&env.block, Some(f), Some(to), entries)
    }

    /// Transfers a whole batch from `from` (the sender when absent) to `to`:
    /// every entry is verified, and the authorized amounts are moved.
    pub fn send_batch(
        &mut self,
        env: &ExecuteEnv,
        from: Option<String>,
        to: String,
        batch: Vec<TokenAmount>,
    ) -> (r: Result<LedgerEvent, ContractError>)
        requires
            old(self).wf(),
            fits_key_component(effective_from(opt_str_view(from), env.sender@)),
            fits_key_component(to@),
            forall|i: int| #![trigger batch@[i]]
                0 <= i < batch@.len() ==> fits_key_component(batch@[i].token_id@),
        ensures
            final(self).wf(),
            final(self).token_infos() == old(self).token_infos(),
            final(self).spec_contract_info() == old(self).spec_contract_info(),
            match r {
                Ok(ev) => {
                    &&& send_batch_result(
                        old(self)@,
                        env.block,
                        env.sender@,
                        opt_str_view(from),
                        to@,
                        entry_pairs(batch@),
                    ) == Ok::<LedgerView, ContractError>(final(self)@)
                    &&& ev matches LedgerEvent::Transfer {
                        from: evt_from,
                        to: evt_to,
                        entries: evt_entries,
                    } && evt_from@ == effective_from(opt_str_view(from), env.sender@) && evt_to
                        == to && entry_pairs(evt_entries@) == authorize_all_result(
                        old(self)@,
                        env.block,
                        env.sender@,
                        effective_from(opt_str_view(from), env.sender@),
                        entry_pairs(batch@),
                    )->Ok_0
                },
                Err(e) => final(self)@ == old(self)@ && send_batch_result(
                    old(self)@,
                    env.block,
                    env.sender@,
                    opt_str_view(from),
                    to@,
                    entry_pairs(batch@),
                ) == Err::<LedgerView, ContractError>(e),
            },
    {
        let f = match from {
            Some(ff) => ff,
            None => env.sender.clone(),
        };
        let authorized = match self.verify_approvals(env, &f, &batch) {
            Ok(v) => v,
            Err(e) => {
                return Err(e);
            },
        };
        self.update_balances(&env.block, Some(f), Some(to), authorized)
    }

    /// Burns an amount of one token type from `from` (the sender when
    /// absent): verified exactly as a transfer — whoever can transfer can
    /// burn — then debited with no credited owner, reducing the supply.
    pub fn burn(
        &mut self,
        env: &ExecuteEnv,
        from: Option<String>,
        token_id: String,
        amount: u128,
    ) -> (r: Result<LedgerEvent, ContractError>)
        requires
            old(self).wf(),
            fits_key_component(effective_from(opt_str_view(from), env.sender@)),
            fits_key_component(token_id@),
        ensures
            final(self).wf(),
            final(self).token_infos() == old(self).token_infos(),
            final(self).spec_contract_info() == old(self).spec_contract_info(),
            match r {
                Ok(ev) => {
                    &&& burn_result(
                        old(self)@,
                        env.block,
                        env.sender@,
                        opt_str_view(from),
                        token_id@,
                        amount,
                    ) == Ok::<LedgerView, ContractError>(final(self)@)
                    &&& ev matches LedgerEvent::Burn { from: evt_from, entries: evt_entries }
                        && evt_from@ == effective_from(opt_str_view(from), env.sender@)
                        && entry_pairs(evt_entries@) == seq![
                        (
                            token_id@,
                            authorize_result(
                                old(self)@,
                                env.block,
                                env.sender@,
                                effective_from(opt_str_view(from), env.sender@),
                                token_id@,
                                amount,
                            )->Ok_0,
                        ),
                    ]
                },
                Err(e) => final(self)@ == old(self)@ && burn_result(
                    old(self)@,
                    env.block,
                    env.sender@,
                    opt_str_view(from),
                    token_id@,
                    amount,
                ) == Err::<LedgerView, ContractError>(e),
            },
    {
        let f = match from {
            Some(ff) => ff,
            None => env.sender.clone(),
        };
        let verified = match self.verify_approval(env, &f, &token_id, amount) {
            Ok(v) => v,
            Err(e) => {
                return Err(e);
            },
        };
        let ghost p = verified.pair();
        let mut entries: Vec<TokenAmount> = Vec::new();
        entries.push(verified);
        proof {
            assert(entry_pairs(entries@) =~= seq![p]);
        }
        self.update_balances(&env.block, Some(f), None, entries)
    }

    /// Burns a whole batch from `from` (the sender when absent): every entry
    /// is verified, and the authorized amounts are debited and destroyed.
    pub fn burn_batch(&mut self, env: &ExecuteEnv, from: Option<String>, batch: Vec<TokenAmount>) -> (r:
        Result<LedgerEvent, ContractError>)
        requires
            old(self).wf(),
            fits_key_component(effective_from(opt_str_view(from), env.sender@)),
            forall|i: int| #![trigger batch@[i]]
                0 <= i < batch@.len() ==> fits_key_component(batch@[i].token_id@),
        ensures
            final(self).wf(),
            final(self).token_infos() == old(self).token_infos(),
            final(self).spec_contract_info() == old(self).spec_contract_info(),
            match r {
                Ok(ev) => {
                    &&& burn_batch_result(
                        old(self)@,
                        env.block,
                        env.sender@,
                        opt_str_view(from),
                        entry_pairs(batch@),
                    ) == Ok::<LedgerView, ContractError>(final(self)@)
                    &&& ev matches LedgerEvent::Burn { from: evt_from, entries: evt_entries }
                        && evt_from@ == effective_from(opt_str_view(from), env.sender@)
                        && entry_pairs(evt_entries@) == authorize_all_result(
                        old(self)@,
                        env.block,
                        env.sender@,
                        effective_from(opt_str_view(from), env.sender@),
                        entry_pairs(batch@),
                    )->Ok_0
                },
                Err(e) => final(self)@ == old(self)@ && burn_batch_result(
                    old(self)@,
                    env.block,
                    env.sender@,
                    opt_str_view(from),
                    entry_pairs(batch@),
                ) == Err::<LedgerView, ContractError>(e),
            },
    {
        let f = match from {
            Some(ff) => ff,
            None => env.sender.clone(),
        };
        let authorized = match self.verify_approvals(env, &f, &batch) {
            Ok(v) => v,
            Err(e) => {
                return Err(e);
            },
        };
        self.update_balances(&env.block, Some(f), None, authorized)
    }
}

/// The (token type, quantity) pairs a batch of mint requests asks for.
pub open spec fn mint_pairs(msgs: Seq<Cw1155MintMsg>) -> Seq<(Seq<char>, u128)> {
    msgs.map_values(|m: Cw1155MintMsg| (m.token_id@, m.amount))
}

} // verus!
