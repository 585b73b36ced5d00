//! Scenario tests for the ledger: mint, transfer, burn, approvals and the
//! capping, pruning and conservation behaviour they promise.

use cw1155_ledger::contract::Cw1155Contract;
use cw1155_ledger::types::{
    BlockInfo, ContractError, Cw1155MintMsg, ExecuteEnv, Expiration, LedgerEvent, TokenAmount,
};

fn block() -> BlockInfo {
    BlockInfo { height: 1000, time_nanos: 1_000_000_000 }
}

fn env(sender: &str) -> ExecuteEnv {
    ExecuteEnv { block: block(), sender: sender.to_string() }
}

fn msg(token: &str, amount: u128) -> Cw1155MintMsg {
    Cw1155MintMsg { token_id: token.to_string(), amount, token_uri: None, extension: None }
}

fn ledger() -> Cw1155Contract {
    Cw1155Contract::instantiate("spaceships".to_string(), "SPACE".to_string())
}

fn scoped_amount(c: &Cw1155Contract, owner: &str, operator: &str, token: &str) -> Option<u128> {
    match c.query_approval(
        &owner.to_string(),
        &operator.to_string(),
        &Some(token.to_string()),
    ) {
        Some(cw1155_ledger::types::ApprovalResponse::Scoped { amount, .. }) => Some(amount),
        Some(_) => panic!("expected a scoped approval"),
        None => None,
    }
}

#[test]
fn owner_approves_then_operator_transfers_within_approval() {
    let mut c = ledger();
    c.mint(&env("minter"), "o".to_string(), msg("t", 100)).unwrap();
    c.approve_token(&env("o"), "p".to_string(), "t".to_string(), Some(40), None).unwrap();

    let ev = c
        .send(&env("p"), Some("o".to_string()), "x".to_string(), "t".to_string(), 30)
        .unwrap();

    assert_eq!(c.query_balance(&"o".to_string(), &"t".to_string()), 70);
    assert_eq!(c.query_balance(&"x".to_string(), &"t".to_string()), 30);
    assert_eq!(scoped_amount(&c, "o", "p", "t"), Some(10));
    assert_eq!(
        ev,
        LedgerEvent::Transfer {
            from: "o".to_string(),
            to: "x".to_string(),
            entries: vec![TokenAmount { token_id: "t".to_string(), amount: 30 }],
        }
    );
}

#[test]
fn transfer_beyond_remaining_approval_is_capped_to_it() {
    let mut c = ledger();
    c.mint(&env("minter"), "o".to_string(), msg("t", 100)).unwrap();
    c.approve_token(&env("o"), "p".to_string(), "t".to_string(), Some(40), None).unwrap();
    c.send(&env("p"), Some("o".to_string()), "x".to_string(), "t".to_string(), 30).unwrap();

    // 15 requested, 10 left on the approval: the transfer moves 10 and the
    // exhausted approval is deleted.
    let ev = c
        .send(&env("p"), Some("o".to_string()), "x".to_string(), "t".to_string(), 15)
        .unwrap();

    assert_eq!(c.query_balance(&"o".to_string(), &"t".to_string()), 60);
    assert_eq!(c.query_balance(&"x".to_string(), &"t".to_string()), 40);
    assert_eq!(scoped_amount(&c, "o", "p", "t"), None);
    assert_eq!(
        ev,
        LedgerEvent::Transfer {
            from: "o".to_string(),
            to: "x".to_string(),
            entries: vec![TokenAmount { token_id: "t".to_string(), amount: 10 }],
        }
    );
}

#[test]
fn mint_then_burn_adjusts_supply_and_balance() {
    let mut c = ledger();
    c.mint(&env("minter"), "o".to_string(), msg("t", 50)).unwrap();
    let ev = c.burn(&env("o"), None, "t".to_string(), 20).unwrap();

    assert_eq!(c.query_supply(&"t".to_string()), 30);
    assert_eq!(c.query_balance(&"o".to_string(), &"t".to_string()), 30);
    assert_eq!(
        ev,
        LedgerEvent::Burn {
            from: "o".to_string(),
            entries: vec![TokenAmount { token_id: "t".to_string(), amount: 20 }],
        }
    );
}

#[test]
fn approve_all_with_past_expiration_fails_expired() {
    let mut c = ledger();
    let r = c.approve_all(&env("o"), "p".to_string(), Some(Expiration::AtHeight(5)));
    assert_eq!(r, Err(ContractError::Expired));

    let r = c.approve_token(
        &env("o"),
        "p".to_string(),
        "t".to_string(),
        Some(10),
        Some(Expiration::AtTime(1)),
    );
    assert_eq!(r, Err(ContractError::Expired));
}

#[test]
fn full_revoke_deletes_the_approval() {
    let mut c = ledger();
    c.mint(&env("minter"), "o".to_string(), msg("t", 100)).unwrap();
    c.approve_token(&env("o"), "p".to_string(), "t".to_string(), Some(40), None).unwrap();

    let ev = c.revoke_token(&env("o"), "p".to_string(), "t".to_string(), None).unwrap();

    assert_eq!(scoped_amount(&c, "o", "p", "t"), None);
    assert_eq!(
        ev,
        LedgerEvent::Revoke {
            sender: "o".to_string(),
            operator: "p".to_string(),
            token_id: "t".to_string(),
            amount: 40,
        }
    );
}

#[test]
fn partial_revoke_decrements_the_approval() {
    let mut c = ledger();
    c.mint(&env("minter"), "o".to_string(), msg("t", 100)).unwrap();
    c.approve_token(&env("o"), "p".to_string(), "t".to_string(), Some(40), None).unwrap();

    c.revoke_token(&env("o"), "p".to_string(), "t".to_string(), Some(15)).unwrap();

    assert_eq!(scoped_amount(&c, "o", "p", "t"), Some(25));
}

#[test]
fn revoke_without_approval_fails_not_found() {
    let mut c = ledger();
    let r = c.revoke_token(&env("o"), "p".to_string(), "t".to_string(), None);
    assert_eq!(r, Err(ContractError::NotFound));
}

#[test]
fn a_debit_prunes_every_operators_approval() {
    let mut c = ledger();
    c.mint(&env("minter"), "o".to_string(), msg("t", 100)).unwrap();
    c.approve_token(&env("o"), "p".to_string(), "t".to_string(), Some(40), None).unwrap();
    c.approve_token(&env("o"), "q".to_string(), "t".to_string(), Some(50), None).unwrap();
    c.approve_token(&env("o"), "r".to_string(), "t".to_string(), Some(20), None).unwrap();

    // The owner itself moves 30: every operator's approval is reduced by 30,
    // and one that cannot exceed the debit is deleted outright.
    c.send(&env("o"), None, "x".to_string(), "t".to_string(), 30).unwrap();

    assert_eq!(scoped_amount(&c, "o", "p", "t"), Some(10));
    assert_eq!(scoped_amount(&c, "o", "q", "t"), Some(20));
    assert_eq!(scoped_amount(&c, "o", "r", "t"), None);
}

#[test]
fn an_expired_approval_is_deleted_by_a_debit() {
    let mut c = ledger();
    c.mint(&env("minter"), "o".to_string(), msg("t", 100)).unwrap();
    // Lapses at height 1500; granted at height 1000, so accepted.
    c.approve_token(
        &env("o"),
        "p".to_string(),
        "t".to_string(),
        Some(90),
        Some(Expiration::AtHeight(1500)),
    )
    .unwrap();

    // Later, at height 2000, the owner debits 1: the approval is expired, so
    // it is deleted rather than decremented.
    let late = ExecuteEnv {
        block: BlockInfo { height: 2000, time_nanos: 2_000_000_000 },
        sender: "o".to_string(),
    };
    c.send(&late, None, "x".to_string(), "t".to_string(), 1).unwrap();

    assert_eq!(scoped_amount(&c, "o", "p", "t"), None);
}

#[test]
fn an_expired_scoped_approval_grants_nothing() {
    let mut c = ledger();
    c.mint(&env("minter"), "o".to_string(), msg("t", 100)).unwrap();
    c.approve_token(
        &env("o"),
        "p".to_string(),
        "t".to_string(),
        Some(90),
        Some(Expiration::AtHeight(1500)),
    )
    .unwrap();

    let late = ExecuteEnv {
        block: BlockInfo { height: 2000, time_nanos: 2_000_000_000 },
        sender: "p".to_string(),
    };
    let r = c.send(&late, Some("o".to_string()), "x".to_string(), "t".to_string(), 10);
    assert_eq!(r, Err(ContractError::Unauthorized));
}

#[test]
fn a_blanket_approval_covers_every_token_type_until_it_expires() {
    let mut c = ledger();
    c.mint(&env("minter"), "o".to_string(), msg("t1", 10)).unwrap();
    c.mint(&env("minter"), "o".to_string(), msg("t2", 20)).unwrap();
    c.approve_all(&env("o"), "p".to_string(), Some(Expiration::AtHeight(1500))).unwrap();

    c.send(&env("p"), Some("o".to_string()), "x".to_string(), "t1".to_string(), 10).unwrap();
    c.send(&env("p"), Some("o".to_string()), "x".to_string(), "t2".to_string(), 20).unwrap();
    assert_eq!(c.query_balance(&"x".to_string(), &"t1".to_string()), 10);
    assert_eq!(c.query_balance(&"x".to_string(), &"t2".to_string()), 20);

    // At height 2000 the blanket approval has lapsed.
    let late = ExecuteEnv {
        block: BlockInfo { height: 2000, time_nanos: 2_000_000_000 },
        sender: "p".to_string(),
    };
    let r = c.send(&late, Some("o".to_string()), "x".to_string(), "t1".to_string(), 1);
    assert_eq!(r, Err(ContractError::Unauthorized));
}

#[test]
fn revoke_all_removes_the_blanket_approval() {
    let mut c = ledger();
    c.mint(&env("minter"), "o".to_string(), msg("t", 100)).unwrap();
    c.approve_all(&env("o"), "p".to_string(), None).unwrap();
    let ev = c.revoke_all(&env("o"), "p".to_string());
    assert_eq!(
        ev,
        LedgerEvent::RevokeAll { sender: "o".to_string(), operator: "p".to_string() }
    );

    assert!(c
        .query_approval(&"o".to_string(), &"p".to_string(), &None)
        .is_none());
    let r = c.send(&env("p"), Some("o".to_string()), "x".to_string(), "t".to_string(), 1);
    assert_eq!(r, Err(ContractError::Unauthorized));
}

#[test]
fn a_stranger_is_unauthorized() {
    let mut c = ledger();
    c.mint(&env("minter"), "o".to_string(), msg("t", 100)).unwrap();
    let r = c.send(&env("z"), Some("o".to_string()), "x".to_string(), "t".to_string(), 1);
    assert_eq!(r, Err(ContractError::Unauthorized));
}

#[test]
fn a_request_beyond_the_balance_is_capped_not_rejected() {
    let mut c = ledger();
    c.mint(&env("minter"), "o".to_string(), msg("t", 100)).unwrap();

    // The owner asks for 150 with only 100 held: 100 moves.
    c.send(&env("o"), None, "x".to_string(), "t".to_string(), 150).unwrap();
    assert_eq!(c.query_balance(&"o".to_string(), &"t".to_string()), 0);
    assert_eq!(c.query_balance(&"x".to_string(), &"t".to_string()), 100);
}

#[test]
fn approving_without_an_amount_stores_the_whole_balance() {
    let mut c = ledger();
    c.mint(&env("minter"), "o".to_string(), msg("t", 100)).unwrap();
    c.approve_token(&env("o"), "p".to_string(), "t".to_string(), None, None).unwrap();
    assert_eq!(scoped_amount(&c, "o", "p", "t"), Some(100));
}

#[test]
fn an_approval_is_capped_at_the_balance_when_granted() {
    let mut c = ledger();
    c.mint(&env("minter"), "o".to_string(), msg("t", 100)).unwrap();
    let ev = c
        .approve_token(&env("o"), "p".to_string(), "t".to_string(), Some(500), None)
        .unwrap();
    assert_eq!(scoped_amount(&c, "o", "p", "t"), Some(100));
    assert_eq!(
        ev,
        LedgerEvent::Approve {
            sender: "o".to_string(),
            operator: "p".to_string(),
            token_id: "t".to_string(),
            amount: 100,
        }
    );

    // The bound holds at grant time only: a later burn does not re-validate.
    c.burn(&env("o"), None, "t".to_string(), 90).unwrap();
    assert_eq!(scoped_amount(&c, "o", "p", "t"), Some(10));
}

#[test]
fn a_failing_entry_aborts_the_whole_batch() {
    let mut c = ledger();
    c.mint(&env("minter"), "o".to_string(), msg("t1", 100)).unwrap();

    // The second entry debits a token type the owner has no record of.
    let batch = vec![
        TokenAmount { token_id: "t1".to_string(), amount: 10 },
        TokenAmount { token_id: "t2".to_string(), amount: 5 },
    ];
    let r = c.send_batch(&env("o"), None, "x".to_string(), batch);
    assert_eq!(r, Err(ContractError::NotFound));

    // Nothing of the batch was applied.
    assert_eq!(c.query_balance(&"o".to_string(), &"t1".to_string()), 100);
    assert_eq!(c.query_balance(&"x".to_string(), &"t1".to_string()), 0);
    assert_eq!(c.query_supply(&"t1".to_string()), 100);
}

#[test]
fn debit_without_a_balance_record_fails_not_found() {
    let mut c = ledger();
    let r = c.update_balances(
        &block(),
        Some("o".to_string()),
        None,
        vec![TokenAmount { token_id: "t".to_string(), amount: 1 }],
    );
    assert_eq!(r, Err(ContractError::NotFound));
}

#[test]
fn debit_beyond_the_balance_fails_insufficient() {
    let mut c = ledger();
    c.mint(&env("minter"), "o".to_string(), msg("t", 100)).unwrap();
    let r = c.update_balances(
        &block(),
        Some("o".to_string()),
        Some("x".to_string()),
        vec![TokenAmount { token_id: "t".to_string(), amount: 200 }],
    );
    assert_eq!(r, Err(ContractError::InsufficientBalance));
    assert_eq!(c.query_balance(&"o".to_string(), &"t".to_string()), 100);
}

#[test]
fn a_credit_that_would_overflow_fails_overflow() {
    let mut c = ledger();
    c.mint(&env("minter"), "o".to_string(), msg("t", u128::MAX)).unwrap();
    let r = c.mint(&env("minter"), "o".to_string(), msg("t", 1));
    assert_eq!(r, Err(ContractError::Overflow));
    assert_eq!(c.query_balance(&"o".to_string(), &"t".to_string()), u128::MAX);
    assert_eq!(c.query_supply(&"t".to_string()), u128::MAX);
}

#[test]
fn supply_equals_the_sum_of_balances_throughout() {
    let mut c = ledger();
    let owners = ["a", "b", "x"];
    let check = |c: &Cw1155Contract| {
        for t in ["t1", "t2"] {
            let total: u128 = owners
                .iter()
                .map(|o| c.query_balance(&o.to_string(), &t.to_string()))
                .sum();
            assert_eq!(c.query_supply(&t.to_string()), total);
        }
    };

    check(&c);
    c.mint(&env("minter"), "a".to_string(), msg("t1", 100)).unwrap();
    check(&c);
    c.mint_batch(
        &env("minter"),
        "b".to_string(),
        vec![msg("t1", 7), msg("t2", 40)],
    )
    .unwrap();
    check(&c);
    c.send(&env("a"), None, "x".to_string(), "t1".to_string(), 30).unwrap();
    check(&c);
    c.burn_batch(
        &env("b"),
        None,
        vec![
            TokenAmount { token_id: "t1".to_string(), amount: 5 },
            TokenAmount { token_id: "t2".to_string(), amount: 15 },
        ],
    )
    .unwrap();
    check(&c);
    assert_eq!(c.query_supply(&"t1".to_string()), 102);
    assert_eq!(c.query_supply(&"t2".to_string()), 25);
}

#[test]
fn burning_more_than_held_is_capped_to_the_balance() {
    let mut c = ledger();
    c.mint(&env("minter"), "o".to_string(), msg("t", 50)).unwrap();
    c.burn(&env("o"), None, "t".to_string(), 80).unwrap();
    assert_eq!(c.query_balance(&"o".to_string(), &"t".to_string()), 0);
    assert_eq!(c.query_supply(&"t".to_string()), 0);
}

#[test]
fn transfer_to_self_changes_nothing() {
    let mut c = ledger();
    c.mint(&env("minter"), "o".to_string(), msg("t", 100)).unwrap();
    c.send(&env("o"), None, "o".to_string(), "t".to_string(), 40).unwrap();
    assert_eq!(c.query_balance(&"o".to_string(), &"t".to_string()), 100);
    assert_eq!(c.query_supply(&"t".to_string()), 100);
}

#[test]
fn send_batch_moves_every_entry() {
    let mut c = ledger();
    c.mint_batch(
        &env("minter"),
        "o".to_string(),
        vec![msg("t1", 10), msg("t2", 20)],
    )
    .unwrap();
    let ev = c
        .send_batch(
            &env("o"),
            None,
            "x".to_string(),
            vec![
                TokenAmount { token_id: "t1".to_string(), amount: 4 },
                TokenAmount { token_id: "t2".to_string(), amount: 5 },
            ],
        )
        .unwrap();
    assert_eq!(c.query_balance(&"o".to_string(), &"t1".to_string()), 6);
    assert_eq!(c.query_balance(&"o".to_string(), &"t2".to_string()), 15);
    assert_eq!(c.query_balance(&"x".to_string(), &"t1".to_string()), 4);
    assert_eq!(c.query_balance(&"x".to_string(), &"t2".to_string()), 5);
    assert_eq!(
        ev,
        LedgerEvent::Transfer {
            from: "o".to_string(),
            to: "x".to_string(),
            entries: vec![
                TokenAmount { token_id: "t1".to_string(), amount: 4 },
                TokenAmount { token_id: "t2".to_string(), amount: 5 },
            ],
        }
    );
}

#[test]
fn a_duplicated_token_type_prunes_once_per_entry() {
    let mut c = ledger();
    c.mint(&env("minter"), "o".to_string(), msg("t", 100)).unwrap();
    c.approve_token(&env("o"), "p".to_string(), "t".to_string(), Some(50), None).unwrap();

    c.burn_batch(
        &env("o"),
        None,
        vec![
            TokenAmount { token_id: "t".to_string(), amount: 10 },
            TokenAmount { token_id: "t".to_string(), amount: 20 },
        ],
    )
    .unwrap();

    assert_eq!(c.query_balance(&"o".to_string(), &"t".to_string()), 70);
    assert_eq!(c.query_supply(&"t".to_string()), 70);
    assert_eq!(scoped_amount(&c, "o", "p", "t"), Some(20));
}

#[test]
fn revoking_more_than_granted_removes_the_whole_approval() {
    let mut c = ledger();
    c.mint(&env("minter"), "o".to_string(), msg("t", 100)).unwrap();
    c.approve_token(&env("o"), "p".to_string(), "t".to_string(), Some(40), None).unwrap();

    let ev = c
        .revoke_token(&env("o"), "p".to_string(), "t".to_string(), Some(100))
        .unwrap();

    assert_eq!(scoped_amount(&c, "o", "p", "t"), None);
    assert_eq!(
        ev,
        LedgerEvent::Revoke {
            sender: "o".to_string(),
            operator: "p".to_string(),
            token_id: "t".to_string(),
            amount: 40,
        }
    );
}

#[test]
fn verify_approval_reports_the_transferable_amount() {
    let mut c = ledger();
    c.mint(&env("minter"), "o".to_string(), msg("t", 100)).unwrap();
    c.approve_token(&env("o"), "p".to_string(), "t".to_string(), Some(40), None).unwrap();

    // The owner gets the request capped at the balance.
    let ta = c
        .verify_approval(&env("o"), &"o".to_string(), &"t".to_string(), 130)
        .unwrap();
    assert_eq!(ta, TokenAmount { token_id: "t".to_string(), amount: 100 });

    // A scoped operator is further capped at the approval.
    let ta = c
        .verify_approval(&env("p"), &"o".to_string(), &"t".to_string(), 130)
        .unwrap();
    assert_eq!(ta, TokenAmount { token_id: "t".to_string(), amount: 40 });

    // A stranger gets nothing.
    let r = c.verify_approval(&env("z"), &"o".to_string(), &"t".to_string(), 1);
    assert_eq!(r, Err(ContractError::Unauthorized));

    // The batched form verifies each entry on its own.
    let batch = vec![
        TokenAmount { token_id: "t".to_string(), amount: 10 },
        TokenAmount { token_id: "t".to_string(), amount: 90 },
    ];
    let capped = c.verify_approvals(&env("p"), &"o".to_string(), &batch).unwrap();
    assert_eq!(
        capped,
        vec![
            TokenAmount { token_id: "t".to_string(), amount: 10 },
            TokenAmount { token_id: "t".to_string(), amount: 40 },
        ]
    );
}

#[test]
fn approval_lookups_respect_expiration() {
    let mut c = ledger();
    c.mint(&env("minter"), "o".to_string(), msg("t", 100)).unwrap();
    c.approve_all(&env("o"), "p".to_string(), Some(Expiration::AtHeight(1500))).unwrap();
    c.approve_token(
        &env("o"),
        "q".to_string(),
        "t".to_string(),
        Some(40),
        Some(Expiration::AtTime(1_500_000_000)),
    )
    .unwrap();

    let now = block();
    let late = BlockInfo { height: 2000, time_nanos: 2_000_000_000 };

    assert!(c.verify_all_approval(&now, &"o".to_string(), &"p".to_string()));
    assert!(!c.verify_all_approval(&late, &"o".to_string(), &"p".to_string()));
    assert!(!c.verify_all_approval(&now, &"o".to_string(), &"q".to_string()));

    let active = c.get_active_token_approval(
        &now,
        &"o".to_string(),
        &"q".to_string(),
        &"t".to_string(),
    );
    assert_eq!(active.map(|a| a.amount), Some(40));
    let lapsed = c.get_active_token_approval(
        &late,
        &"o".to_string(),
        &"q".to_string(),
        &"t".to_string(),
    );
    assert!(lapsed.is_none());
}

#[test]
fn an_identifier_at_the_key_size_limit_is_accepted() {
    // Owner and token-type names are storage key components; the largest
    // length-prefixed component the store supports is 0xFFFF bytes.
    let mut c = ledger();
    let owner = "a".repeat(0xFFFF);
    let token = "b".repeat(0xFFFF);
    c.mint(&env("minter"), owner.clone(), msg(&token, 5)).unwrap();
    c.approve_token(
        &ExecuteEnv { block: block(), sender: owner.clone() },
        "p".to_string(),
        token.clone(),
        Some(3),
        None,
    )
    .unwrap();
    assert_eq!(c.query_balance(&owner, &token), 5);
    assert_eq!(scoped_amount(&c, &owner, "p", &token), Some(3));
}

#[test]
fn a_batch_may_name_one_token_type_twice() {
    let mut c = ledger();
    c.mint_batch(
        &env("minter"),
        "o".to_string(),
        vec![msg("t", 10), msg("t", 15)],
    )
    .unwrap();
    assert_eq!(c.query_balance(&"o".to_string(), &"t".to_string()), 25);
    assert_eq!(c.query_supply(&"t".to_string()), 25);
}
