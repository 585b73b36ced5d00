//! Tests for token metadata registration, approval queries and the stored
//! expiration forms.

use cw1155_ledger::contract::Cw1155Contract;
use cw1155_ledger::types::{
    ApprovalResponse, BlockInfo, Cw1155MintMsg, ExecuteEnv, Expiration, Metadata, Trait,
};

fn env(sender: &str) -> ExecuteEnv {
    ExecuteEnv {
        block: BlockInfo { height: 1000, time_nanos: 1_000_000_000 },
        sender: sender.to_string(),
    }
}

fn ledger() -> Cw1155Contract {
    Cw1155Contract::instantiate("spaceships".to_string(), "SPACE".to_string())
}

fn enterprise_metadata() -> Metadata {
    Metadata {
        image: None,
        image_data: None,
        external_url: None,
        description: Some("a starship".to_string()),
        name: Some("Enterprise".to_string()),
        attributes: Some(vec![Trait {
            display_type: None,
            trait_type: "class".to_string(),
            value: "galaxy".to_string(),
        }]),
        background_color: None,
        animation_url: None,
        youtube_url: None,
        royalty_percentage: Some(5),
        royalty_payment_address: None,
    }
}

#[test]
fn contract_info_keeps_name_and_symbol() {
    let c = ledger();
    let info = c.contract_info();
    assert_eq!(info.name, "spaceships".to_string());
    assert_eq!(info.symbol, "SPACE".to_string());
}

#[test]
fn first_mint_registers_metadata_and_later_mints_do_not_change_it() {
    let mut c = ledger();
    c.mint(
        &env("minter"),
        "o".to_string(),
        Cw1155MintMsg {
            token_id: "t".to_string(),
            amount: 10,
            token_uri: Some("https://ships.example.com/t.json".to_string()),
            extension: Some(enterprise_metadata()),
        },
    )
    .unwrap();

    let info = c.query_token_info(&"t".to_string()).unwrap();
    assert_eq!(info.token_id, "t".to_string());
    assert_eq!(info.token_uri, Some("https://ships.example.com/t.json".to_string()));
    assert_eq!(info.extension, Some(enterprise_metadata()));

    // A second mint of the same token type leaves the registration alone.
    c.mint(
        &env("minter"),
        "o".to_string(),
        Cw1155MintMsg {
            token_id: "t".to_string(),
            amount: 5,
            token_uri: Some("https://elsewhere.example.com/other.json".to_string()),
            extension: None,
        },
    )
    .unwrap();

    let info = c.query_token_info(&"t".to_string()).unwrap();
    assert_eq!(info.token_uri, Some("https://ships.example.com/t.json".to_string()));
    assert_eq!(c.query_balance(&"o".to_string(), &"t".to_string()), 15);
}

#[test]
fn unknown_token_types_have_no_metadata() {
    let c = ledger();
    assert!(c.query_token_info(&"t".to_string()).is_none());
}

#[test]
fn queries_return_the_stored_expiration_forms() {
    let mut c = ledger();
    c.mint(
        &env("minter"),
        "o".to_string(),
        Cw1155MintMsg { token_id: "t".to_string(), amount: 10, token_uri: None, extension: None },
    )
    .unwrap();

    c.approve_token(
        &env("o"),
        "p".to_string(),
        "t".to_string(),
        Some(7),
        Some(Expiration::AtTime(123_456_789_000)),
    )
    .unwrap();
    let scoped = c
        .query_approval(&"o".to_string(), &"p".to_string(), &Some("t".to_string()))
        .unwrap();
    assert_eq!(
        scoped,
        ApprovalResponse::Scoped { amount: 7, expiration: Expiration::AtTime(123_456_789_000) }
    );

    c.approve_all(&env("o"), "q".to_string(), Some(Expiration::AtHeight(1500))).unwrap();
    let blanket = c.query_approval(&"o".to_string(), &"q".to_string(), &None).unwrap();
    assert_eq!(blanket, ApprovalResponse::Blanket { expiration: Expiration::AtHeight(1500) });

    c.approve_all(&env("o"), "r".to_string(), None).unwrap();
    let never = c.query_approval(&"o".to_string(), &"r".to_string(), &None).unwrap();
    assert_eq!(never, ApprovalResponse::Blanket { expiration: Expiration::Never });
}

#[test]
fn queries_on_an_empty_ledger_read_as_zero_or_none() {
    let c = ledger();
    assert_eq!(c.query_balance(&"o".to_string(), &"t".to_string()), 0);
    assert_eq!(c.query_supply(&"t".to_string()), 0);
    assert!(c
        .query_approval(&"o".to_string(), &"p".to_string(), &Some("t".to_string()))
        .is_none());
    assert!(c.query_approval(&"o".to_string(), &"p".to_string(), &None).is_none());
}
