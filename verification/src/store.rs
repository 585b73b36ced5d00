//! The persistent store behind the ledger.
//!
//! Each of the four key-value regions (balances, scoped approvals, blanket
//! approvals, per-type supply) lives in its own in-memory store and is read
//! and written through `cw_storage_plus` keyed maps. The contents of each
//! region are named by an uninterpreted spec function of the store value, and
//! every access goes through a trusted wrapper whose contract states, over
//! those names, what the storage crate does.
//!
//! The stores are reachable only through these wrappers, so each region only
//! ever holds values serialized by the wrapper that writes it; reading them
//! back therefore cannot fail, and the `unwrap` calls below cannot fire.
//!
//! The storage crate length-prefixes every key component but the last and
//! refuses, by panicking, a component of more than 0xFFFF bytes. Each wrapper
//! whose key has a length-prefixed identifier therefore requires
//! [`fits_key_component`] of it; the last component of each key and the short
//! constant namespaces are under no such limit.

use vstd::prelude::*;

use crate::types::{Expiration, TokenApproval};

verus! {

#[verifier::external_type_specification]
#[verifier::external_body]
/// An in-memory key-value store of the storage crate, opaque to the ledger's
/// proofs; its contents are reached only through the named regions below.
pub struct ExMemoryStorage(cosmwasm_std::MemoryStorage);

/// The balance region of a store: (owner, token type) to quantity.
pub uninterp spec fn balances_of(s: cosmwasm_std::MemoryStorage) -> Map<
    (Seq<char>, Seq<char>),
    u128,
>;

/// The scoped approval region of a store:
/// (token type, owner, operator) to approval record.
pub uninterp spec fn token_approvals_of(s: cosmwasm_std::MemoryStorage) -> Map<
    (Seq<char>, Seq<char>, Seq<char>),
    TokenApproval,
>;

/// The blanket approval region of a store: (owner, operator) to expiration.
pub uninterp spec fn operator_approvals_of(s: cosmwasm_std::MemoryStorage) -> Map<
    (Seq<char>, Seq<char>),
    Expiration,
>;

/// The supply region of a store: token type to issued quantity.
pub uninterp spec fn supplies_of(s: cosmwasm_std::MemoryStorage) -> Map<Seq<char>, u128>;

/// Whether an identifier fits a length-prefixed component of a storage key:
/// at most 0xFFFF bytes of UTF-8.
pub open spec fn fits_key_component(s: Seq<char>) -> bool {
    vstd::utf8::encode_utf8(s).len() <= 0xFFFF
}

/// Relies on cosmwasm_std::MemoryStorage::new: a fresh store holds no
/// records, so every region of it is empty.
#[verifier::external_body]
pub(crate) fn new_store() -> (r: cosmwasm_std::MemoryStorage)
    ensures
        balances_of(r) =~= Map::empty(),
        token_approvals_of(r) =~= Map::empty(),
        operator_approvals_of(r) =~= Map::empty(),
        supplies_of(r) =~= Map::empty(),
{
    cosmwasm_std::MemoryStorage::new()
}

/// Relies on cosmwasm_std::Storage::range and Storage::set on MemoryStorage:
/// copying every record gives a store with the same contents, region by
/// region.
#[verifier::external_body]
pub(crate) fn snapshot_store(s: &cosmwasm_std::MemoryStorage) -> (r: cosmwasm_std::MemoryStorage)
    ensures
        balances_of(r) == balances_of(*s),
        token_approvals_of(r) == token_approvals_of(*s),
        operator_approvals_of(r) == operator_approvals_of(*s),
        supplies_of(r) == supplies_of(*s),
{
    let mut copy = cosmwasm_std::MemoryStorage::new();
    for (k, v) in cosmwasm_std::Storage::range(s, None, None, cosmwasm_std::Order::Ascending) {
        cosmwasm_std::Storage::set(&mut copy, &k, &v);
    }
    copy
}

/// Relies on cw_storage_plus::Map::may_load: returns the value stored under
/// the key, or nothing when the key is absent.
#[verifier::external_body]
pub(crate) fn load_balance(
    s: &cosmwasm_std::MemoryStorage,
    owner: &String,
    token_id: &String,
) -> (r: Option<u128>)
    requires
        fits_key_component(owner@),
    ensures
        r == if balances_of(*s).contains_key((owner@, token_id@)) {
            Some(balances_of(*s)[(owner@, token_id@)])
        } else {
            None::<u128>
        },
{
    let m: cw_storage_plus::Map<(&str, &str), cosmwasm_std::Uint128> = cw_storage_plus::Map::new(
        "balances",
    );
    m.may_load(s, (owner.as_str(), token_id.as_str())).unwrap().map(|v| v.u128())
}

/// Relies on cw_storage_plus::Map::save: stores the value under the key,
/// overwriting any previous value; serializing an integer cannot fail.
#[verifier::external_body]
pub(crate) fn save_balance(
    s: &mut cosmwasm_std::MemoryStorage,
    owner: &String,
    token_id: &String,
    amount: u128,
)
    requires
        fits_key_component(owner@),
    ensures
        balances_of(*final(s)) == balances_of(*old(s)).insert((owner@, token_id@), amount),
{
    let m: cw_storage_plus::Map<(&str, &str), cosmwasm_std::Uint128> = cw_storage_plus::Map::new(
        "balances",
    );
    m.save(s, (owner.as_str(), token_id.as_str()), &cosmwasm_std::Uint128::new(amount)).unwrap();
}

/// Relies on cw_storage_plus::Map::may_load: returns the approval record
/// stored under the key, or nothing when the key is absent.
#[verifier::external_body]
pub(crate) fn load_token_approval(
    s: &cosmwasm_std::MemoryStorage,
    token_id: &String,
    owner: &String,
    operator: &String,
) -> (r: Option<TokenApproval>)
    requires
        fits_key_component(token_id@),
        fits_key_component(owner@),
    ensures
        r == if token_approvals_of(*s).contains_key((token_id@, owner@, operator@)) {
            Some(token_approvals_of(*s)[(token_id@, owner@, operator@)])
        } else {
            None::<TokenApproval>
        },
{
    let m: cw_storage_plus::Map<(&str, &str, &str), (cosmwasm_std::Uint128, cw721::Expiration)> =
        cw_storage_plus::Map::new("token_approvals");
    match m.may_load(s, (token_id.as_str(), owner.as_str(), operator.as_str())).unwrap() {
        Some((a, e)) => Some(TokenApproval { amount: a.u128(), expiration: match e {
            cw721::Expiration::AtHeight(h) => Expiration::AtHeight(h),
            cw721::Expiration::AtTime(t) => Expiration::AtTime(t.nanos()),
            cw721::Expiration::Never {} => Expiration::Never,
        } }),
        None => None,
    }
}

/// Relies on cw_storage_plus::Map::save: stores the approval record under the
/// key, overwriting any previous record.
#[verifier::external_body]
pub(crate) fn save_token_approval(
    s: &mut cosmwasm_std::MemoryStorage,
    token_id: &String,
    owner: &String,
    operator: &String,
    approval: TokenApproval,
)
    requires
        fits_key_component(token_id@),
        fits_key_component(owner@),
    ensures
        token_approvals_of(*final(s)) == token_approvals_of(*old(s)).insert(
            (token_id@, owner@, operator@),
            approval,
        ),
{
    let e = match approval.expiration {
        Expiration::AtHeight(h) => cw721::Expiration::AtHeight(h),
        Expiration::AtTime(t) => cw721::Expiration::AtTime(cosmwasm_std::Timestamp::from_nanos(t)),
        Expiration::Never => cw721::Expiration::Never {},
    };
    let m: cw_storage_plus::Map<(&str, &str, &str), (cosmwasm_std::Uint128, cw721::Expiration)> =
        cw_storage_plus::Map::new("token_approvals");
    m.save(
        s,
        (token_id.as_str(), owner.as_str(), operator.as_str()),
        &(cosmwasm_std::Uint128::new(approval.amount), e),
    ).unwrap();
}

/// Relies on cw_storage_plus::Map::remove: deletes the record under the key;
/// removing an absent key changes nothing.
#[verifier::external_body]
pub(crate) fn remove_token_approval(
    s: &mut cosmwasm_std::MemoryStorage,
    token_id: &String,
    owner: &String,
    operator: &String,
)
    requires
        fits_key_component(token_id@),
        fits_key_component(owner@),
    ensures
        token_approvals_of(*final(s)) == token_approvals_of(*old(s)).remove(
            (token_id@, owner@, operator@),
        ),
{
    let m: cw_storage_plus::Map<(&str, &str, &str), (cosmwasm_std::Uint128, cw721::Expiration)> =
        cw_storage_plus::Map::new("token_approvals");
    m.remove(s, (token_id.as_str(), owner.as_str(), operator.as_str()));
}

/// Relies on cw_storage_plus::Map::prefix and Prefix::range: iterating a
/// prefix yields exactly the records whose key starts with the prefix, each
/// once, with the remainder of the key.
#[verifier::external_body]
pub(crate) fn list_token_approvals(
    s: &cosmwasm_std::MemoryStorage,
    token_id: &String,
    owner: &String,
) -> (r: Vec<(String, TokenApproval)>)
    requires
        fits_key_component(token_id@),
        fits_key_component(owner@),
    ensures
        forall|i: int|
            0 <= i < r@.len() ==> #[trigger] token_approvals_of(*s).contains_key(
                (token_id@, owner@, r@[i].0@),
            ) && r@[i].1 == token_approvals_of(*s)[(token_id@, owner@, r@[i].0@)],
        forall|i: int, j: int| 0 <= i < j < r@.len() ==> r@[i].0@ != r@[j].0@,
        forall|k: (Seq<char>, Seq<char>, Seq<char>)|
            #[trigger] token_approvals_of(*s).contains_key(k) && k.0 == token_id@ && k.1 == owner@
                ==> exists|i: int| 0 <= i < r@.len() && r@[i].0@ == k.2,
{
    let m: cw_storage_plus::Map<(&str, &str, &str), (cosmwasm_std::Uint128, cw721::Expiration)> =
        cw_storage_plus::Map::new("token_approvals");
    let mut out: Vec<(String, TokenApproval)> = Vec::new();
    let prefixed = m.prefix((token_id.as_str(), owner.as_str()));
    for item in prefixed.range(s, None, None, cosmwasm_std::Order::Ascending) {
        let (op, (a, e)) = item.unwrap();
        let expiration = match e {
            cw721::Expiration::AtHeight(h) => Expiration::AtHeight(h),
            cw721::Expiration::AtTime(t) => Expiration::AtTime(t.nanos()),
            cw721::Expiration::Never {} => Expiration::Never,
        };
        out.push((op, TokenApproval { amount: a.u128(), expiration }));
    }
    out
}

/// Relies on cw_storage_plus::Map::may_load: returns the expiration stored
/// under the key, or nothing when the key is absent.
#[verifier::external_body]
pub(crate) fn load_operator_approval(
    s: &cosmwasm_std::MemoryStorage,
    owner: &String,
    operator: &String,
) -> (r: Option<Expiration>)
    requires
        fits_key_component(owner@),
    ensures
        r == if operator_approvals_of(*s).contains_key((owner@, operator@)) {
            Some(operator_approvals_of(*s)[(owner@, operator@)])
        } else {
            None::<Expiration>
        },
{
    let m: cw_storage_plus::Map<(&str, &str), cw721::Expiration> = cw_storage_plus::Map::new(
        "operator_approvals",
    );
    m.may_load(s, (owner.as_str(), operator.as_str())).unwrap().map(|e| match e {
        cw721::Expiration::AtHeight(h) => Expiration::AtHeight(h),
        cw721::Expiration::AtTime(t) => Expiration::AtTime(t.nanos()),
        cw721::Expiration::Never {} => Expiration::Never,
    })
}

/// Relies on cw_storage_plus::Map::save: stores the expiration under the key,
/// overwriting any previous value.
#[verifier::external_body]
pub(crate) fn save_operator_approval(
    s: &mut cosmwasm_std::MemoryStorage,
    owner: &String,
    operator: &String,
    expiration: Expiration,
)
    requires
        fits_key_component(owner@),
    ensures
        operator_approvals_of(*final(s)) == operator_approvals_of(*old(s)).insert(
            (owner@, operator@),
            expiration,
        ),
{
    let e = match expiration {
        Expiration::AtHeight(h) => cw721::Expiration::AtHeight(h),
        Expiration::AtTime(t) => cw721::Expiration::AtTime(cosmwasm_std::Timestamp::from_nanos(t)),
        Expiration::Never => cw721::Expiration::Never {},
    };
    let m: cw_storage_plus::Map<(&str, &str), cw721::Expiration> = cw_storage_plus::Map::new(
        "operator_approvals",
    );
    m.save(s, (owner.as_str(), operator.as_str()), &e).unwrap();
}

/// Relies on cw_storage_plus::Map::remove: deletes the record under the key;
/// removing an absent key changes nothing.
#[verifier::external_body]
pub(crate) fn remove_operator_approval(
    s: &mut cosmwasm_std::MemoryStorage,
    owner: &String,
    operator: &String,
)
    requires
        fits_key_component(owner@),
    ensures
        operator_approvals_of(*final(s)) == operator_approvals_of(*old(s)).remove(
            (owner@, operator@),
        ),
{
    let m: cw_storage_plus::Map<(&str, &str), cw721::Expiration> = cw_storage_plus::Map::new(
        "operator_approvals",
    );
    m.remove(s, (owner.as_str(), operator.as_str()));
}

/// Relies on cw_storage_plus::Map::may_load: returns the supply stored under
/// the token type, or nothing when no supply was recorded yet.
#[verifier::external_body]
pub(crate) fn load_supply(s: &cosmwasm_std::MemoryStorage, token_id: &String) -> (r: Option<u128>)
    ensures
        r == if supplies_of(*s).contains_key(token_id@) {
            Some(supplies_of(*s)[token_id@])
        } else {
            None::<u128>
        },
{
    let m: cw_storage_plus::Map<&str, cosmwasm_std::Uint128> = cw_storage_plus::Map::new("supply");
    m.may_load(s, token_id.as_str()).unwrap().map(|v| v.u128())
}

/// Relies on cw_storage_plus::Map::save: stores the supply under the token
/// type, overwriting any previous value.
#[verifier::external_body]
pub(crate) fn save_supply(s: &mut cosmwasm_std::MemoryStorage, token_id: &String, amount: u128)
    ensures
        supplies_of(*final(s)) == supplies_of(*old(s)).insert(token_id@, amount),
{
    let m: cw_storage_plus::Map<&str, cosmwasm_std::Uint128> = cw_storage_plus::Map::new("supply");
    m.save(s, token_id.as_str(), &cosmwasm_std::Uint128::new(amount)).unwrap();
}

} // verus!
