//! Plain data types of the ledger: quantities, expirations, errors, events,
//! and the auxiliary token metadata carried by first mints.

use vstd::prelude::*;

verus! {

/// The block context a call executes in. Expirations are judged against this
/// logical business time, supplied by the caller's execution environment.
#[derive(Clone, Copy, PartialEq, Eq, Structural, Debug)]
pub struct BlockInfo {
    /// Current block height.
    pub height: u64,
    /// Current block time in nanoseconds.
    pub time_nanos: u64,
}

/// A point in logical time at which a granted approval lapses.
#[derive(Clone, Copy, PartialEq, Eq, Structural, Debug)]
pub enum Expiration {
    /// Lapses once the block height reaches the given height.
    AtHeight(u64),
    /// Lapses once the block time reaches the given time in nanoseconds.
    AtTime(u64),
    /// Never lapses.
    Never,
}

impl Expiration {
    /// Whether this expiration has lapsed at the given block.
    pub open spec fn spec_is_expired(self, block: BlockInfo) -> bool {
        match self {
            Expiration::AtHeight(h) => block.height >= h,
            Expiration::AtTime(t) => block.time_nanos >= t,
            Expiration::Never => false,
        }
    }

    /// Whether this expiration has lapsed at the given block.
    pub fn is_expired(&self, block: &BlockInfo) -> (r: bool)
        ensures
            r == self.spec_is_expired(*block),
    {
        match self {
            Expiration::AtHeight(h) => block.height >= *h,
            Expiration::AtTime(t) => block.time_nanos >= *t,
            Expiration::Never => false,
        }
    }
}

/// Every way a ledger operation can fail. All failures are reported
/// synchronously; a failing entry aborts its whole batch.
#[derive(Clone, Copy, PartialEq, Eq, Structural, Debug)]
pub enum ContractError {
    /// A debit exceeds the debited owner's current balance.
    InsufficientBalance,
    /// A credit or a supply update would overflow the quantity type.
    Overflow,
    /// The sender is neither the owner nor holds a live approval.
    Unauthorized,
    /// A supplied expiration is already past at grant time.
    Expired,
    /// A revoke names a non-existent scoped approval, or a debit names a
    /// non-existent balance record.
    NotFound,
}

/// A quantity of one token type, as requested by or applied in a batch.
#[derive(PartialEq, Debug)]
pub struct TokenAmount {
    /// Identifier of the token type.
    pub token_id: String,
    /// Unsigned quantity of that token type.
    pub amount: u128,
}

impl TokenAmount {
    /// The (token type, quantity) pair this entry denotes.
    pub open spec fn pair(self) -> (Seq<char>, u128) {
        (self.token_id@, self.amount)
    }
}

/// The pairs denoted by a sequence of batch entries.
pub open spec fn entry_pairs(entries: Seq<TokenAmount>) -> Seq<(Seq<char>, u128)> {
    entries.map_values(|e: TokenAmount| e.pair())
}

/// A scoped approval record: the amount an operator may still move of one
/// token type on behalf of one owner, and when the grant lapses.
#[derive(Clone, Copy, PartialEq, Eq, Structural, Debug)]
pub struct TokenApproval {
    /// Remaining approved quantity.
    pub amount: u128,
    /// When the grant lapses.
    pub expiration: Expiration,
}

/// Static information about the ledger contract itself.
#[derive(PartialEq, Debug)]
pub struct ContractInfo {
    /// Human-readable name of the ledger.
    pub name: String,
    /// Ticker-style symbol of the ledger.
    pub symbol: String,
}

/// The externally observable outcome of one successful operation.
#[derive(PartialEq, Debug)]
pub enum LedgerEvent {
    /// A batch moved from one owner to another.
    Transfer { from: String, to: String, entries: Vec<TokenAmount> },
    /// A batch was created and credited to an owner.
    Mint { to: String, entries: Vec<TokenAmount> },
    /// A batch was debited from an owner and destroyed.
    Burn { from: String, entries: Vec<TokenAmount> },
    /// A scoped approval was granted.
    Approve { sender: String, operator: String, token_id: String, amount: u128 },
    /// A blanket approval was granted.
    ApproveAll { sender: String, operator: String },
    /// A scoped approval was reduced or removed.
    Revoke { sender: String, operator: String, token_id: String, amount: u128 },
    /// A blanket approval was removed.
    RevokeAll { sender: String, operator: String },
}

/// The per-call context an operation executes under: the block supplying
/// logical time, and the validated identity that sent the call.
pub struct ExecuteEnv {
    /// Block context for expiration checks.
    pub block: BlockInfo,
    /// The sender of the call, acting as owner or operator.
    pub sender: String,
}

/// A displayable attribute of a token type, part of its metadata.
#[derive(PartialEq, Debug)]
pub struct Trait {
    /// How the attribute should be displayed, if constrained.
    pub display_type: Option<String>,
    /// Name of the attribute.
    pub trait_type: String,
    /// Value of the attribute.
    pub value: String,
}

/// Descriptive metadata attached to a token type on its first mint,
/// immutable thereafter.
#[derive(PartialEq, Debug)]
pub struct Metadata {
    /// Image URL.
    pub image: Option<String>,
    /// Raw image data.
    pub image_data: Option<String>,
    /// External link.
    pub external_url: Option<String>,
    /// Free-form description.
    pub description: Option<String>,
    /// Display name.
    pub name: Option<String>,
    /// Displayable attributes.
    pub attributes: Option<Vec<Trait>>,
    /// Background color for display.
    pub background_color: Option<String>,
    /// Animation URL.
    pub animation_url: Option<String>,
    /// Video URL.
    pub youtube_url: Option<String>,
    /// The cut the minter takes when the token is sold, if royalties are owed.
    pub royalty_percentage: Option<u64>,
    /// Where royalty payments go.
    pub royalty_payment_address: Option<String>,
}

/// The metadata registered for one token type on its first mint.
#[derive(PartialEq, Debug)]
pub struct TokenInfo {
    /// Identifier of the token type.
    pub token_id: String,
    /// Metadata URI, if any.
    pub token_uri: Option<String>,
    /// Structured metadata, if any.
    pub extension: Option<Metadata>,
}

/// A request to mint one token type, carrying the metadata to register if
/// the token type has not been seen before.
pub struct Cw1155MintMsg {
    /// Identifier of the token type to mint.
    pub token_id: String,
    /// Quantity to mint.
    pub amount: u128,
    /// Metadata URI to register on first mint.
    pub token_uri: Option<String>,
    /// Structured metadata to register on first mint.
    pub extension: Option<Metadata>,
}

/// A migration request. Migrations carry no data and change no state.
pub struct MigrateMsg {}

/// Answer to an approval query: the record found for the queried key.
#[derive(Clone, Copy, PartialEq, Eq, Structural, Debug)]
pub enum ApprovalResponse {
    /// A scoped approval: remaining amount and expiration.
    Scoped { amount: u128, expiration: Expiration },
    /// A blanket approval: expiration only, no amount ceiling.
    Blanket { expiration: Expiration },
}

} // verus!
