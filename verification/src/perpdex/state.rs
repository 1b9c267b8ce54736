//! PerpDex state locations and values.
use vstd::prelude::*;

use super::state_traits::{PartitionId, StateLocation, StateValue};
use super::types::{OrderStatus, OrderType, Side};
use crate::primitives::address::Address;
use crate::primitives::u256::U256;

verus! {

/// State locations of the PerpDex VM.
#[derive(Clone, Copy, Debug, PartialEq, Eq, Structural, Hash)]
pub enum PerpDexLocation {
    /// A user's balance of an asset: (user, asset id).
    Balance(Address, u16),
    /// A user's position in a market: (user, market id).
    Position(Address, u64),
    /// An order: (user, market id, order id).
    Order(Address, u64, u64),
    /// A market's global state: (market id).
    MarketState(u64),
    /// A user's transaction nonce.
    UserNonce(Address),
}

/// `rustc_hash::FxHasher`, declared so that verified code can feed one.
#[verifier::external_type_specification]
#[verifier::external_body]
pub struct ExFxHasher(rustc_hash::FxHasher);

/// A fresh `rustc_hash::FxHasher` (`FxHasher::default`). FxHash depends on the
/// machine's pointer width, so nothing is stated of its state.
#[verifier::external_body]
fn fx_hasher() -> rustc_hash::FxHasher {
    rustc_hash::FxHasher::default()
}

/// `Hasher::write_usize` of `FxHasher`; nothing is stated of the new state.
#[verifier::external_body]
fn fx_write_usize(hasher: &mut rustc_hash::FxHasher, x: usize) {
    std::hash::Hasher::write_usize(hasher, x)
}

/// `Hasher::write_u16` of `FxHasher`; nothing is stated of the new state.
#[verifier::external_body]
fn fx_write_u16(hasher: &mut rustc_hash::FxHasher, x: u16) {
    std::hash::Hasher::write_u16(hasher, x)
}

/// `Hasher::write_u64` of `FxHasher`; nothing is stated of the new state.
#[verifier::external_body]
fn fx_write_u64(hasher: &mut rustc_hash::FxHasher, x: u64) {
    std::hash::Hasher::write_u64(hasher, x)
}

/// `Hasher::write` of `FxHasher`; nothing is stated of the new state.
#[verifier::external_body]
fn fx_write(hasher: &mut rustc_hash::FxHasher, bytes: &[u8]) {
    std::hash::Hasher::write(hasher, bytes)
}

/// `Hasher::finish` of `FxHasher`; nothing is stated of the result.
#[verifier::external_body]
fn fx_finish(hasher: &rustc_hash::FxHasher) -> u64 {
    std::hash::Hasher::finish(hasher)
}

/// A word fed to a hasher: one `Hasher::write_*` call.
#[derive(Clone, Debug, PartialEq, Eq)]
pub enum HashWord {
    /// `write_usize`.
    Usize(usize),
    /// `write_u16`.
    U16(u16),
    /// `write_u64`.
    U64(u64),
    /// `write` of a byte string.
    Bytes(Vec<u8>),
}

/// A hash word with its bytes as a sequence.
pub enum HashWordView {
    Usize(usize),
    U16(u16),
    U64(u64),
    Bytes(Seq<u8>),
}

impl View for HashWord {
    type V = HashWordView;

    open spec fn view(&self) -> HashWordView {
        match self {
            HashWord::Usize(x) => HashWordView::Usize(*x),
            HashWord::U16(x) => HashWordView::U16(*x),
            HashWord::U64(x) => HashWordView::U64(*x),
            HashWord::Bytes(b) => HashWordView::Bytes(b@),
        }
    }
}

/// The views of hash words.
pub open spec fn words_view(words: Seq<HashWord>) -> Seq<HashWordView> {
    words.map_values(|w: HashWord| w@)
}

/// The words that hash an address as a 20-byte array is hashed: its length,
/// then its bytes.
pub open spec fn address_words(user: Address) -> Seq<HashWordView> {
    seq![HashWordView::Usize(20), HashWordView::Bytes(user@)]
}

/// The words that `#[derive(Hash)]` on this enum, with 20-byte-array
/// addresses, feeds a hasher: the variant's index as a `usize`, then each
/// field in order.
pub open spec fn location_words(loc: PerpDexLocation) -> Seq<HashWordView> {
    match loc {
        PerpDexLocation::Balance(user, asset_id) => seq![HashWordView::Usize(0)] + address_words(user) + seq![
            HashWordView::U16(asset_id),
        ],
        PerpDexLocation::Position(user, market_id) => seq![HashWordView::Usize(1)] + address_words(user) + seq![
            HashWordView::U64(market_id),
        ],
        PerpDexLocation::Order(user, market_id, order_id) => seq![HashWordView::Usize(2)] + address_words(user)
            + seq![HashWordView::U64(market_id), HashWordView::U64(order_id)],
        PerpDexLocation::MarketState(market_id) => seq![HashWordView::Usize(3), HashWordView::U64(market_id)],
        PerpDexLocation::UserNonce(user) => seq![HashWordView::Usize(4)] + address_words(user),
    }
}

/// An `FxHasher` with a record of the words fed to it.
struct WordHasher {
    hasher: rustc_hash::FxHasher,
    fed: Ghost<Seq<HashWordView>>,
}

impl WordHasher {
    /// The words fed so far, in order.
    spec fn fed(&self) -> Seq<HashWordView> {
        self.fed@
    }

    /// A fresh hasher.
    fn new() -> (r: WordHasher)
        ensures
            r.fed() == Seq::<HashWordView>::empty(),
    {
        WordHasher { hasher: fx_hasher(), fed: Ghost(Seq::empty()) }
    }

    /// Feeds one word, by the `write_*` call it names.
    fn write_word(&mut self, word: &HashWord)
        ensures
            final(self).fed() == old(self).fed().push(word@),
    {
        match word {
            HashWord::Usize(x) => fx_write_usize(&mut self.hasher, *x),
            HashWord::U16(x) => fx_write_u16(&mut self.hasher, *x),
            HashWord::U64(x) => fx_write_u64(&mut self.hasher, *x),
            HashWord::Bytes(b) => fx_write(&mut self.hasher, b.as_slice()),
        }
        proof {
            self.fed@ = self.fed@.push(word@);
        }
    }

    /// Feeds the words in order.
    fn write_words(&mut self, words: &[HashWord])
        ensures
            final(self).fed() == old(self).fed() + words_view(words@),
    {
        let mut i: usize = 0;
        while i < words.len()
            invariant
                i <= words@.len(),
                self.fed() == old(self).fed() + words_view(words@.take(i as int)),
            decreases words@.len() - i,
        {
            self.write_word(&words[i]);
            assert(words_view(words@.take(i + 1)) =~= words_view(words@.take(i as int)).push(words@[i as int]@));
            i = i + 1;
        }
        assert(words@.take(words@.len() as int) =~= words@);
    }

    /// The hash of the words fed.
    fn finish(&self) -> u64 {
        fx_finish(&self.hasher)
    }
}

impl PerpDexLocation {
    /// The words that the location's hash is made of.
    pub fn hash_words(&self) -> (r: Vec<HashWord>)
        ensures
            words_view(r@) == location_words(*self),
    {
        let mut out: Vec<HashWord> = Vec::new();
        match self {
            PerpDexLocation::Balance(user, asset_id) => {
                out.push(HashWord::Usize(0));
                out.push(HashWord::Usize(20));
                out.push(HashWord::Bytes(user.to_vec()));
                out.push(HashWord::U16(*asset_id));
            },
            PerpDexLocation::Position(user, market_id) => {
                out.push(HashWord::Usize(1));
                out.push(HashWord::Usize(20));
                out.push(HashWord::Bytes(user.to_vec()));
                out.push(HashWord::U64(*market_id));
            },
            PerpDexLocation::Order(user, market_id, order_id) => {
                out.push(HashWord::Usize(2));
                out.push(HashWord::Usize(20));
                out.push(HashWord::Bytes(user.to_vec()));
                out.push(HashWord::U64(*market_id));
                out.push(HashWord::U64(*order_id));
            },
            PerpDexLocation::MarketState(market_id) => {
                out.push(HashWord::Usize(3));
                out.push(HashWord::U64(*market_id));
            },
            PerpDexLocation::UserNonce(user) => {
                out.push(HashWord::Usize(4));
                out.push(HashWord::Usize(20));
                out.push(HashWord::Bytes(user.to_vec()));
            },
        }
        assert(words_view(out@) =~= location_words(*self));
        out
    }
}

impl StateLocation for PerpDexLocation {
    open spec fn spec_partition_id(&self) -> PartitionId {
        PartitionId(2)
    }

    /// The FxHash of the location's words (`hash_words`), with the PerpDex
    /// partition in the high 8 bits.
    fn location_hash(&self) -> (r: u64) {
        let words = self.hash_words();
        let mut hasher = WordHasher::new();
        hasher.write_words(words.as_slice());
        assert(hasher.fed() == location_words(*self));
        let base_hash = hasher.finish();
        PartitionId::perpdex().mix_hash(base_hash)
    }

    fn partition_id(&self) -> (r: PartitionId) {
        PartitionId::perpdex()
    }
}

/// State values of the PerpDex VM.
#[derive(Clone, Copy, Debug, PartialEq, Eq, Structural)]
pub enum PerpDexValue {
    /// A user's balance of an asset.
    Balance(U256),
    /// Position data.
    Position {
        /// Position size: positive is long, negative is short.
        size: i128,
        /// Entry price (18-decimal fixed point).
        entry_price: U256,
        /// Leverage multiplier (1-100x).
        leverage: u8,
        /// Margin locked for the position.
        margin: U256,
        /// Unrealized PnL.
        unrealized_pnl: i128,
        /// Last funding index applied.
        last_funding_index: U256,
    },
    /// Order data.
    Order {
        order_type: OrderType,
        side: Side,
        /// Limit price.
        price: U256,
        /// Size still on the book.
        size: U256,
        /// Size filled so far.
        filled: U256,
        status: OrderStatus,
        post_only: bool,
        reduce_only: bool,
        /// Creation timestamp.
        created_at: u64,
        expires_at: Option<u64>,
    },
    /// Market state.
    MarketState {
        /// Oracle index price.
        index_price: U256,
        /// Mark price used for PnL.
        mark_price: U256,
        /// Current funding rate.
        funding_rate: i128,
        /// Cumulative funding index.
        funding_index: U256,
        /// Open interest of long positions.
        open_interest_long: U256,
        /// Open interest of short positions.
        open_interest_short: U256,
        /// Last update timestamp.
        last_update: u64,
    },
    /// A user's nonce.
    Nonce(u64),
    /// Funding update applied at block finalization.
    LazyFunding { market_id: u64, position_size: i128 },
    /// Deleted state.
    Deleted,
}

impl StateValue for PerpDexValue {
    fn is_lazy(&self) -> (r: bool)
        ensures
            r == (*self is LazyFunding),
    {
        match self {
            PerpDexValue::LazyFunding { .. } => true,
            _ => false,
        }
    }

    fn is_deleted(&self) -> (r: bool)
        ensures
            r == (*self is Deleted),
    {
        match self {
            PerpDexValue::Deleted => true,
            _ => false,
        }
    }
}

impl PerpDexValue {
    /// An empty position: size 0, leverage 1, everything else zero.
    pub fn empty_position() -> (r: PerpDexValue)
        ensures
            r matches PerpDexValue::Position {
                size,
                entry_price,
                leverage,
                margin,
                unrealized_pnl,
                last_funding_index,
            } && size == 0 && entry_price@ == 0 && leverage == 1 && margin@ == 0 && unrealized_pnl
                == 0 && last_funding_index@ == 0,
    {
        PerpDexValue::Position {
            size: 0,
            entry_price: U256::zero(),
            leverage: 1,
            margin: U256::zero(),
            unrealized_pnl: 0,
            last_funding_index: U256::zero(),
        }
    }

    /// A market state with zero prices, rates and open interest, last updated
    /// at `timestamp`.
    pub fn default_market_state(timestamp: u64) -> (r: PerpDexValue)
        ensures
            r matches PerpDexValue::MarketState {
                index_price,
                mark_price,
                funding_rate,
                funding_index,
                open_interest_long,
                open_interest_short,
                last_update,
            } && index_price@ == 0 && mark_price@ == 0 && funding_rate == 0 && funding_index@ == 0
                && open_interest_long@ == 0 && open_interest_short@ == 0 && last_update == timestamp,
    {
        PerpDexValue::MarketState {
            index_price: U256::zero(),
            mark_price: U256::zero(),
            funding_rate: 0,
            funding_index: U256::zero(),
            open_interest_long: U256::zero(),
            open_interest_short: U256::zero(),
            last_update: timestamp,
        }
    }
}

} // verus!
