use vstd::prelude::*;

verus! {

/// Why a collection of tile records was rejected at load time.
/// Load failures are fatal for the caller: every positional and trade
/// calculation downstream assumes a fully validated 40-tile board.
#[derive(Clone, Copy, Debug, PartialEq, Eq, Structural)]
pub enum LoadError {
    /// The board needs exactly 40 tile records.
    WrongTileCount,
    /// A rent schedule has the wrong length for its tile kind, or an
    /// entry outside the accepted range.
    BadSchedule,
    /// A cost or mortgage value outside the accepted range.
    BadAmount,
    /// A set holds tiles of more than one kind.
    MixedSet,
    /// A railroad set with more than four tiles, or a utility set with
    /// more than two.
    OversizedSet,
    /// An ownable tile whose set name has no colour assigned.
    UnknownSetName,
}

/// The reason text of a load error.
pub open spec fn load_error_message_spec(e: LoadError) -> Seq<char> {
    match e {
        LoadError::WrongTileCount => "the board needs exactly 40 tiles"@,
        LoadError::BadSchedule => "a rent schedule is malformed"@,
        LoadError::BadAmount => "a cost is out of range"@,
        LoadError::MixedSet => "a set mixes tile kinds"@,
        LoadError::OversizedSet => "a set has too many tiles"@,
        LoadError::UnknownSetName => "a set name has no colour"@,
    }
}

impl LoadError {
    /// A short reason string for the display layer.
    pub fn message(&self) -> (r: &'static str)
        ensures
            r@ == load_error_message_spec(*self),
    {
        match self {
            LoadError::WrongTileCount => "the board needs exactly 40 tiles",
            LoadError::BadSchedule => "a rent schedule is malformed",
            LoadError::BadAmount => "a cost is out of range",
            LoadError::MixedSet => "a set mixes tile kinds",
            LoadError::OversizedSet => "a set has too many tiles",
            LoadError::UnknownSetName => "a set name has no colour",
        }
    }
}

/// Why a trade command was rejected.  Every rejection leaves board,
/// ledger and balances untouched.
#[derive(Clone, Copy, Debug, PartialEq, Eq, Structural)]
pub enum TradeError {
    /// A trade command other than `start` arrived while no session was
    /// open.
    NoSession,
    /// `start` arrived while a session was already open; the new
    /// session is rejected, not queued.
    SessionAlreadyOpen,
    /// A player id outside the player list.
    InvalidPlayer,
    /// A session with the same player on both sides.
    SelfTrade,
    /// A tile id outside the board.
    InvalidTile,
    /// An offered tile that the offering side does not own.
    NotOwned,
    /// A money offer above the offering side's balance.
    InsufficientFunds,
    /// A negative money offer.
    NegativeAmount,
}

/// The reason text of a trade error.
pub open spec fn trade_error_message_spec(e: TradeError) -> Seq<char> {
    match e {
        TradeError::NoSession => "start a trade first"@,
        TradeError::SessionAlreadyOpen => "a trade is already open"@,
        TradeError::InvalidPlayer => "no such player"@,
        TradeError::SelfTrade => "cannot trade with yourself"@,
        TradeError::InvalidTile => "no such tile"@,
        TradeError::NotOwned => "that tile is not yours to offer"@,
        TradeError::InsufficientFunds => "not enough money for that offer"@,
        TradeError::NegativeAmount => "a money offer cannot be negative"@,
    }
}

impl TradeError {
    /// A short reason string for the display layer.
    pub fn message(&self) -> (r: &'static str)
        ensures
            r@ == trade_error_message_spec(*self),
    {
        match self {
            TradeError::NoSession => "start a trade first",
            TradeError::SessionAlreadyOpen => "a trade is already open",
            TradeError::InvalidPlayer => "no such player",
            TradeError::SelfTrade => "cannot trade with yourself",
            TradeError::InvalidTile => "no such tile",
            TradeError::NotOwned => "that tile is not yours to offer",
            TradeError::InsufficientFunds => "not enough money for that offer",
            TradeError::NegativeAmount => "a money offer cannot be negative",
        }
    }
}

} // verus!
