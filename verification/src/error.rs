use vstd::prelude::*;

verus! {

/// Why a request was refused.
#[derive(Debug, Clone, PartialEq, Eq)]
pub enum LogicError {
    /// An I/O failure, with its message.
    Io(String),
    Custom(String),
    InvalidRequest,
    InvalidBattleCheckpoint(String),
    HeroNotFound,
    InsufficientItems,
    InsufficientCurrency,
    BannerNotFound,
    BannerNotYetActive,
    BannerExpired,
}

} // verus!
