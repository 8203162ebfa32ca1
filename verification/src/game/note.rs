//! Messages for the players about what just happened: rolls, moves, payments,
//! and every refused request. The engine records them as plain values; the
//! front end words them and shows them for a while.

use vstd::prelude::*;

use super::trade::Item;

verus! {

/// How strongly a message should stand out.
#[derive(Debug, Clone, Copy, PartialEq, Eq, Structural)]
pub enum Level {
    Info,
    Warn,
    Error,
}

/// One message. Players are seat indices and squares board indices.
#[derive(Debug, Clone, Copy, PartialEq, Eq, Structural)]
pub enum Note {
    /// The roll-off picked `who` to start.
    FirstPlayer { who: usize },
    /// It is now `who`'s turn.
    Turn { who: usize },
    /// The turn cannot end before the dice are rolled.
    RollFirst,
    /// No more rolls this turn.
    AlreadyRolled,
    /// `who` rolled `a` and `b`.
    Rolled { who: usize, a: u8, b: u8 },
    /// Doubles: `who` rolls again.
    DoublesAgain { who: usize },
    /// `who` passed GO and collected the salary.
    PassedGo { who: usize },
    /// `who` landed on the square `pos`.
    Landed { who: usize, pos: usize },
    /// The deed at `pos` is for sale at `price`.
    ForSale { pos: usize, price: u32 },
    /// The square is not a deed.
    NothingToBuy,
    /// The deed already has an owner.
    AlreadyOwned,
    /// Not enough cash for the deed.
    CantAffordDeed,
    /// `who` bought the deed at `pos` for `price`.
    Bought { who: usize, pos: usize, price: u32 },
    /// `who` paid `amount` to the bank.
    Paid { who: usize, amount: u32 },
    /// `who` paid `amount` to the player `to`.
    PaidTo { who: usize, to: usize, amount: u32 },
    /// `who` paid `per` to each of several players.
    PaidEach { who: usize, per: u32 },
    /// `who` owes `amount` and must raise the cash or fold.
    MustRaise { who: usize, amount: u32 },
    /// `who` is out of the game.
    Out { who: usize },
    /// `who` owes `amount` interest on inherited mortgages.
    Interest { who: usize, amount: u32 },
    /// `who` won the game.
    Wins { who: usize },
    /// `who` was sent to jail.
    Jailed { who: usize },
    /// `who` paid the bail.
    PaidBail { who: usize },
    /// `who` used a Get Out of Jail Free card.
    UsedCard { who: usize },
    /// `who` rolled doubles and left jail.
    LeftJail { who: usize },
    /// `who` failed a third time and pays the bail.
    ForcedBail { who: usize },
    /// `who` failed to roll doubles, `tries` of three.
    FailedDoubles { who: usize, tries: u8 },
    /// `who` drew a card.
    DrewCard { who: usize },
    /// `who` collected `amount` from the bank.
    Collected { who: usize, amount: u32 },
    /// `who` collects `amount` from each player.
    CollectsEach { who: usize, amount: u32 },
    /// `who` threw `roll` for the utility's rent.
    UtilityThrow { who: usize, roll: usize },
    /// `who` moved back to `pos`.
    MovedBack { who: usize, pos: usize },
    /// `who` kept a Get Out of Jail Free card.
    KeptCard { who: usize },
    /// Nothing to mortgage.
    NothingToMortgage,
    /// Building needs a whole color group.
    NoFullGroup,
    /// The deed is already mortgaged.
    AlreadyMortgaged,
    /// The group's buildings must go first.
    SellHousesFirst,
    /// `who` mortgaged the deed at `pos` for `amount`.
    Mortgaged { who: usize, pos: usize, amount: u32 },
    /// Lifting the mortgage on `pos` needs `amount`.
    NeedToUnmortgage { pos: usize, amount: u32 },
    /// `who` lifted the mortgage on `pos` for `amount`.
    Unmortgaged { who: usize, pos: usize, amount: u32 },
    /// The whole group must be unmortgaged before building.
    UnmortgageGroupFirst,
    /// The street already has a hotel.
    HasHotel,
    /// Building must stay even across the group.
    BuildEvenly,
    /// The bank has no hotel left.
    NoHotels,
    /// The bank has no house left.
    NoHouses,
    /// Building here costs `amount`.
    NeedToBuild { amount: u32 },
    /// `who` built on `pos` (a hotel when `hotel`) for `cost`.
    Built { who: usize, pos: usize, hotel: bool, cost: u32 },
    /// The street has no building to sell.
    NoHousesToSell,
    /// Selling must stay even across the group.
    SellEvenly,
    /// The bank lacks the houses to break the hotel into.
    NoHousesToBreakHotel,
    /// `who` sold a building on `pos` for `refund`.
    SoldHouse { who: usize, pos: usize, refund: u32 },
    /// The deed at `pos` goes to auction.
    AuctionOpened { pos: usize },
    /// The auction was cancelled.
    AuctionCancelled,
    /// `who` cannot afford a bid of `amount`.
    CantAffordBid { who: usize, amount: u32 },
    /// `who` bid `amount`.
    Bid { who: usize, amount: u32 },
    /// `who` dropped out of the auction.
    Passed { who: usize },
    /// No bids: the deed stays with the bank.
    NoBids,
    /// `who` won the deed at `pos` for `price`.
    AuctionWon { who: usize, pos: usize, price: u32 },
    /// Nobody to trade with.
    NoOneToTrade,
    /// Neither side has anything to trade.
    NothingToTrade,
    /// A built-up group cannot be traded.
    SellBeforeTrading,
    /// `who` cannot afford `price`.
    CantAffordTrade { who: usize, price: u32 },
    /// `buyer` bought `item` from `seller` for `price`.
    Traded { buyer: usize, seller: usize, item: Item, price: u32 },
}

/// How strongly each message stands out.
pub open spec fn level_of(n: Note) -> Level {
    match n {
        Note::RollFirst | Note::AlreadyRolled | Note::NothingToBuy | Note::AlreadyOwned | Note::Paid { .. }
        | Note::PaidTo { .. } | Note::PaidEach { .. } | Note::Interest { .. } | Note::Jailed { .. }
        | Note::PaidBail { .. } | Note::ForcedBail { .. } | Note::FailedDoubles { .. } | Note::NothingToMortgage
        | Note::NoFullGroup | Note::AlreadyMortgaged | Note::SellHousesFirst | Note::UnmortgageGroupFirst
        | Note::HasHotel | Note::BuildEvenly | Note::NoHotels | Note::NoHouses | Note::NoHousesToSell
        | Note::SellEvenly | Note::NoHousesToBreakHotel | Note::AuctionCancelled | Note::CantAffordBid { .. }
        | Note::NoBids | Note::NoOneToTrade | Note::NothingToTrade | Note::SellBeforeTrading
        | Note::CantAffordTrade { .. } => Level::Warn,
        Note::CantAffordDeed | Note::MustRaise { .. } | Note::Out { .. } | Note::NeedToUnmortgage { .. }
        | Note::NeedToBuild { .. } => Level::Error,
        _ => Level::Info,
    }
}

impl Note {
    /// How strongly this message stands out.
    pub fn level(&self) -> (l: Level)
        ensures
            l == level_of(*self),
    {
        match self {
            Note::RollFirst | Note::AlreadyRolled | Note::NothingToBuy | Note::AlreadyOwned | Note::Paid { .. }
            | Note::PaidTo { .. } | Note::PaidEach { .. } | Note::Interest { .. } | Note::Jailed { .. }
            | Note::PaidBail { .. } | Note::ForcedBail { .. } | Note::FailedDoubles { .. } | Note::NothingToMortgage
            | Note::NoFullGroup | Note::AlreadyMortgaged | Note::SellHousesFirst | Note::UnmortgageGroupFirst
            | Note::HasHotel | Note::BuildEvenly | Note::NoHotels | Note::NoHouses | Note::NoHousesToSell
            | Note::SellEvenly | Note::NoHousesToBreakHotel | Note::AuctionCancelled | Note::CantAffordBid { .. }
            | Note::NoBids | Note::NoOneToTrade | Note::NothingToTrade | Note::SellBeforeTrading
            | Note::CantAffordTrade { .. } => Level::Warn,
            Note::CantAffordDeed | Note::MustRaise { .. } | Note::Out { .. } | Note::NeedToUnmortgage { .. }
            | Note::NeedToBuild { .. } => Level::Error,
            _ => Level::Info,
        }
    }
}

} // verus!
