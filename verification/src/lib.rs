//! A verified engine for a terminal Monopoly game: the board, players, the
//! rules of a turn (movement, rent, cards, jail, building, mortgages, debts,
//! auctions and trades) and the small menus that drive them.

pub mod board;
pub mod game;
pub mod map;
pub mod player;
pub mod screen;
pub mod random;
pub mod setup;
pub mod space;
pub mod ui;
