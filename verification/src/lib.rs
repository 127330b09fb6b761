//! Verified core logic of a perpetual-swaps market, its vault and its rewards.
pub mod number;
pub mod error;
pub mod capping;
pub mod price;
pub mod config;
pub mod dnf;
pub mod funding;
pub mod data_series;
pub mod fees;
pub mod keyed;
pub mod vault;
pub mod rujira;
pub mod position;
pub mod rewards;
pub mod oracle;
pub mod tracker;
pub mod close;
pub mod settlement;
pub mod status;
pub mod gather;
pub mod ibc;
pub mod take_profit;
pub mod deferred;
pub mod lp;
pub mod migrate;
pub mod cw20;
pub mod validate;
pub mod lock;
pub mod open;
pub mod update;
pub mod book;
pub mod orders;
pub mod crank;
pub mod reset;
pub mod spot;
pub mod bridge;
pub mod liquifund;
pub mod pool;
pub mod nft;
pub mod triggers;
