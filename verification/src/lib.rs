//! Verified core of a multi-chain token sniping bot: configuration lookup,
//! wallet key handling, trade monitoring, stored-document conversions and the
//! text that the bot shows.
pub mod strmap;
pub mod text;
pub mod config;
pub mod wallet;
pub mod document;
pub mod models;
pub mod monitor;
pub mod trading;
pub mod helper;
pub mod menu;
pub mod queries;
pub mod events;
