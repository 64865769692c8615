//! Packaging, argument encoding and transaction assembly for Move scripts and
//! modules.
pub mod address;
pub mod args;
pub mod bundle;
pub mod canonical;
pub mod commands;
pub mod decimal;
pub mod error;
pub mod hex_codec;
pub mod rpc;
pub mod script_args;
pub mod script_transaction;
pub mod text;
pub mod type_args;
