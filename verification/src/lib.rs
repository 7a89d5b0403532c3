//! Core of a peer-to-peer cryptocurrency node: the dual-chain consensus
//! ledger (account-state trie, typed transactions, block chain) and the
//! networking core (protocol flows, downloader, bootstrap cache), with the
//! virtual-machine block-length scanner used to bound control-flow regions
//! in contract code.

pub mod balance;
pub mod bootstrap;
pub mod bytemap;
pub mod chain;
pub mod change_minter;
pub mod codec;
pub mod mint;
pub mod network;
pub mod network_err;
pub mod peer;
pub mod protocol_flow;
pub mod address;
pub mod crypto;
pub mod keys;
pub mod downloader;
pub mod genesis;
pub mod trie;
pub mod tx_traits;
pub mod vm;
