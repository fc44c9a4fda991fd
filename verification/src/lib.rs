//! Primitives of a Substrate chain.
//!
//! The larger part is the digest schedule of a changes trie. A changes trie
//! records, block by block, which storage keys changed. Every
//! `digest_interval` blocks a level-1 digest sums up the blocks before it,
//! every `digest_interval^2` blocks a level-2 digest sums up the level-1
//! digests, and so on, up to `digest_levels` levels.
//! [`ChangesTrieConfiguration`] answers where those digests fall: whether one
//! is due at a block, of which level, and which blocks the digests of the
//! highest level cover. The block numbers it works on are of any type that
//! implements [`BlockNumber`]; all of them are counted from a `zero` block that
//! the caller supplies. [`laws`] holds what is proved of the schedule as a
//! whole.
//!
//! [`host`] and [`account`] hold the forms in which a chain that speaks IBC
//! keeps heights, client types, sequence numbers and the accounts that signers
//! name.

pub mod account;
pub mod changes_trie;
pub mod host;
pub mod laws;
pub mod number;
pub mod power;

pub use crate::changes_trie::ChangesTrieConfiguration;
pub use crate::number::BlockNumber;
