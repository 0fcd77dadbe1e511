//! Plain identifiers for the host objects that the contracts compare but never
//! look inside: ledger addresses, symbols and 32-byte proposal hashes.
use vstd::prelude::*;

verus! {

/// A ledger address (an account or a contract), known by a numeric handle.
#[derive(Clone, Copy, Debug, PartialEq, Eq, Structural, Hash)]
pub struct AccountId(pub u64);

/// A short symbol, such as a currency denomination or a function name.
#[derive(Clone, Copy, Debug, PartialEq, Eq, Structural, Hash)]
pub struct SymbolId(pub u64);

/// A 32-byte hash (a proposal id or a contract wasm hash), known by a handle.
#[derive(Clone, Copy, Debug, PartialEq, Eq, Structural, Hash)]
pub struct HashId(pub u64);

} // verus!
