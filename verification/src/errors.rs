use vstd::prelude::*;

verus! {

/// Configuration errors, fatal at construction time: a reel cannot be built
/// from an empty pool or from a pool whose weights are all zero, and a
/// circular animation buffer must be at least as long as the visible window.
#[derive(Clone, Copy, Debug, PartialEq, Eq, Structural)]
pub enum ConfigError {
    EmptyPool,
    NoPositiveWeight,
    BufferTooShort,
}

} // verus!
