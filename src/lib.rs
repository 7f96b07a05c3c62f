//! Registry of generated units ("kitties") with collateral-backed ownership,
//! a genealogy graph and deterministic DNA recombination for breeding.
pub mod balances;
pub mod dna;
pub mod kitties;
pub mod random;

pub use balances::{AccountData, BalanceError, Balances};
pub use dna::{combine, combine_dna, Kitty};
pub use kitties::{last_event, new_test_ext, Error, Event, KittyNode, Module, Test};
pub use random::{random_value, MockRandom};
