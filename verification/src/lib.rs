//! A registry of clubs and their members.
//!
//! The registry is an explicitly owned store that a host drives one
//! transition at a time. Every transition waits on an admission decision,
//! either applies in full or leaves the store untouched, and hands back the
//! notification that the host should emit. Two collections make up the store:
//! the clubs, keyed by their id, and the memberships, a set of
//! `(club, account)` pairs. A club's member count always equals the number of
//! memberships under it, and a membership only exists under a live club.

pub mod clubs;
pub mod laws;
pub mod members;
pub mod model;
pub mod pallet;

pub mod types;
pub mod weights;

pub use crate::clubs::ClubTable;
pub use crate::members::{BulkRemoval, Memberships};
pub use crate::model::{bulk_removed, entries_under, Call, Registry, Step};
pub use crate::pallet::Pallet;
pub use crate::types::{
    AccountId, Admission, ClubDetails, ClubId, ClubView, DispatchError, Error, Event, EventView,
};
pub use crate::weights::{DbWeight, SubstrateWeight, Weight, WeightInfo};
