//! What holds of the operations as a whole, stated on what goes in and what comes out.

pub mod authorization;
pub mod candidates;
pub mod delivery;
pub mod direct_path;
pub mod files;
pub mod layouts;
pub mod moving;
pub mod places;
pub mod resuming;
pub mod sessions;
pub mod statuses;
pub mod texts;
pub mod transfers;
