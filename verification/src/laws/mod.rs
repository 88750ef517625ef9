//! What the drive promises, stated over what goes into an operation and what
//! comes out of it.
pub mod accounts;
pub mod addresses;
pub mod background;
pub mod bytes;
pub mod calls;
pub mod cards;
pub mod details;
pub mod display;
pub mod listings;
pub mod lists;
pub mod machines;
pub mod paths;
pub mod public;
pub mod uploads;
pub mod words;
