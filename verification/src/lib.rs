//! The decisions of a family file drive: what each page shows, what each call
//! is answered, and what every address, header and label on the way says.
//!
//! Nothing here reads a socket, a database or a disk. A caller asks the store,
//! hands the rows over as plain values, and is told what to do next.
pub mod address;
pub mod avatar;
pub mod clock;
pub mod drive;
pub mod files;
pub mod guard;
pub mod health;
pub mod i18n;
pub mod laws;
pub mod layout;
pub mod live;
pub mod media;
pub mod modal;
pub mod model;
pub mod order;
pub mod pages;
pub mod query;
pub mod refusal;
pub mod search;
pub mod secrets;
pub mod server;
pub mod service;
pub mod settings;
pub mod share;
pub mod shared;
pub mod sizes;
pub mod sync;
pub mod text;
pub mod trash;
pub mod upload;
pub mod walk;
