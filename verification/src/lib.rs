//! The client side of The Update Framework (TUF).
//!
//! A [`client::Client`] trusts root metadata from the start ([`setup`]), brings its metadata up to
//! date ([`update`]) and looks up the descriptions of targets ([`lookup`]). It decides what to
//! fetch, what to have verified, what to trust and what to store; reading, writing and checking
//! signatures is the work of whoever runs it. Each procedure is a sequence of steps: a step asks
//! for one such piece of work, and the reply to it leads to the next step.
//!
//! [`run`], [`setup_run`], [`update_run`] and [`lookup_run`] write the procedures down as a whole
//! and show that the steps amount to them. What holds of all of them stands in [`setup_laws`] for
//! the creation of a client; in [`fetch_laws`], [`root_laws`], [`update_trace`], [`update_laws`] and
//! [`repeat_laws`] for updates; and in [`walk_laws`], [`lookup_laws`] and [`skip_laws`] for lookups.
//! [`value_laws`] holds what is true of paths, times and numbers.

pub mod client;
pub mod config;
pub mod error;
pub mod fetch;
pub mod fetch_laws;
pub mod lookup;
pub mod lookup_laws;
pub mod lookup_run;
pub mod metadata;
pub mod path;
pub mod repeat_laws;
pub mod root_laws;
pub mod run;
pub mod setup;
pub mod setup_laws;
pub mod setup_run;
pub mod skip_laws;
pub mod table;
pub mod time;
pub mod translate;
pub mod update;
pub mod update_laws;
pub mod update_run;
pub mod update_trace;
pub mod value_laws;
pub mod walk_laws;
