//! Stateless pagination sessions and bulk history maintenance for a chat bot.
//!
//! Session state for interactive paginated views is carried entirely inside
//! opaque component identifiers (tokens); decoding and validating such a token
//! replaces any server-side session store.  The crate also plans bulk
//! history purges: classifying fetched messages, chunking deletions, and
//! deciding when a channel walk must stop.

pub mod cleanup;
pub mod clock;
pub mod confirm;
pub mod dispatch;
pub mod help;
pub mod interaction;
pub mod messages;
pub mod numeral;
pub mod page;
pub mod parse;
pub mod perms;
pub mod purge;
pub mod strutil;
pub mod token;
pub mod view;
pub mod warnings;
