//! Checks an fclones dry-run move listing and converts it into a `mega-rm`
//! script, and keeps the state of the window that drives both.
//!
//! - `text`, `numbers`: character-level helpers, decimal rendering and parsing.
//! - `lines`: what one line of a listing says.
//! - `scan`: one pass over the lines, shared by the check and the conversion.
//! - `check`: the check before a conversion.
//! - `convert`: the conversion into script lines and progress messages.
//! - `progress`: reading a progress message back.
//! - `window`: the state of the window and its events.
//! - `laws`: properties that tie these together.
//! - `listing_laws`: what the check and the conversion do, line by line, stated
//!   from the text of the listing.

pub mod text;
pub mod numbers;
pub mod lines;
pub mod scan;
pub mod check;
pub mod convert;
pub mod progress;
pub mod window;
pub mod laws;
pub mod listing_laws;
