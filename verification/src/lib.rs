//! A clipboard-history manager core with a multi-display screenshot tool.
//!
//! The crate holds the decision logic of the application: the searchable,
//! size-capped history store with pinning and collections, the clipboard
//! monitor's change detection, the display-capture aggregation and overlay
//! geometry, and the text codecs around them. Reading the OS clipboard,
//! writing files and driving windows is left to the surrounding binary.

pub mod capture;
pub mod classify;
pub mod clock;
pub mod codec;
pub mod history;
pub mod model;
pub mod monitor;
pub mod numfmt;
pub mod popup;
pub mod store;
pub mod search;
pub mod state;
pub mod seq_lemmas;
pub mod text;
