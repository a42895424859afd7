//! A multi-source search aggregator for magnet-link catalogs.
//!
//! The crate normalizes heterogeneous human-readable values (sizes, dates)
//! into comparable forms, parses the listing and detail pages of several
//! catalog sites into one unified item model, merges and ranks the results
//! of all sites, and routes a preview request back to the site that
//! produced the chosen item.  All logic is verified; the HTML selector
//! engine, the base64 decoder and the calendar arithmetic are reached
//! through a small set of trusted wrappers.

pub mod app;
pub mod date;
pub mod error;
pub mod html;
pub mod icons;
pub mod item;
pub mod javdb;
pub mod madou;
pub mod magnet;
pub mod size;
pub mod text;
pub mod u3c3;

pub use app::{AppState, FromState};
pub use date::Date;
pub use error::Error;
pub use icons::IconName;
pub use item::{Bound, Item, Method, Preview, Previewable, Request, SourceId};
pub use javdb::Javdb;
pub use madou::Madou;
pub use magnet::{Finder, Magnet};
pub use size::{size_to_string, Size};
pub use u3c3::U3C3;
