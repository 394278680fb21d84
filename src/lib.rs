//! Search and selection core of a password-manager picker: an item index
//! built from the store's catalog, fuzzy ranking of items against a query,
//! and the two-stage flow that ends in one field being copied.

pub mod catalog;
pub mod command;
pub mod config;
pub mod fields;
pub mod ranking;
pub mod session;

pub use command::{after_listing, decode_output, CommandError, ListingStep};
pub use config::{max_entries, op_path, prefix, Config};
pub use catalog::{build_index, domain_from, category_from_tag, host_from_url, url_domains, Category, CatalogItem, IndexedItem, ListedItem};
pub use fields::{display_selection_items, extract, field_value, is_filled, otp_present, DetailField, Entry, Selection};
pub use ranking::{combine_scores, score, top_ranked};
pub use session::{otp_fetched, query_without_prefix, Action, Session, Stage};
