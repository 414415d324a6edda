//! The core of a desktop companion that shows one of a few character
//! overlays: the configuration of the character slots, the provisioning of
//! their asset bundles, and the rule that at most one overlay is shown.
//!
//! Every rule is stated as a contract and proved.  The core does no I/O: it
//! decides from plain values what is to be read, fetched, moved and written,
//! and the program around it performs those steps.
//!
//! - [`slots`] and [`store`]: the slot records, their merge against the fixed
//!   slot identifiers, loading, migration and edits.
//! - [`archive`]: the entries of a fetched ZIP archive and what to create for
//!   each.
//! - [`layout`]: the search for the model descriptor in an unpacked bundle
//!   and the normalization of its layout.
//! - [`provision`]: the steps that make a slot's assets ready.
//! - [`visibility`]: which overlay is shown, and cycling through the enabled
//!   slots.
//! - [`paths`]: where the files live below the platform's data directory.
//! - [`models`], [`secrets`], [`codex`], [`text`], [`error`]: the plain
//!   records, the built-in API key, checks on generated files, text
//!   helpers, and the failures.

pub mod archive;
pub mod codex;
pub mod error;
pub mod layout;
pub mod models;
pub mod paths;
pub mod provision;
pub mod secrets;
pub mod slots;
pub mod store;
pub mod text;
pub mod visibility;
