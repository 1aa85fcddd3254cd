//! Update checking for a single externally distributed package.
//!
//! The crate decides; it does no input or output. A caller fetches the
//! latest release record ([`fetch`], [`release`]), scans the download
//! directory ([`inventory`]), lets [`reconcile::plan_update`] compare the
//! version tokens embedded in the file names ([`version`]), and, if the
//! plan calls for it, drives a [`download::Download`] to completion.
//!
//! Every function states its result over the character sequences of the
//! strings involved, and every such statement is proved.

pub mod download;
pub mod error;
pub mod fetch;
pub mod inventory;
pub mod reconcile;
pub mod release;
pub mod text;
pub mod update_type;
pub mod version;
