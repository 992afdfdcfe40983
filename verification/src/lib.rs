//! Selection of images from the JUMP Cell Painting gallery (dataset
//! cpg0016) and the decisions taken while they are fetched.
//!
//! The crate holds the rules; reading files, talking to servers and
//! sleeping are left to the caller, which hands the outcomes back.

pub mod args;
pub mod card;
pub mod download;
pub mod table;
pub mod utils;
