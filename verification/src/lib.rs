//! Verified core of the vinyl catalog service.
use vstd::prelude::*;

pub mod admin;
pub mod album_metadata;
pub mod auth;
pub mod catalog;
pub mod config;
pub mod cover;
pub mod db;
pub mod error;
pub mod musicbrainz;
pub mod normalize;
pub mod recognition;
pub mod retail;
pub mod search_terms;
pub mod sort;
pub mod text;

verus! {

} // verus!
