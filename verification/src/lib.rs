//! Score transposition and scale-matching engine for a fixed-pitch handpan.
//!
//! The library reconstructs the ordered measures, chords and notes of one
//! instrument part from a tag-structured notation document, transposes every
//! pitch by a fixed or automatically chosen semitone shift, and annotates each
//! note with its distance from the nearest pitch of a target scale.

pub mod events;
pub mod files;
pub mod html;
pub mod matcher;
pub mod metadata;
pub mod parts;
pub mod request;
pub mod scales;
pub mod score;
pub mod text;
pub mod transpose;
pub mod xml;
