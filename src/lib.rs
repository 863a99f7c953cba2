//! Readers for the OBJ, MTL and PLY mesh formats.
//!
//! Every reader works on the raw bytes of one file and builds the shared
//! geometry and material model of `model`. Coordinates are kept exactly as
//! the file wrote them: as decimal text for the text formats and as IEEE-754
//! bit patterns for binary PLY. Each reader's result is stated exactly by a
//! specification over the bytes; `laws` proves properties that relate those
//! results.
pub mod text;
pub mod bytes;
pub mod model;
pub mod mtl;
pub mod obj;
pub mod ply;
mod ply_words;
pub mod laws;
pub mod render_input;
pub mod loader;
