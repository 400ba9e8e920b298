//! Picks a random theme (a pairing of terminal and editor color
//! schemes) from a configured catalog, avoiding the currently active
//! one when possible, and renders the shell `export` block that a
//! calling shell evaluates. A time-based policy decides when a `load`
//! request must roll afresh instead of replaying the cached block.
//! Selection, that policy and the rendering carry verified contracts;
//! reading and writing the surrounding files is left to the thin
//! binary around the library.

pub mod formatting;
pub mod operations;
pub mod random;
pub mod reroll;
pub mod select;
pub mod theme;
