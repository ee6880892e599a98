//! What the library promises as a whole, as relations between what goes into its functions and
//! what comes out of them.
pub mod memory;
pub mod editing;
pub mod wire;
pub mod reads;
pub mod writes;
pub mod agent;
pub mod text;
pub mod diagnostics;
pub mod listings;
pub mod commands;
pub mod editor;
pub mod workspace;
pub mod pictures;
pub mod values;
