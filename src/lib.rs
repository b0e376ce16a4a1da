//! Turns Doxygen XML descriptions of a C header into Unix manual pages.

pub mod builders;
pub mod detail;
pub mod dump;
pub mod events;
pub mod index;
pub mod markup;
pub mod model;
pub mod page;
pub mod pages;
pub mod render;
pub mod text;
pub mod tree;
