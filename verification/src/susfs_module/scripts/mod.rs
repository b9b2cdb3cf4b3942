//! Builders of the shell-script fragments and of the four boot-stage
//! scripts assembled from them.
pub mod cleanup;
pub mod generate;
pub mod hide_bl;
pub mod prelude;
pub mod prop;
