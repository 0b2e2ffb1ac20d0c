//! What holds of appending as a whole.

pub mod bounds;
pub mod commands;
pub mod composition;
pub mod covered;
pub mod moves;
pub mod painting;
pub mod recording;
pub mod rejections;
pub mod tables;
pub mod views;
