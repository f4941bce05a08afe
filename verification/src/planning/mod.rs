//! Budgeted selection of project and reference context for planning prompts.

pub mod terms;
pub mod blocks;
pub mod select;
pub mod render;
pub mod planner;
pub mod ranked;
pub mod budget;
