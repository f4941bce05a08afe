//! Verified core of the novel-writing assistant: domain rules, context
//! planning, AI output checks and the decisions behind the stores.

pub mod text;
pub mod ids;
pub mod json;
pub mod domain;
pub mod entity;
pub mod materials;
pub mod review_model;
pub mod planning;
pub mod ai;
pub mod application;
pub mod discussion;
pub mod candidates;
pub mod manuscript;
pub mod plan;
pub mod entity_store;
