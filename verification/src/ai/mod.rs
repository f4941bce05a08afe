//! AI task settings, output checks, cost accounting and writing admission.

pub mod tasks;
pub mod parsing;
pub mod output;
pub mod admission;
pub mod gateway;
pub mod secrets;
pub mod usage;
pub mod usage_laws;
pub mod quality;
pub mod runs;
pub mod preferences;
pub mod exchange;
pub mod profiles;
