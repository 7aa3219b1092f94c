//! Token usage, quota and pricing logic of the CodexHalo desktop HUD.
pub mod control;
pub mod discovery;
pub mod geometry;
pub mod json;
pub mod text;
pub mod usage;
pub mod paths;
pub mod pricing;
pub mod quota;
pub mod process;
pub mod rollout;
pub mod settings;
pub mod status;

