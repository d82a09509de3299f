//! Rules for optional agent activity, guarded native prompts and the DSH driver.

pub mod text;
pub mod json;
pub mod activity;
pub mod api;
pub mod digest;
pub mod menu;
pub mod native_prompt;
pub mod strip;
pub mod dsh;
