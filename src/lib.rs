pub mod condition;
pub mod config;
pub mod context;
pub mod control;
pub mod ini;
pub mod key_combination;
pub mod preset_rule;
pub mod reshade;
pub mod shortcut_config;
pub mod stepping;
pub mod text;
pub mod time_period;
pub mod ui;
pub mod util;
