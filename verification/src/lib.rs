//! Verified decision logic of a desktop client for hosted video generation.

pub mod domain;
pub mod draft_rows;
pub mod gui;
pub mod gui_state;
pub mod history;
pub mod history_laws;
pub mod import_laws;
pub mod json;
pub mod migration;
pub mod outside;
pub mod paths;
pub mod place_laws;
pub mod providers;
pub mod schema;
pub mod schema_laws;
pub mod state_laws;
pub mod table;
pub mod terminal_laws;
pub mod text;
pub mod ui;
pub mod ui_input;
pub mod urls;
pub mod workflow;
pub mod workflow_laws;
