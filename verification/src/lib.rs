pub mod control;
pub mod examples;
pub mod navigation;
pub mod packaging;
pub mod params;
pub mod program;
pub mod settings;
pub mod state;
pub mod text;
pub mod ui;
pub mod worker;
