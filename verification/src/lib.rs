pub mod check;
pub mod checks;
pub mod config;
pub mod daemon;
pub mod display;
pub mod export;
pub mod lang;
pub mod messages;
pub mod numfmt;
pub mod paths;
pub mod profile;
pub mod rules;
pub mod source;
pub mod text;
pub mod tone;
pub mod update;
pub mod voice;
