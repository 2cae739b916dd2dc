//! Verified core of the hyprcircl radial launcher: the CSS theme parser,
//! the configuration model and its search rules, the top-pill module text,
//! the menu navigation state machine and the command/CLI decisions.

pub mod text;
pub mod css;
pub mod theme;
pub mod cascade;
pub mod config;
pub mod bar;
pub mod command;
pub mod nav;
