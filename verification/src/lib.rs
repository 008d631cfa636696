//! The verified core of NeoShell, a desktop SSH client.

pub mod text;
pub mod split;
pub mod number;
pub mod offers;
pub mod order;
pub mod lettercase;
pub mod names;
pub mod catalog;
pub mod settings;
pub mod display;
pub mod titles;
pub mod connections;
pub mod groups;
pub mod processes;
pub mod ports;
pub mod monitors;
pub mod grid;
pub mod paint;
pub mod key_steps;
pub mod keys;
pub mod remote_files;
pub mod secrets;
pub mod hand_steps;
pub mod history;
pub mod steps;
pub mod tab_steps;
pub mod tabs;
pub mod auth;
pub mod events;
pub mod screens;
pub mod focus;
pub mod form_steps;
pub mod forms;
pub mod folded;
pub mod local_files;
pub mod logs;
pub mod state;
pub mod overlays;
pub mod palette;
pub mod closing;
pub mod common;
pub mod locking;
pub mod connecting;
pub mod editing;
pub mod signing;
pub mod panes;
pub mod draining;
pub mod event_steps;
pub mod extracts;
pub mod input;
pub mod picture;
pub mod pointer;
pub mod finding;
pub mod watch_steps;
pub mod watching;
pub mod browsing;
pub mod transfer_steps;
pub mod transferring;
pub mod shared_steps;
pub mod sharing;
pub mod keeping;
pub mod windows;
pub mod wording;
pub mod readings;
pub mod updating;
pub mod upkeep;
pub mod starting;
pub mod store_steps;
pub mod whole;
