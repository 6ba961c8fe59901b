//! Control of `sched_ext` schedulers.
pub mod actions;
pub mod app;
pub mod args;
pub mod backend;
pub mod cli;
pub mod conduct;
pub mod connect;
pub mod controls;
pub mod ctl;
pub mod dialogue;
pub mod driver;
pub mod event_loop;
pub mod history;
pub mod input;
pub mod kernel;
pub mod keys;
pub mod loader;
pub mod logs;
pub mod monitor;
pub mod notices;
pub mod power_profiles;
pub mod refresh;
pub mod report;
pub mod runner;
pub mod sched;
pub mod screen;
pub mod text;
