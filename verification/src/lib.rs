//! Verified core of a DayZ launcher: server lists, mod manifests, launch
//! arguments, `.dzch` connection links and the steamcmd progress monitor.

pub mod error;
pub mod regexp;
pub mod text;
pub mod paths;
pub mod steamcmd;
pub mod monitor;
pub mod api;
pub mod mods;
pub mod ctl;
pub mod urlcodec;
pub mod dzch;
pub mod calendar;
pub mod battlemetrics;
pub mod dayzavr;
pub mod config;
pub mod news;
pub mod article;
pub mod system;
pub mod offline;
pub mod a2s;
pub mod tui;
pub mod widgets;
pub mod keys;
pub mod dto;
pub mod helpers;
pub mod wizard;
pub mod screens;
pub mod panels;
pub mod overlay;
pub mod direct;
pub mod session;
pub mod workshop;
pub mod details;
pub mod confirm;
pub mod codec;
pub mod updater;
pub mod avatar;
pub mod bundle;
pub mod ping;
pub mod lists;
pub mod bars;
pub mod archive;
