//! J-ALERT receiver core: the telegram model, the classifier that turns a
//! received JSONL line or a raw JMA XML telegram into an alert channel, the
//! shared state store that drives the kiosk display and the mailbox, the
//! decisions of the web server, the feed and the run settings, and what the
//! display and management screens show.

pub mod classify;
pub mod clock;
pub mod config;
pub mod json;
pub mod model;
pub mod source;
pub mod state;
pub mod text;
pub mod ui;
pub mod web;
pub mod xml;
