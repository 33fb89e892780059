//! Text alerts around the games of a season.
//!
//! A schedule comes as comma-separated text, one game to a row. Each row is
//! read into a [`game_parser::Game`]; for every game whose start is fully
//! known and still ahead, [`alerts::get_times_to_alert`] plans reminders
//! before the start, an alert at the start and confirmations after it.
//! Every alert becomes a [`dispatcher::Job`], and a
//! [`dispatcher::Dispatcher`] says, event by event, when each job is to
//! sleep, when it is to be sent, and when the run is over.
//!
//! The library reads no clock, sleeps on no thread and opens no socket: the
//! instant of planning, the passing of time and the outcome of every send
//! are handed to it.

pub mod alerts;
pub mod csv_reader;
pub mod dashboard;
pub mod dispatcher;
pub mod game_parser;
pub mod orchestrator;
pub mod text;
pub mod twilio;
