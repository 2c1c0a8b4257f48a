//! The decision core of an interactive client for a terminal-automation
//! server: command grammar, completion, request building, reply handling and
//! screen layout, all stated and proved over plain values.

pub mod adopt;
pub mod app;
pub mod args;
pub mod auto_serve;
pub mod command;
pub mod completer;
pub mod ctx;
pub mod dispatcher;
pub mod duration;
pub mod error;
pub mod fields;
pub mod frames;
pub mod highlighter;
pub mod history;
pub mod input;
pub mod json;
pub mod lines;
pub mod live;
pub mod lower;
pub mod lua;
pub mod meta;
pub mod notes;
pub mod paint;
pub mod pictures;
pub mod printed;
pub mod prompt;
pub mod render;
pub mod replies;
pub mod screen;
pub mod snapshot;
pub mod socket;
pub mod sort;
pub mod spawn;
pub mod startup;
pub mod text;
pub mod tips;
pub mod traffic;
pub mod transport;
pub mod tui;
