//! The logic of a quest dashboard: tmux argument building and parsing, an
//! in-memory tmux fixture, and the state machines, layout and line building of
//! a terminal UI. Nothing in here touches a terminal, a process or a file.
pub mod table;
pub mod text;
pub mod keys;
pub mod layout;
pub mod paint;
pub mod form;
pub mod model;
pub mod tmux;
pub mod fixture;
pub mod json;
pub mod list;
pub mod quests;
pub mod quest_lines;
pub mod events;
pub mod event_lines;
pub mod app;
pub mod lifecycle;
pub mod pager;
pub mod shell;
pub mod screen;
pub mod laws;
pub mod drawn;
pub mod text_laws;
pub mod quest_laws;
pub mod event_laws;
pub mod shell_laws;
pub mod key_laws;
pub mod line_laws;
pub mod tmux_laws;
pub mod frame_laws;
pub mod form_laws;
pub mod fixture_laws;
pub mod outcome_laws;
