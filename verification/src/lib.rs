//! Verified core of `pcode`, a vim-modal patch REPL: patch parsing and
//! application, the scrollback buffer, the line editor and the helpers the
//! terminal front end builds on.

pub mod text;
pub mod patch;
pub mod apply;
pub mod fmt;
pub mod unicode;
pub mod buffer;
pub mod editor;
pub mod mode;
pub mod misc;
pub mod popup;
pub mod config;
pub mod task;
pub mod access;
pub mod fastpatch;
pub mod debug;
pub mod history;
pub mod bracket;
pub mod diffrows;
pub mod json;
pub mod agent;
pub mod tools;
pub mod navigate;
pub mod cli;
pub mod sed_changes;
pub mod keymap;
pub mod merge_view;
pub mod git_view;
pub mod commands;
pub mod outline;
pub mod insert_mode;
pub mod selection;
pub mod submit;
pub mod search;
pub mod workspace;
pub mod popup_keys;
pub mod git_panes;
pub mod merge_rows;
pub mod tool_reply;
pub mod tool_output;
pub mod agent_cycle;
pub mod llm_api;
pub mod status;
pub mod tool_list;
