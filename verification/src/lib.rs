//! The rules of a document workspace: what a window full of editors may do
//! with unsaved text, its recovery checkpoints, its tabs and its chrome.
//!
//! Nothing here touches a window, a file or a clock. Each function takes the
//! facts it needs as plain values, changes the workspace's own state, and says
//! what the host has to do next. Identities that the host owns are numbers: it
//! interns its paths, recovery keys, tokens and error texts and hands over
//! their handles.

pub mod bindings;
pub mod checkpoint;
pub mod chrome;
pub mod commands;
pub mod destructive;
pub mod document_laws;
pub mod documents;
pub mod effect;
pub mod frame_laws;
pub mod harness;
pub mod labels;
pub mod laws;
pub mod lifecycle;
pub mod messages;
pub mod panels;
pub mod pass;
pub mod protection;
pub mod recovery_laws;
pub mod requests;
pub mod retirement;
pub mod save_as;
pub mod scope;
pub mod search;
pub mod settings;
pub mod startup;
pub mod status;
pub mod tabs;
pub mod text;
pub mod translate;
pub mod walk_laws;
pub mod watch;
pub mod welcome;
pub mod window_laws;
pub mod words;
pub mod workspace;
