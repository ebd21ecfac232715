//! The logic of the Beam HTTP client: request bodies and their formatting,
//! template variables and their completion, request runs and responses,
//! text fields with undo histories, the command palette, the panels and
//! dialogs of the interface, and the model of requests and collections.

pub mod auth;
pub mod body;
pub mod clock;
pub mod collections;
pub mod command_palette;
pub mod completion;
pub mod curl;
pub mod custom_text_input;
pub mod editor_cache;
pub mod environment;
pub mod execution;
pub mod floating_element;
pub mod icon;
pub mod import;
pub mod json;
pub mod key_bindings;
pub mod managed_text_input;
pub mod models;
pub mod outgoing;
pub mod pattern;
pub mod request_panel;
pub mod request_save;
pub mod response;
pub mod template;
pub mod text;
pub mod types;
pub mod workspace_dialog;
pub mod xml;
