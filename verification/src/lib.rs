pub mod app;
pub mod app_store;
pub mod dialogs;
pub mod dirs;
pub mod editor;
pub mod edits;
pub mod fields;
pub mod handler;
pub mod json_view;
pub mod keys;
pub mod laws;
pub mod models;
pub mod mouse;
pub mod nav;
pub mod order;
pub mod path;
pub mod screen;
pub mod selection;
pub mod session;
pub mod storage;
pub mod text;
pub mod tree;
pub mod typing;
