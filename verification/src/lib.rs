//! Verified editing core of a dot-to-dot picture editor: numbered point
//! sequences with undo, CSV export, overlay rasterisation primitives and the
//! small text formats the application shows.
pub mod model;
pub mod text;
pub mod editor;
pub mod export_logic;
pub mod export_dialog;
pub mod markdown;
pub mod storage;
pub mod commands;
pub mod csv_shape;
pub mod laws;
pub mod export_laws;
pub mod status;
