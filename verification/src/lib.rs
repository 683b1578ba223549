//! The decision layer of the Field CAD desktop workbench.

pub mod editors;
pub mod expression;
pub mod expression_editor;
pub mod field_layers;
pub mod fields;
pub mod catalog;
pub mod catalog_window;
pub mod command;
pub mod compute;
pub mod draft;
pub mod ids;
pub mod inspector;
pub mod layers;
pub mod measured;
pub mod model;
pub mod number;
pub mod object_inspector;
pub mod ordered;
pub mod plot;
pub mod preview;
pub mod probe_inspector;
pub mod scene_tree;
pub mod shape_inspector;
pub mod source;
pub mod text;
pub mod transport;
pub mod user_constants;
pub mod view_controls;
pub mod windows;
pub mod world;
pub mod world_inspector;
