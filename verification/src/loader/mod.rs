pub mod attributes;
pub mod class_path;
pub mod class_text;
pub mod class_loader;
pub mod java_class;
pub mod listing;
pub mod reader;
