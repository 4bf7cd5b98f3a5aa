//! Splits container image names such as `registry.example.com/app:v1` into a
//! repository and an optional tag, and renders the result as JSON.

pub mod image_name;
pub mod json;

pub use image_name::{parse, ImageName};
pub use json::to_json;
