//! Verified core of the Quick UI framework.
pub mod base;
pub mod color;
pub mod color_scheme;
pub mod css;
pub mod event;
pub mod markup;
pub mod noctalia;
pub mod property;
pub mod render;
pub mod scheme;
pub mod selector;
pub mod signals;
pub mod telemetry;
pub mod text;
pub mod tokens;
pub mod xml_reader;
