//! The Fluent-style base theme: neutral palette, accent colors, OS color
//! scheme and the resolved base colors.
pub mod palette;
pub mod scale;
pub mod system;
pub mod theme;
