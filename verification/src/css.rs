//! Style sheets: values, declarations, shorthands, media conditions.
pub mod backgrounds;
pub mod color;
pub mod components;
pub mod declaration;
pub mod font_face;
pub mod hues;
pub mod lengths;
pub mod longhands;
pub mod media;
pub mod named;
pub mod number;
pub mod priorities;
pub mod properties;
pub mod selector;
pub mod shorthand;
pub mod stylesheet;
pub mod value;
