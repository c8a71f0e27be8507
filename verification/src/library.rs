//! The built-in node kinds: enough to exercise the engine end to end.
pub mod blank_color;
pub mod invert;
pub mod mix;
pub mod noise;
pub mod normalize;
pub mod output;
pub mod pattern;
pub mod remap;
pub mod static_value;
