//! iro: derive a stylistically consistent 16-slot terminal color palette
//! from an image's pixels.
//!
//! The pipeline runs strictly forward: dominant-color extraction,
//! harmonization, hue boosting, target-hue shifting, hue-coverage
//! guarantees, style adjustment, background/foreground synthesis,
//! terminal-slot mapping and accent selection.  Every stage is pure
//! integer arithmetic: hues are whole degrees in `[0, 360)` and
//! saturation, lightness and all style factors are thousandths, so the
//! whole computation is deterministic and verifiable.

pub mod color;
pub mod color_extractor;
pub mod config;
pub mod config_generator;
pub mod extract;
pub mod hex;
pub mod hue;
pub mod num;
pub mod palette;
pub mod pipeline;
pub mod scheme;
pub mod style;
pub mod text;
